//! Conversational cues: a light reading of the tone of a message, used only
//! to adapt the style of the reply. It never makes a medical claim.

use vstd::prelude::*;
use crate::text::{chars_of, contains, contains_exec, lowercase, owned, to_lower, views_of};

verus! {

/// The tone a message seems to carry.
#[derive(Clone, Copy, Debug, PartialEq, Eq, Structural)]
pub enum ConversationalCue {
    Frustrated,
    Excited,
    Urgent,
    Sad,
    Confused,
    Confident,
    Curious,
    Casual,
}

/// The reading of a message: the cue, how many of its terms were found,
/// how to phrase the reply, and that no medical claim is made.
pub struct EmotionalEstimate {
    pub cue: ConversationalCue,
    pub score: u32,
    pub style_instruction: String,
    pub medical_diagnosis: bool,
}

/// The cues that are looked for, in the order they are weighed.
pub open spec fn cue_at(k: int) -> ConversationalCue {
    if k == 0 {
        ConversationalCue::Frustrated
    } else if k == 1 {
        ConversationalCue::Urgent
    } else if k == 2 {
        ConversationalCue::Confused
    } else if k == 3 {
        ConversationalCue::Excited
    } else if k == 4 {
        ConversationalCue::Sad
    } else {
        ConversationalCue::Curious
    }
}

/// The terms that signal each weighed cue, in English, Bangla and Hindi.
pub open spec fn cue_terms(k: int) -> Seq<Seq<char>> {
    if k == 0 {
        seq!["frustrated"@, "annoying"@, "doesn't work"@, "not working"@, "again!"@, "বিরক্ত"@, "परेशान"@]
    } else if k == 1 {
        seq!["urgent"@, "asap"@, "right now"@, "immediately"@, "জরুরি"@, "तुरंत"@]
    } else if k == 2 {
        seq!["confused"@, "don't understand"@, "how does"@, "why is"@, "বুঝতে পারছি না"@, "समझ नहीं"@]
    } else if k == 3 {
        seq!["excited"@, "amazing"@, "great!"@, "চমৎকার"@, "बहुत बढ़िया"@]
    } else if k == 4 {
        seq!["sad"@, "upset"@, "disappointed"@, "মন খারাপ"@, "उदास"@]
    } else {
        seq!["curious"@, "wonder"@, "what if"@, "জানতে চাই"@, "जानना"@]
    }
}

/// How to phrase the reply for each weighed cue.
pub open spec fn cue_instruction(k: int) -> Seq<char> {
    if k == 0 {
        "Respond calmly, briefly, and lead with the next concrete step."@
    } else if k == 1 {
        "Prioritize the action and state blockers immediately."@
    } else if k == 2 {
        "Explain in short sequential steps and verify understanding."@
    } else if k == 3 {
        "Match positive energy without exaggeration."@
    } else if k == 4 {
        "Use a gentle, respectful tone without making a medical claim."@
    } else {
        "Explore the question clearly and distinguish facts from uncertainty."@
    }
}

/// How to phrase the reply when no cue is found.
pub open spec fn casual_instruction() -> Seq<char> {
    "Use a natural, concise, respectful tone."@
}

/// How many of the terms occur in the text.
pub open spec fn term_count(lower: Seq<char>, terms: Seq<Seq<char>>) -> nat
    decreases terms.len(),
{
    if terms.len() == 0 {
        0
    } else {
        term_count(lower, terms.subrange(0, terms.len() - 1)) + if contains(lower, terms[terms.len() - 1]) {
            1nat
        } else {
            0nat
        }
    }
}

/// The position of the last largest score (`Iterator::max_by` keeps the
/// last of equal maxima).
pub open spec fn last_max(scores: Seq<nat>) -> int
    decreases scores.len(),
{
    if scores.len() <= 1 {
        0
    } else {
        let b = last_max(scores.subrange(0, scores.len() - 1));
        if scores[scores.len() - 1] >= scores[b] {
            scores.len() - 1
        } else {
            b
        }
    }
}

/// The scores of the six weighed cues for a lowercase text.
pub open spec fn cue_scores(lower: Seq<char>) -> Seq<nat> {
    Seq::new(6, |k: int| term_count(lower, cue_terms(k)))
}

/// The reading of a message: the weighed cue with the most terms found (the
/// later one on a tie), or a casual tone when no term is found.
pub open spec fn estimate_spec(text: Seq<char>) -> (ConversationalCue, nat, Seq<char>) {
    let scores = cue_scores(lowercase(text));
    let b = last_max(scores);
    if scores[b] == 0 {
        (ConversationalCue::Casual, 0, casual_instruction())
    } else {
        (cue_at(b), scores[b], cue_instruction(b))
    }
}

fn terms_for(k: usize) -> (r: Vec<String>)
    requires
        k < 6,
    ensures
        views_of(r@) == cue_terms(k as int),
        r@.len() <= 7,
{
    let mut v: Vec<String> = Vec::new();
    if k == 0 {
        v.push(owned("frustrated"));
        v.push(owned("annoying"));
        v.push(owned("doesn't work"));
        v.push(owned("not working"));
        v.push(owned("again!"));
        v.push(owned("বিরক্ত"));
        v.push(owned("परेशान"));
    } else if k == 1 {
        v.push(owned("urgent"));
        v.push(owned("asap"));
        v.push(owned("right now"));
        v.push(owned("immediately"));
        v.push(owned("জরুরি"));
        v.push(owned("तुरंत"));
    } else if k == 2 {
        v.push(owned("confused"));
        v.push(owned("don't understand"));
        v.push(owned("how does"));
        v.push(owned("why is"));
        v.push(owned("বুঝতে পারছি না"));
        v.push(owned("समझ नहीं"));
    } else if k == 3 {
        v.push(owned("excited"));
        v.push(owned("amazing"));
        v.push(owned("great!"));
        v.push(owned("চমৎকার"));
        v.push(owned("बहुत बढ़िया"));
    } else if k == 4 {
        v.push(owned("sad"));
        v.push(owned("upset"));
        v.push(owned("disappointed"));
        v.push(owned("মন খারাপ"));
        v.push(owned("उदास"));
    } else {
        v.push(owned("curious"));
        v.push(owned("wonder"));
        v.push(owned("what if"));
        v.push(owned("জানতে চাই"));
        v.push(owned("जानना"));
    }
    assert(views_of(v@) =~= cue_terms(k as int));
    v
}

fn instruction_for(k: usize) -> (r: String)
    requires
        k < 6,
    ensures
        r@ == cue_instruction(k as int),
{
    if k == 0 {
        owned("Respond calmly, briefly, and lead with the next concrete step.")
    } else if k == 1 {
        owned("Prioritize the action and state blockers immediately.")
    } else if k == 2 {
        owned("Explain in short sequential steps and verify understanding.")
    } else if k == 3 {
        owned("Match positive energy without exaggeration.")
    } else if k == 4 {
        owned("Use a gentle, respectful tone without making a medical claim.")
    } else {
        owned("Explore the question clearly and distinguish facts from uncertainty.")
    }
}

fn cue_for(k: usize) -> (r: ConversationalCue)
    ensures
        r == cue_at(k as int),
{
    if k == 0 {
        ConversationalCue::Frustrated
    } else if k == 1 {
        ConversationalCue::Urgent
    } else if k == 2 {
        ConversationalCue::Confused
    } else if k == 3 {
        ConversationalCue::Excited
    } else if k == 4 {
        ConversationalCue::Sad
    } else {
        ConversationalCue::Curious
    }
}

fn count_terms(lower: &Vec<char>, terms: &Vec<String>) -> (r: u32)
    requires
        terms@.len() < 100,
    ensures
        r as nat == term_count(lower@, views_of(terms@)),
{
    let mut n: u32 = 0;
    let mut i: usize = 0;
    while i < terms.len()
        invariant
            i <= terms.len() < 100,
            n <= i,
            n as nat == term_count(lower@, views_of(terms@).subrange(0, i as int)),
        decreases terms.len() - i,
    {
        let t = chars_of(terms[i].as_str());
        let ghost pre = views_of(terms@).subrange(0, i + 1);
        assert(pre.subrange(0, i as int) =~= views_of(terms@).subrange(0, i as int));
        assert(pre[i as int] == t@);
        if contains_exec(lower, &t) {
            n = n + 1;
        }
        i = i + 1;
    }
    assert(views_of(terms@).subrange(0, terms.len() as int) =~= views_of(terms@));
    n
}

/// Reads the tone of a message.
pub fn estimate(text: &str) -> (r: EmotionalEstimate)
    ensures
        (r.cue, r.score as nat, r.style_instruction@) == estimate_spec(text@),
        !r.medical_diagnosis,
{
    let lower_s = to_lower(text);
    let lower = chars_of(lower_s.as_str());
    let mut scores: Vec<u32> = Vec::new();
    let mut k: usize = 0;
    while k < 6
        invariant
            k <= 6,
            lower@ == lowercase(text@),
            scores@.len() == k,
            forall|j: int| 0 <= j < k ==> #[trigger] scores@[j] as nat == cue_scores(lower@)[j],
        decreases 6 - k,
    {
        let terms = terms_for(k);
        let c = count_terms(&lower, &terms);
        scores.push(c);
        k = k + 1;
    }
    let ghost sv = cue_scores(lower@);
    let mut best: usize = 0;
    let mut i: usize = 1;
    while i < 6
        invariant
            1 <= i <= 6,
            scores@.len() == 6,
            sv == cue_scores(lower@),
            forall|j: int| 0 <= j < 6 ==> #[trigger] scores@[j] as nat == sv[j],
            best < i,
            best as int == last_max(sv.subrange(0, i as int)),
        decreases 6 - i,
    {
        let ghost pre = sv.subrange(0, i + 1);
        assert(pre.subrange(0, i as int) =~= sv.subrange(0, i as int));
        assert(pre[i as int] == sv[i as int]);
        assert(pre[best as int] == sv[best as int]);
        if scores[i] >= scores[best] {
            best = i;
        }
        i = i + 1;
    }
    assert(sv.subrange(0, 6) =~= sv);
    if scores[best] == 0 {
        EmotionalEstimate {
            cue: ConversationalCue::Casual,
            score: 0,
            style_instruction: owned("Use a natural, concise, respectful tone."),
            medical_diagnosis: false,
        }
    } else {
        EmotionalEstimate {
            cue: cue_for(best),
            score: scores[best],
            style_instruction: instruction_for(best),
            medical_diagnosis: false,
        }
    }
}

/// A message reads casual exactly when none of the weighed terms occurs in it.
pub proof fn law_casual_iff_no_terms(text: Seq<char>)
    ensures
        estimate_spec(text).0 == ConversationalCue::Casual <==> forall|k: int| 0 <= k < 6 ==> #[trigger] cue_scores(lowercase(text))[k] == 0,
{
    let s = cue_scores(lowercase(text));
    lemma_last_max_is_max(s);
    let b = last_max(s);
    if estimate_spec(text).0 == ConversationalCue::Casual {
        assert forall|k: int| 0 <= k < 6 implies #[trigger] s[k] == 0 by {
            if s[b] != 0 {
                assert(cue_at(b) != ConversationalCue::Casual);
            }
        }
    }
}

proof fn lemma_last_max_is_max(s: Seq<nat>)
    requires
        s.len() >= 1,
    ensures
        0 <= last_max(s) < s.len(),
        forall|j: int| 0 <= j < s.len() ==> #[trigger] s[j] <= s[last_max(s)],
    decreases s.len(),
{
    if s.len() > 1 {
        let t = s.subrange(0, s.len() - 1);
        lemma_last_max_is_max(t);
        assert forall|j: int| 0 <= j < s.len() implies #[trigger] s[j] <= s[last_max(s)] by {
            if j < s.len() - 1 {
                assert(t[j] == s[j]);
            }
            assert(t[last_max(t)] == s[last_max(t)]);
        }
    }
}

proof fn lemma_term_count_positive(lower: Seq<char>, terms: Seq<Seq<char>>)
    ensures
        term_count(lower, terms) > 0 <==> exists|i: int| 0 <= i < terms.len() && contains(lower, #[trigger] terms[i]),
    decreases terms.len(),
{
    if terms.len() > 0 {
        let t = terms.subrange(0, terms.len() - 1);
        lemma_term_count_positive(lower, t);
        if exists|i: int| 0 <= i < t.len() && contains(lower, #[trigger] t[i]) {
            let i = choose|i: int| 0 <= i < t.len() && contains(lower, #[trigger] t[i]);
            assert(terms[i] == t[i]);
        }
        if exists|i: int| 0 <= i < terms.len() && contains(lower, #[trigger] terms[i]) {
            let i = choose|i: int| 0 <= i < terms.len() && contains(lower, #[trigger] terms[i]);
            if i < terms.len() - 1 {
                assert(t[i] == terms[i]);
            }
        }
    }
}

/// The reading that a message gets when the terms of one cue occur in it
/// and those of no other cue do.
proof fn lemma_only_cue(text: Seq<char>, k: int)
    requires
        0 <= k < 6,
        cue_scores(lowercase(text))[k] > 0,
        forall|j: int| 0 <= j < 6 && j != k ==> #[trigger] cue_scores(lowercase(text))[j] == 0,
    ensures
        estimate_spec(text) == (cue_at(k), cue_scores(lowercase(text))[k], cue_instruction(k)),
{
    let s = cue_scores(lowercase(text));
    lemma_last_max_is_max(s);
    let b = last_max(s);
    assert(s[k] <= s[b]);
    assert(b == k);
}

/// How a message reads follows from the terms in it, in any case: each cue
/// is weighed exactly when one of its terms occurs in the lowercase text —
/// frustration: frustrated, annoying, doesn't work, not working, again!,
/// বিরক্ত, परेशान; urgency: urgent, asap, right now, immediately, জরুরি,
/// तुरंत; confusion: confused, don't understand, how does, why is,
/// বুঝতে পারছি না, समझ नहीं; excitement: excited, amazing, great!, চমৎকার,
/// बहुत बढ़िया; sadness: sad, upset, disappointed, মন খারাপ, उदास;
/// curiosity: curious, wonder, what if, জানতে চাই, जानना. A message with
/// none of them reads casual; one whose terms are all of a single cue reads
/// as that cue, with its reply style.
pub proof fn law_reading_follows_the_terms(text: Seq<char>)
    ensures
        ({
            let l = lowercase(text);
            let scores = cue_scores(l);
            let frustrated = contains(l, "frustrated"@) || contains(l, "annoying"@) || contains(l, "doesn't work"@)
                || contains(l, "not working"@) || contains(l, "again!"@) || contains(l, "বিরক্ত"@) || contains(l, "परेशान"@);
            let urgent = contains(l, "urgent"@) || contains(l, "asap"@) || contains(l, "right now"@)
                || contains(l, "immediately"@) || contains(l, "জরুরি"@) || contains(l, "तुरंत"@);
            let confused = contains(l, "confused"@) || contains(l, "don't understand"@) || contains(l, "how does"@)
                || contains(l, "why is"@) || contains(l, "বুঝতে পারছি না"@) || contains(l, "समझ नहीं"@);
            let excited = contains(l, "excited"@) || contains(l, "amazing"@) || contains(l, "great!"@)
                || contains(l, "চমৎকার"@) || contains(l, "बहुत बढ़िया"@);
            let sad = contains(l, "sad"@) || contains(l, "upset"@) || contains(l, "disappointed"@)
                || contains(l, "মন খারাপ"@) || contains(l, "उदास"@);
            let curious = contains(l, "curious"@) || contains(l, "wonder"@) || contains(l, "what if"@)
                || contains(l, "জানতে চাই"@) || contains(l, "जानना"@);
            let r = estimate_spec(text);
            &&& (scores[0] > 0 <==> frustrated)
            &&& (scores[1] > 0 <==> urgent)
            &&& (scores[2] > 0 <==> confused)
            &&& (scores[3] > 0 <==> excited)
            &&& (scores[4] > 0 <==> sad)
            &&& (scores[5] > 0 <==> curious)
            &&& (r.0 == ConversationalCue::Casual <==> !(frustrated || urgent || confused || excited || sad || curious))
            &&& (r.0 == ConversationalCue::Casual ==> r.1 == 0 && r.2 == "Use a natural, concise, respectful tone."@)
            &&& (r.0 != ConversationalCue::Casual ==> r.1 > 0)
            &&& (frustrated && !urgent && !confused && !excited && !sad && !curious ==> r.0 == ConversationalCue::Frustrated
                && r.2 == "Respond calmly, briefly, and lead with the next concrete step."@)
            &&& (urgent && !frustrated && !confused && !excited && !sad && !curious ==> r.0 == ConversationalCue::Urgent
                && r.2 == "Prioritize the action and state blockers immediately."@)
            &&& (confused && !frustrated && !urgent && !excited && !sad && !curious ==> r.0 == ConversationalCue::Confused
                && r.2 == "Explain in short sequential steps and verify understanding."@)
            &&& (excited && !frustrated && !urgent && !confused && !sad && !curious ==> r.0 == ConversationalCue::Excited
                && r.2 == "Match positive energy without exaggeration."@)
            &&& (sad && !frustrated && !urgent && !confused && !excited && !curious ==> r.0 == ConversationalCue::Sad
                && r.2 == "Use a gentle, respectful tone without making a medical claim."@)
            &&& (curious && !frustrated && !urgent && !confused && !excited && !sad ==> r.0 == ConversationalCue::Curious
                && r.2 == "Explore the question clearly and distinguish facts from uncertainty."@)
        }),
{
    let l = lowercase(text);
    let s = cue_scores(l);
    lemma_term_count_positive(l, cue_terms(0));
    lemma_term_count_positive(l, cue_terms(1));
    lemma_term_count_positive(l, cue_terms(2));
    lemma_term_count_positive(l, cue_terms(3));
    lemma_term_count_positive(l, cue_terms(4));
    lemma_term_count_positive(l, cue_terms(5));
    let t0 = cue_terms(0);
    let t1 = cue_terms(1);
    let t2 = cue_terms(2);
    let t3 = cue_terms(3);
    let t4 = cue_terms(4);
    let t5 = cue_terms(5);
    assert(s[0] > 0 <==> exists|i: int| 0 <= i < t0.len() && contains(l, #[trigger] t0[i]));
    assert(s[1] > 0 <==> exists|i: int| 0 <= i < t1.len() && contains(l, #[trigger] t1[i]));
    assert(s[2] > 0 <==> exists|i: int| 0 <= i < t2.len() && contains(l, #[trigger] t2[i]));
    assert(s[3] > 0 <==> exists|i: int| 0 <= i < t3.len() && contains(l, #[trigger] t3[i]));
    assert(s[4] > 0 <==> exists|i: int| 0 <= i < t4.len() && contains(l, #[trigger] t4[i]));
    assert(s[5] > 0 <==> exists|i: int| 0 <= i < t5.len() && contains(l, #[trigger] t5[i]));
    law_casual_iff_no_terms(text);
    lemma_last_max_is_max(s);
    if s[0] > 0 && s[1] == 0 && s[2] == 0 && s[3] == 0 && s[4] == 0 && s[5] == 0 { lemma_only_cue(text, 0); }
    if s[1] > 0 && s[0] == 0 && s[2] == 0 && s[3] == 0 && s[4] == 0 && s[5] == 0 { lemma_only_cue(text, 1); }
    if s[2] > 0 && s[0] == 0 && s[1] == 0 && s[3] == 0 && s[4] == 0 && s[5] == 0 { lemma_only_cue(text, 2); }
    if s[3] > 0 && s[0] == 0 && s[1] == 0 && s[2] == 0 && s[4] == 0 && s[5] == 0 { lemma_only_cue(text, 3); }
    if s[4] > 0 && s[0] == 0 && s[1] == 0 && s[2] == 0 && s[3] == 0 && s[5] == 0 { lemma_only_cue(text, 4); }
    if s[5] > 0 && s[0] == 0 && s[1] == 0 && s[2] == 0 && s[3] == 0 && s[4] == 0 { lemma_only_cue(text, 5); }
}

/// One if the term occurs in the text, else zero.
pub open spec fn hit(lower: Seq<char>, term: Seq<char>) -> nat {
    if contains(lower, term) {
        1
    } else {
        0
    }
}

/// The number of the first `k` terms that occur in the text.
pub open spec fn hits_upto(lower: Seq<char>, terms: Seq<Seq<char>>, k: nat) -> nat
    decreases k,
{
    if k == 0 {
        0
    } else {
        hits_upto(lower, terms, (k - 1) as nat) + hit(lower, terms[k - 1])
    }
}

proof fn lemma_term_count_hits(lower: Seq<char>, terms: Seq<Seq<char>>)
    ensures
        term_count(lower, terms) == hits_upto(lower, terms, terms.len()),
    decreases terms.len(),
{
    if terms.len() > 0 {
        let t = terms.subrange(0, terms.len() - 1);
        lemma_term_count_hits(lower, t);
        lemma_hits_prefix(lower, terms, t, t.len());
    }
}

proof fn lemma_hits_prefix(lower: Seq<char>, a: Seq<Seq<char>>, b: Seq<Seq<char>>, k: nat)
    requires
        k <= b.len(),
        k <= a.len(),
        forall|i: int| 0 <= i < k ==> a[i] == b[i],
    ensures
        hits_upto(lower, a, k) == hits_upto(lower, b, k),
    decreases k,
{
    if k > 0 {
        lemma_hits_prefix(lower, a, b, (k - 1) as nat);
    }
}

/// No position after the last largest score holds as large a score.
proof fn lemma_last_max_is_last(s: Seq<nat>)
    requires
        s.len() >= 1,
    ensures
        forall|j: int| last_max(s) < j < s.len() ==> #[trigger] s[j] < s[last_max(s)],
    decreases s.len(),
{
    if s.len() > 1 {
        let t = s.subrange(0, s.len() - 1);
        lemma_last_max_is_last(t);
        lemma_last_max_is_max(t);
        assert forall|j: int| last_max(s) < j < s.len() implies #[trigger] s[j] < s[last_max(s)] by {
            if j < s.len() - 1 {
                assert(t[j] == s[j]);
            }
            assert(t[last_max(t)] == s[last_max(t)]);
        }
    }
}

/// Each cue's score counts the terms of that cue found in the lowercase
/// message, one for each distinct term. The reading is the cue with the
/// highest score, the later one in the order frustrated, urgent, confused,
/// excited, sad, curious on a tie, with that score and its reply style.
pub proof fn law_reading_takes_the_highest_score(text: Seq<char>)
    ensures
        ({
            let l = lowercase(text);
            let scores = cue_scores(l);
            let r = estimate_spec(text);
            let cues = seq![
                ConversationalCue::Frustrated,
                ConversationalCue::Urgent,
                ConversationalCue::Confused,
                ConversationalCue::Excited,
                ConversationalCue::Sad,
                ConversationalCue::Curious,
            ];
            &&& scores[0] == hit(l, "frustrated"@) + hit(l, "annoying"@) + hit(l, "doesn't work"@)
                + hit(l, "not working"@) + hit(l, "again!"@) + hit(l, "বিরক্ত"@) + hit(l, "परेशान"@)
            &&& scores[1] == hit(l, "urgent"@) + hit(l, "asap"@) + hit(l, "right now"@) + hit(l, "immediately"@)
                + hit(l, "জরুরি"@) + hit(l, "तुरंत"@)
            &&& scores[2] == hit(l, "confused"@) + hit(l, "don't understand"@) + hit(l, "how does"@)
                + hit(l, "why is"@) + hit(l, "বুঝতে পারছি না"@) + hit(l, "समझ नहीं"@)
            &&& scores[3] == hit(l, "excited"@) + hit(l, "amazing"@) + hit(l, "great!"@) + hit(l, "চমৎকার"@)
                + hit(l, "बहुत बढ़िया"@)
            &&& scores[4] == hit(l, "sad"@) + hit(l, "upset"@) + hit(l, "disappointed"@) + hit(l, "মন খারাপ"@)
                + hit(l, "उदास"@)
            &&& scores[5] == hit(l, "curious"@) + hit(l, "wonder"@) + hit(l, "what if"@) + hit(l, "জানতে চাই"@)
                + hit(l, "जानना"@)
            &&& r.0 != ConversationalCue::Casual ==> exists|k: int| 0 <= k < 6 && {
                &&& r.0 == cues[k]
                &&& r.1 == scores[k]
                &&& scores[k] > 0
                &&& forall|j: int| 0 <= j < 6 ==> #[trigger] scores[j] <= scores[k]
                &&& forall|j: int| k < j < 6 ==> #[trigger] scores[j] < scores[k]
            }
        }),
{
    let l = lowercase(text);
    let s = cue_scores(l);
    lemma_term_count_hits(l, cue_terms(0));
    lemma_term_count_hits(l, cue_terms(1));
    lemma_term_count_hits(l, cue_terms(2));
    lemma_term_count_hits(l, cue_terms(3));
    lemma_term_count_hits(l, cue_terms(4));
    lemma_term_count_hits(l, cue_terms(5));
    reveal_with_fuel(hits_upto, 8);
    lemma_last_max_is_max(s);
    lemma_last_max_is_last(s);
    let b = last_max(s);
    let cues = seq![
        ConversationalCue::Frustrated,
        ConversationalCue::Urgent,
        ConversationalCue::Confused,
        ConversationalCue::Excited,
        ConversationalCue::Sad,
        ConversationalCue::Curious,
    ];
    if estimate_spec(text).0 != ConversationalCue::Casual {
        assert(cues[b] == cue_at(b));
    }
}

} // verus!
