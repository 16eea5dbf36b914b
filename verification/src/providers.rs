//! AI provider data: model descriptions, capability inference from model
//! names, provider health states and the line framing of streamed replies.

use vstd::prelude::*;
use crate::error::{ErrorKind, ObError, message_of};
use crate::models::ProviderStatus;
use crate::windows_control::{strip_suffix_all, strip_suffix_all_exec};
use crate::models::CapabilityState;
use crate::json::{
    JsonValue, JsonView, copy_json, entries_view, field, field_of, items_view, json_view,
    lemma_entries_view, lemma_items_view, or_null, str_of, unsigned_of,
};
use crate::text::{
    chars_of, contains, contains_str, decimal, decimal_text, eq_str, is_space, lowercase, owned, push_text,
    string_of, to_lower, trim_chars, trim_end, trim_start, trimmed, views_of,
};

verus! {

/// A message of a chat conversation.
pub struct ChatMessage {
    pub role: String,
    pub content: String,
}

/// An installed or offered model and what it can do.
pub struct ModelInfo {
    pub id: String,
    pub name: String,
    pub capabilities: Vec<String>,
    pub context_length: Option<u64>,
    pub size_bytes: Option<u64>,
    pub local: bool,
}

/// An image handed to a vision model, Base64-encoded.
pub struct VisionInput {
    pub model: String,
    pub prompt: String,
    pub mime_type: String,
    pub data_base64: String,
}

/// The stored configuration of one provider.
pub struct ProviderConfig {
    pub id: String,
    pub base_url: String,
    pub enabled: bool,
    pub active_model: Option<String>,
}

/// The reply budget of a chat request when none is given.
pub fn default_tokens() -> (r: u32)
    ensures
        r == 2048,
{
    2048
}

/// The model name mentions a vision model.
pub open spec fn names_vision(lower: Seq<char>) -> bool {
    ||| contains(lower, "vision"@)
    ||| contains(lower, "llava"@)
    ||| contains(lower, "moondream"@)
    ||| contains(lower, "qwen2.5-vl"@)
    ||| contains(lower, "gemini"@)
    ||| contains(lower, "gpt-4o"@)
}

/// The model name mentions an embedding model.
pub open spec fn names_embeddings(lower: Seq<char>) -> bool {
    ||| contains(lower, "embed"@)
    ||| contains(lower, "nomic"@)
    ||| contains(lower, "bge"@)
    ||| contains(lower, "minilm"@)
    ||| contains(lower, "text-embedding"@)
}

/// The model name mentions a family that calls tools.
pub open spec fn names_tool_calling(lower: Seq<char>) -> bool {
    ||| contains(lower, "tool"@)
    ||| contains(lower, "function"@)
    ||| contains(lower, "qwen"@)
    ||| contains(lower, "llama3"@)
    ||| contains(lower, "mistral"@)
    ||| contains(lower, "gemini"@)
    ||| contains(lower, "gpt"@)
}

/// The model name mentions a coding model.
pub open spec fn names_coding(lower: Seq<char>) -> bool {
    ||| contains(lower, "code"@)
    ||| contains(lower, "coder"@)
    ||| contains(lower, "deepseek"@)
    ||| contains(lower, "starcoder"@)
}

/// `s` if `b`, else nothing.
pub open spec fn opt_seq(b: bool, s: Seq<Seq<char>>) -> Seq<Seq<char>> {
    if b {
        s
    } else {
        Seq::empty()
    }
}

/// The capabilities inferred from a model's lowercase name, in ascending
/// order: chat and streaming always, coding, embeddings, tool calling and
/// vision when the name mentions them.
pub open spec fn name_capabilities(lower: Seq<char>) -> Seq<Seq<char>> {
    seq!["chat"@] + opt_seq(names_coding(lower), seq!["coding"@]) + opt_seq(
        names_embeddings(lower),
        seq!["embeddings"@],
    ) + seq!["streaming"@] + opt_seq(names_tool_calling(lower), seq!["tool_calling"@]) + opt_seq(
        names_vision(lower),
        seq!["vision"@],
    )
}

/// Conservative capabilities of a model judged from its name.
pub fn capabilities_from_name(name: &str) -> (r: Vec<String>)
    ensures
        views_of(r@) == name_capabilities(lowercase(name@)),
{
    let lower_s = to_lower(name);
    let lower = chars_of(lower_s.as_str());
    let vision = contains_str(&lower, "vision") || contains_str(&lower, "llava") || contains_str(
        &lower,
        "moondream",
    ) || contains_str(&lower, "qwen2.5-vl") || contains_str(&lower, "gemini") || contains_str(
        &lower,
        "gpt-4o",
    );
    let embeddings = contains_str(&lower, "embed") || contains_str(&lower, "nomic") || contains_str(
        &lower,
        "bge",
    ) || contains_str(&lower, "minilm") || contains_str(&lower, "text-embedding");
    let tools = contains_str(&lower, "tool") || contains_str(&lower, "function") || contains_str(
        &lower,
        "qwen",
    ) || contains_str(&lower, "llama3") || contains_str(&lower, "mistral") || contains_str(
        &lower,
        "gemini",
    ) || contains_str(&lower, "gpt");
    let coding = contains_str(&lower, "code") || contains_str(&lower, "coder") || contains_str(
        &lower,
        "deepseek",
    ) || contains_str(&lower, "starcoder");
    let mut out: Vec<String> = Vec::new();
    out.push(owned("chat"));
    if coding {
        out.push(owned("coding"));
    }
    if embeddings {
        out.push(owned("embeddings"));
    }
    out.push(owned("streaming"));
    if tools {
        out.push(owned("tool_calling"));
    }
    if vision {
        out.push(owned("vision"));
    }
    assert(views_of(out@) =~= name_capabilities(lowercase(name@)));
    out
}

proof fn lemma_opt_contains(b: bool, x: Seq<char>, y: Seq<char>)
    ensures
        (opt_seq(b, seq![x])).contains(y) <==> (b && x == y),
{
    vstd::seq_lib::lemma_seq_contains_after_push(Seq::<Seq<char>>::empty(), x, y);
    vstd::seq_lib::lemma_seq_empty_contains_nothing(y);
}

/// What a model name says of the model: chat and streaming always; coding
/// exactly when the lowercase name mentions code, coder, deepseek or
/// starcoder; embeddings exactly when it mentions embed, nomic, bge, minilm
/// or text-embedding; tool calling exactly when it mentions tool, function,
/// qwen, llama3, mistral, gemini or gpt; vision exactly when it mentions
/// vision, llava, moondream, qwen2.5-vl, gemini or gpt-4o.
pub proof fn law_capabilities_follow_the_name(name: Seq<char>)
    ensures
        ({
            let l = lowercase(name);
            let caps = name_capabilities(l);
            &&& caps.contains("chat"@)
            &&& caps.contains("streaming"@)
            &&& (caps.contains("coding"@) <==> (contains(l, "code"@) || contains(l, "coder"@)
                || contains(l, "deepseek"@) || contains(l, "starcoder"@)))
            &&& (caps.contains("embeddings"@) <==> (contains(l, "embed"@) || contains(l, "nomic"@)
                || contains(l, "bge"@) || contains(l, "minilm"@) || contains(l, "text-embedding"@)))
            &&& (caps.contains("tool_calling"@) <==> (contains(l, "tool"@) || contains(l, "function"@)
                || contains(l, "qwen"@) || contains(l, "llama3"@) || contains(l, "mistral"@)
                || contains(l, "gemini"@) || contains(l, "gpt"@)))
            &&& (caps.contains("vision"@) <==> (contains(l, "vision"@) || contains(l, "llava"@)
                || contains(l, "moondream"@) || contains(l, "qwen2.5-vl"@) || contains(l, "gemini"@)
                || contains(l, "gpt-4o"@)))
            &&& forall|y: Seq<char>| #[trigger] caps.contains(y) ==> y == "chat"@ || y == "coding"@
                || y == "embeddings"@ || y == "streaming"@ || y == "tool_calling"@ || y == "vision"@
        }),
{
    reveal_strlit("chat");
    reveal_strlit("coding");
    reveal_strlit("embeddings");
    reveal_strlit("streaming");
    reveal_strlit("tool_calling");
    reveal_strlit("vision");
    let l = lowercase(name);
    let c = names_coding(l);
    let e = names_embeddings(l);
    let t = names_tool_calling(l);
    let v = names_vision(l);
    let p1 = seq!["chat"@];
    let p2 = opt_seq(c, seq!["coding"@]);
    let p3 = opt_seq(e, seq!["embeddings"@]);
    let p4 = seq!["streaming"@];
    let p5 = opt_seq(t, seq!["tool_calling"@]);
    let p6 = opt_seq(v, seq!["vision"@]);
    let caps = name_capabilities(l);
    assert(caps == p1 + p2 + p3 + p4 + p5 + p6);
    assert forall|y: Seq<char>| #[trigger] caps.contains(y) <==> (y == "chat"@ || (c && y == "coding"@)
        || (e && y == "embeddings"@) || y == "streaming"@ || (t && y == "tool_calling"@) || (v && y == "vision"@)) by {
        vstd::seq_lib::lemma_seq_concat_contains_all_elements(p1 + p2 + p3 + p4 + p5, p6, y);
        vstd::seq_lib::lemma_seq_concat_contains_all_elements(p1 + p2 + p3 + p4, p5, y);
        vstd::seq_lib::lemma_seq_concat_contains_all_elements(p1 + p2 + p3, p4, y);
        vstd::seq_lib::lemma_seq_concat_contains_all_elements(p1 + p2, p3, y);
        vstd::seq_lib::lemma_seq_concat_contains_all_elements(p1, p2, y);
        lemma_opt_contains(true, "chat"@, y);
        assert(p1 == opt_seq(true, seq!["chat"@]));
        lemma_opt_contains(true, "streaming"@, y);
        assert(p4 == opt_seq(true, seq!["streaming"@]));
        lemma_opt_contains(c, "coding"@, y);
        lemma_opt_contains(e, "embeddings"@, y);
        lemma_opt_contains(t, "tool_calling"@, y);
        lemma_opt_contains(v, "vision"@, y);
    }
    assert("coding"@ != "chat"@) by { assert("coding"@.len() != "chat"@.len()); }
    assert("coding"@ != "streaming"@) by { assert("coding"@.len() != "streaming"@.len()); }
    assert("coding"@ != "embeddings"@) by { assert("coding"@.len() != "embeddings"@.len()); }
    assert("coding"@ != "tool_calling"@) by { assert("coding"@.len() != "tool_calling"@.len()); }
    assert("coding"@ != "vision"@) by { assert("coding"@[0] != "vision"@[0]); }
    assert("embeddings"@ != "chat"@) by { assert("embeddings"@.len() != "chat"@.len()); }
    assert("embeddings"@ != "streaming"@) by { assert("embeddings"@.len() != "streaming"@.len()); }
    assert("embeddings"@ != "tool_calling"@) by { assert("embeddings"@.len() != "tool_calling"@.len()); }
    assert("embeddings"@ != "vision"@) by { assert("embeddings"@.len() != "vision"@.len()); }
    assert("tool_calling"@ != "chat"@) by { assert("tool_calling"@.len() != "chat"@.len()); }
    assert("tool_calling"@ != "streaming"@) by { assert("tool_calling"@.len() != "streaming"@.len()); }
    assert("tool_calling"@ != "vision"@) by { assert("tool_calling"@.len() != "vision"@.len()); }
    assert("vision"@ != "chat"@) by { assert("vision"@.len() != "chat"@.len()); }
    assert("vision"@ != "streaming"@) by { assert("vision"@.len() != "streaming"@.len()); }
    assert(caps.contains("chat"@));
    assert(caps.contains("streaming"@));
}

/// Character order of two texts: `a` sorts strictly before `b`
/// (the order of `String::cmp`, which for UTF-8 follows the characters).
pub open spec fn text_lt(a: Seq<char>, b: Seq<char>) -> bool
    decreases a.len(),
{
    if a.len() == 0 {
        b.len() > 0
    } else if b.len() == 0 {
        false
    } else if a[0] != b[0] {
        a[0] < b[0]
    } else {
        text_lt(a.subrange(1, a.len() as int), b.subrange(1, b.len() as int))
    }
}

/// Each entry sorts strictly before the next.
pub open spec fn strictly_sorted(s: Seq<Seq<char>>) -> bool {
    forall|i: int| 0 <= i < s.len() - 1 ==> text_lt(#[trigger] s[i], s[i + 1])
}

proof fn lemma_capability_names_ordered()
    ensures
        text_lt("chat"@, "coding"@),
        text_lt("coding"@, "embeddings"@),
        text_lt("embeddings"@, "streaming"@),
        text_lt("streaming"@, "tool_calling"@),
        text_lt("tool_calling"@, "vision"@),
        text_lt("chat"@, "embeddings"@),
        text_lt("chat"@, "streaming"@),
        text_lt("coding"@, "streaming"@),
        text_lt("streaming"@, "vision"@),
{
    reveal_strlit("chat");
    reveal_strlit("coding");
    reveal_strlit("embeddings");
    reveal_strlit("streaming");
    reveal_strlit("tool_calling");
    reveal_strlit("vision");
    assert("chat"@[0] == 'c' && "coding"@[0] == 'c');
    assert("chat"@.subrange(1, 4) =~= seq!['h', 'a', 't']);
    assert("coding"@.subrange(1, 6) =~= seq!['o', 'd', 'i', 'n', 'g']);
    assert(text_lt(seq!['h', 'a', 't'], seq!['o', 'd', 'i', 'n', 'g']));
}

/// The capability list of every model name is sorted and free of
/// duplicates, as the sort-and-dedup of the inferred list makes it.
pub proof fn law_capabilities_sorted_unique(lower: Seq<char>)
    ensures
        strictly_sorted(name_capabilities(lower)),
        name_capabilities(lower)[0] == "chat"@,
        name_capabilities(lower).contains("streaming"@),
{
    lemma_capability_names_ordered();
    let s = name_capabilities(lower);
    let t = seq!["chat"@, "coding"@, "embeddings"@, "streaming"@, "tool_calling"@, "vision"@];
    assert(s[0] == "chat"@);
    assert forall|i: int| 0 <= i < s.len() - 1 implies text_lt(#[trigger] s[i], s[i + 1]) by {
        lemma_text_lt_chain(s, i);
    }
    let k = if names_coding(lower) { 1int } else { 0int } + if names_embeddings(lower) { 1int } else { 0int } + 1;
    assert(s[k] == "streaming"@);
}

proof fn lemma_text_lt_transitive(a: Seq<char>, b: Seq<char>, c: Seq<char>)
    requires
        text_lt(a, b),
        text_lt(b, c),
    ensures
        text_lt(a, c),
    decreases a.len(),
{
    if a.len() > 0 && b.len() > 0 && c.len() > 0 && a[0] == b[0] && b[0] == c[0] {
        lemma_text_lt_transitive(
            a.subrange(1, a.len() as int),
            b.subrange(1, b.len() as int),
            c.subrange(1, c.len() as int),
        );
    }
}

proof fn lemma_text_lt_chain(s: Seq<Seq<char>>, i: int)
    requires
        exists|lower: Seq<char>| s == name_capabilities(lower),
        0 <= i < s.len() - 1,
    ensures
        text_lt(s[i], s[i + 1]),
{
    lemma_capability_names_ordered();
    let lower = choose|lower: Seq<char>| s == name_capabilities(lower);
    let c = names_coding(lower);
    let e = names_embeddings(lower);
    let t = names_tool_calling(lower);
    let v = names_vision(lower);
    lemma_text_lt_transitive("chat"@, "coding"@, "embeddings"@);
    lemma_text_lt_transitive("embeddings"@, "streaming"@, "tool_calling"@);
    lemma_text_lt_transitive("embeddings"@, "tool_calling"@, "vision"@);
    lemma_text_lt_transitive("coding"@, "embeddings"@, "streaming"@);
    lemma_text_lt_transitive("streaming"@, "tool_calling"@, "vision"@);
    lemma_text_lt_transitive("chat"@, "embeddings"@, "streaming"@);
    lemma_text_lt_transitive("chat"@, "coding"@, "streaming"@);
}

/// The capabilities that an Ollama installation advertises before any model is inspected.
pub fn ollama_capabilities() -> (r: Vec<String>)
    ensures
        views_of(r@) == seq![
            "chat"@,
            "streaming"@,
            "vision_model_dependent"@,
            "embeddings_model_dependent"@,
            "tool_calling_model_dependent"@,
        ],
{
    let mut out: Vec<String> = Vec::new();
    out.push(owned("chat"));
    out.push(owned("streaming"));
    out.push(owned("vision_model_dependent"));
    out.push(owned("embeddings_model_dependent"));
    out.push(owned("tool_calling_model_dependent"));
    assert(views_of(out@) =~= seq![
        "chat"@,
        "streaming"@,
        "vision_model_dependent"@,
        "embeddings_model_dependent"@,
        "tool_calling_model_dependent"@,
    ]);
    out
}

/// The health state shown for a provider whose health check failed with this kind of error.
pub open spec fn failure_state_spec(kind: ErrorKind) -> CapabilityState {
    match kind {
        ErrorKind::NotConnected => CapabilityState::NotConnected,
        ErrorKind::RequiresConfiguration => CapabilityState::RequiresConfiguration,
        _ => CapabilityState::Unavailable,
    }
}

/// The health state for a failed health check.
pub fn failure_state(error: &ObError) -> (s: CapabilityState)
    ensures
        s == failure_state_spec(error@.kind),
{
    match error {
        ObError::NotConnected(_) => CapabilityState::NotConnected,
        ObError::RequiresConfiguration(_) => CapabilityState::RequiresConfiguration,
        _ => CapabilityState::Unavailable,
    }
}

/// The lines completed while reading `s` after the partial line `cur`:
/// at each line break the line so far is trimmed and kept unless empty.
pub open spec fn lines_from(cur: Seq<char>, s: Seq<char>) -> Seq<Seq<char>>
    decreases s.len(),
{
    if s.len() == 0 {
        Seq::empty()
    } else if s[0] == '\n' {
        let line = trimmed(cur);
        let rest = lines_from(Seq::empty(), s.subrange(1, s.len() as int));
        if line.len() == 0 {
            rest
        } else {
            seq![line] + rest
        }
    } else {
        lines_from(cur.push(s[0]), s.subrange(1, s.len() as int))
    }
}

/// The partial line left after reading `s` after the partial line `cur`.
pub open spec fn pending_from(cur: Seq<char>, s: Seq<char>) -> Seq<char>
    decreases s.len(),
{
    if s.len() == 0 {
        cur
    } else if s[0] == '\n' {
        pending_from(Seq::empty(), s.subrange(1, s.len() as int))
    } else {
        pending_from(cur.push(s[0]), s.subrange(1, s.len() as int))
    }
}

/// The complete lines of a streamed buffer, trimmed, without the empty ones.
pub open spec fn ready_lines(s: Seq<char>) -> Seq<Seq<char>> {
    lines_from(Seq::empty(), s)
}

/// What stays in the buffer: the text after the last line break.
pub open spec fn pending_text(s: Seq<char>) -> Seq<char> {
    pending_from(Seq::empty(), s)
}

proof fn lemma_pending_no_newline(cur: Seq<char>, s: Seq<char>)
    requires
        !cur.contains('\n'),
    ensures
        !pending_from(cur, s).contains('\n'),
    decreases s.len(),
{
    if s.len() > 0 {
        if s[0] == '\n' {
            lemma_pending_no_newline(Seq::empty(), s.subrange(1, s.len() as int));
        } else {
            assert forall|j: int| 0 <= j < cur.push(s[0]).len() implies cur.push(s[0])[j] != '\n' by {
                if j < cur.len() {
                    assert(cur[j] != '\n');
                }
            }
            lemma_pending_no_newline(cur.push(s[0]), s.subrange(1, s.len() as int));
        }
    }
}

/// The text kept after the complete lines never holds a line break.
pub proof fn law_pending_text_has_no_newline(s: Seq<char>)
    ensures
        !pending_text(s).contains('\n'),
{
    lemma_pending_no_newline(Seq::empty(), s);
}

proof fn lemma_trim_start_within(s: Seq<char>)
    ensures
        forall|c: char| trim_start(s).contains(c) ==> s.contains(c),
    decreases s.len(),
{
    if s.len() > 0 && is_space(s[0]) {
        let t = s.subrange(1, s.len() as int);
        lemma_trim_start_within(t);
        assert forall|c: char| t.contains(c) implies s.contains(c) by {
            let j = choose|j: int| 0 <= j < t.len() && t[j] == c;
            assert(s[j + 1] == c);
        }
    }
}

proof fn lemma_trim_end_within(s: Seq<char>)
    ensures
        forall|c: char| trim_end(s).contains(c) ==> s.contains(c),
    decreases s.len(),
{
    if s.len() > 0 && is_space(s[s.len() - 1]) {
        let t = s.subrange(0, s.len() - 1);
        lemma_trim_end_within(t);
        assert forall|c: char| t.contains(c) implies s.contains(c) by {
            let j = choose|j: int| 0 <= j < t.len() && t[j] == c;
            assert(s[j] == c);
        }
    }
}

proof fn lemma_lines_clean(cur: Seq<char>, s: Seq<char>)
    requires
        !cur.contains('\n'),
    ensures
        forall|i: int|
            0 <= i < lines_from(cur, s).len() ==> (#[trigger] lines_from(cur, s)[i]).len() > 0
                && !lines_from(cur, s)[i].contains('\n'),
    decreases s.len(),
{
    if s.len() > 0 {
        let rest = s.subrange(1, s.len() as int);
        if s[0] == '\n' {
            lemma_lines_clean(Seq::empty(), rest);
            let line = trimmed(cur);
            lemma_trim_start_within(cur);
            lemma_trim_end_within(trim_start(cur));
            let tail = lines_from(Seq::empty(), rest);
            assert(!line.contains('\n')) by {
                if line.contains('\n') {
                    assert(trim_start(cur).contains('\n'));
                    assert(cur.contains('\n'));
                }
            }
            assert(lines_from(cur, s) == (if line.len() == 0 { tail } else { seq![line] + tail }));
            if line.len() > 0 {
                assert forall|i: int| 0 <= i < (seq![line] + tail).len() implies (#[trigger] (seq![line] + tail)[i]).len() > 0
                    && !(seq![line] + tail)[i].contains('\n') by {
                    if i > 0 {
                        assert((seq![line] + tail)[i] == tail[i - 1]);
                    }
                }
            }
        } else {
            assert forall|j: int| 0 <= j < cur.push(s[0]).len() implies cur.push(s[0])[j] != '\n' by {
                if j < cur.len() {
                    assert(cur[j] != '\n');
                }
            }
            lemma_lines_clean(cur.push(s[0]), rest);
            assert(lines_from(cur, s) == lines_from(cur.push(s[0]), rest));
        }
    }
}

/// Every complete line of a streamed buffer is non-empty and holds no line break.
pub proof fn law_ready_lines_are_clean(s: Seq<char>)
    ensures
        forall|i: int|
            0 <= i < ready_lines(s).len() ==> (#[trigger] ready_lines(s)[i]).len() > 0 && !ready_lines(s)[i].contains('\n'),
{
    lemma_lines_clean(Seq::empty(), s);
}

/// Splits a streamed buffer into its complete non-empty trimmed lines and
/// the text after the last line break, which waits for more data.
pub fn split_ready_lines(buffer: &str) -> (r: (Vec<String>, String))
    ensures
        views_of(r.0@) == ready_lines(buffer@),
        r.1@ == pending_text(buffer@),
{
    let s = chars_of(buffer);
    let mut lines: Vec<String> = Vec::new();
    let mut cur: Vec<char> = Vec::new();
    let mut i: usize = 0;
    assert(s@.subrange(0, s.len() as int) =~= s@);
    while i < s.len()
        invariant
            i <= s.len(),
            s@ == buffer@,
            ready_lines(buffer@) == views_of(lines@) + lines_from(cur@, s@.subrange(i as int, s.len() as int)),
            pending_text(buffer@) == pending_from(cur@, s@.subrange(i as int, s.len() as int)),
        decreases s.len() - i,
    {
        let ghost t = s@.subrange(i as int, s.len() as int);
        assert(t[0] == s@[i as int]);
        assert(t.subrange(1, t.len() as int) =~= s@.subrange(i + 1, s.len() as int));
        if s[i] == '\n' {
            let line = trim_chars(&cur);
            let ghost before = views_of(lines@);
            if line.len() > 0 {
                lines.push(string_of(&line));
                assert(views_of(lines@) =~= before.push(line@));
                assert(before + (seq![line@] + lines_from(Seq::empty(), s@.subrange(i + 1, s.len() as int)))
                    =~= views_of(lines@) + lines_from(Seq::empty(), s@.subrange(i + 1, s.len() as int)));
            }
            cur = Vec::new();
        } else {
            cur.push(s[i]);
        }
        i = i + 1;
    }
    assert(views_of(lines@) + Seq::<Seq<char>>::empty() =~= views_of(lines@));
    (lines, string_of(&cur))
}


/// What came of one provider's health check.
pub enum HealthOutcome {
    /// The provider answered with its status.
    Reported(ProviderStatus),
    /// The health check failed with this error.
    Failed(ObError),
    /// The health check did not finish in time.
    TimedOut,
}

/// The status of a provider that is switched off; it is not checked.
pub fn disabled_status(
    id: String,
    label: String,
    active_model: Option<String>,
    capabilities: Vec<String>,
) -> (r: ProviderStatus)
    ensures
        r.id == id && r.label == label && r.active_model == active_model && r.capabilities == capabilities,
        r.state == CapabilityState::Disabled,
        r.latency_ms is None,
        r.detail matches Some(d) && d@ == "Provider is disabled"@,
{
    ProviderStatus {
        id,
        label,
        state: CapabilityState::Disabled,
        active_model,
        capabilities,
        latency_ms: None,
        detail: Some(owned("Provider is disabled")),
    }
}

/// The status of a provider after its health check took `elapsed_ms`:
/// the reported status with the measured latency, a failure mapped to its
/// state with the error's message, or a time-out.
pub fn checked_status(
    id: String,
    label: String,
    active_model: Option<String>,
    capabilities: Vec<String>,
    outcome: HealthOutcome,
    elapsed_ms: u64,
) -> (r: ProviderStatus)
    ensures
        match outcome {
            HealthOutcome::Reported(s) => {
                &&& r.id == s.id && r.label == s.label && r.state == s.state
                &&& r.active_model == s.active_model && r.capabilities == s.capabilities
                &&& r.detail == s.detail
                &&& r.latency_ms == Some(elapsed_ms)
            },
            HealthOutcome::Failed(e) => {
                &&& r.id == id && r.label == label && r.active_model == active_model
                &&& r.capabilities == capabilities
                &&& r.state == failure_state_spec(e@.kind)
                &&& r.latency_ms == Some(elapsed_ms)
                &&& r.detail matches Some(d) && d@ == message_of(e@)
            },
            HealthOutcome::TimedOut => {
                &&& r.id == id && r.label == label && r.active_model == active_model
                &&& r.capabilities == capabilities
                &&& r.state == CapabilityState::Unavailable
                &&& r.latency_ms is None
                &&& r.detail matches Some(d) && d@ == "Health check timed out"@
            },
        },
{
    match outcome {
        HealthOutcome::Reported(s) => ProviderStatus {
            id: s.id,
            label: s.label,
            state: s.state,
            active_model: s.active_model,
            capabilities: s.capabilities,
            latency_ms: Some(elapsed_ms),
            detail: s.detail,
        },
        HealthOutcome::Failed(e) => {
            let state = failure_state(&e);
            let detail = e.message();
            ProviderStatus {
                id,
                label,
                state,
                active_model,
                capabilities,
                latency_ms: Some(elapsed_ms),
                detail: Some(detail),
            }
        },
        HealthOutcome::TimedOut => ProviderStatus {
            id,
            label,
            state: CapabilityState::Unavailable,
            active_model,
            capabilities,
            latency_ms: None,
            detail: Some(owned("Health check timed out")),
        },
    }
}

/// Whether `a` sorts strictly before `b` in character order.
pub fn text_less(a: &Vec<char>, b: &Vec<char>) -> (r: bool)
    ensures
        r == text_lt(a@, b@),
{
    let mut i: usize = 0;
    assert(a@.subrange(0, a.len() as int) =~= a@);
    assert(b@.subrange(0, b.len() as int) =~= b@);
    while i < a.len() && i < b.len()
        invariant
            i <= a.len() && i <= b.len(),
            text_lt(a@, b@) == text_lt(a@.subrange(i as int, a.len() as int), b@.subrange(i as int, b.len() as int)),
        decreases a.len() - i,
    {
        let ghost ta = a@.subrange(i as int, a.len() as int);
        let ghost tb = b@.subrange(i as int, b.len() as int);
        assert(ta[0] == a@[i as int] && tb[0] == b@[i as int]);
        if a[i] != b[i] {
            return a[i] < b[i];
        }
        assert(ta.subrange(1, ta.len() as int) =~= a@.subrange(i + 1, a.len() as int));
        assert(tb.subrange(1, tb.len() as int) =~= b@.subrange(i + 1, b.len() as int));
        i = i + 1;
    }
    i == a.len() && i < b.len()
}

proof fn lemma_text_lt_asymmetric(a: Seq<char>, b: Seq<char>)
    ensures
        text_lt(a, b) ==> !text_lt(b, a),
    decreases a.len(),
{
    if a.len() > 0 && b.len() > 0 && a[0] == b[0] {
        lemma_text_lt_asymmetric(a.subrange(1, a.len() as int), b.subrange(1, b.len() as int));
    }
}

proof fn lemma_text_lt_total(a: Seq<char>, b: Seq<char>)
    ensures
        a == b || text_lt(a, b) || text_lt(b, a),
    decreases a.len(),
{
    if a.len() == 0 && b.len() == 0 {
        assert(a =~= b);
    } else if a.len() > 0 && b.len() > 0 && a[0] == b[0] {
        let ta = a.subrange(1, a.len() as int);
        let tb = b.subrange(1, b.len() as int);
        lemma_text_lt_total(ta, tb);
        if ta == tb {
            assert forall|i: int| 0 <= i < a.len() implies a[i] == b[i] by {
                if i > 0 {
                    assert(ta[i - 1] == a[i]);
                    assert(tb[i - 1] == b[i]);
                }
            }
            assert(a =~= b);
        }
    }
}

/// `a` sorts no later than `c` when `a` is no later than `b` and `b` no later than `c`.
proof fn lemma_text_le_transitive(a: Seq<char>, b: Seq<char>, c: Seq<char>)
    requires
        !text_lt(b, a),
        !text_lt(c, b),
    ensures
        !text_lt(c, a),
{
    lemma_text_lt_total(a, b);
    lemma_text_lt_total(b, c);
    if text_lt(c, a) {
        if text_lt(a, b) {
            lemma_text_lt_transitive(c, a, b);
            lemma_text_lt_asymmetric(c, b);
        } else {
            lemma_text_lt_asymmetric(c, b);
        }
    }
}

/// The statuses are in ascending order of their ids.
pub open spec fn ids_sorted(s: Seq<ProviderStatus>) -> bool {
    forall|i: int, j: int| 0 <= i < j < s.len() ==> !text_lt(#[trigger] s[j].id@, #[trigger] s[i].id@)
}

/// The position before the first status whose id does not sort before `id`.
fn insert_position(out: &Vec<ProviderStatus>, id: &Vec<char>) -> (p: usize)
    ensures
        p <= out@.len(),
        forall|k: int| 0 <= k < p ==> text_lt(#[trigger] out@[k].id@, id@),
        p < out@.len() ==> !text_lt(out@[p as int].id@, id@),
{
    let mut p: usize = 0;
    while p < out.len()
        invariant
            p <= out@.len(),
            forall|k: int| 0 <= k < p ==> text_lt(#[trigger] out@[k].id@, id@),
        decreases out.len() - p,
    {
        let other = chars_of(out[p].id.as_str());
        if !text_less(&other, id) {
            return p;
        }
        p = p + 1;
    }
    p
}

/// Inserting a status before the first one that does not sort before it
/// keeps the statuses sorted by id.
proof fn lemma_insert_keeps_sorted(o0: Seq<ProviderStatus>, p: int, x: ProviderStatus)
    requires
        ids_sorted(o0),
        0 <= p <= o0.len(),
        forall|k: int| 0 <= k < p ==> text_lt(#[trigger] o0[k].id@, x.id@),
        p < o0.len() ==> !text_lt(o0[p].id@, x.id@),
    ensures
        ids_sorted(o0.insert(p, x)),
{
    let o1 = o0.insert(p, x);
    assert forall|i: int, j: int| 0 <= i < j < o1.len() implies !text_lt(#[trigger] o1[j].id@, #[trigger] o1[i].id@) by {
        if j < p {
            assert(o1[i] == o0[i] && o1[j] == o0[j]);
        } else if j == p {
            assert(o1[i] == o0[i] && o1[j] == x);
            lemma_text_lt_asymmetric(o0[i].id@, x.id@);
        } else if i == p {
            assert(o1[i] == x && o1[j] == o0[j - 1]);
            if j - 1 > p {
                assert(!text_lt(o0[j - 1].id@, o0[p].id@));
            } else {
                lemma_text_lt_asymmetric(o0[p].id@, o0[p].id@);
            }
            lemma_text_le_transitive(x.id@, o0[p].id@, o0[j - 1].id@);
        } else if i < p {
            assert(o1[i] == o0[i] && o1[j] == o0[j - 1]);
        } else {
            assert(o1[i] == o0[i - 1] && o1[j] == o0[j - 1]);
        }
    }
}

/// Sorts provider statuses by id, as the health overview lists them.
pub fn sort_by_id(statuses: Vec<ProviderStatus>) -> (r: Vec<ProviderStatus>)
    ensures
        r@.to_multiset() == statuses@.to_multiset(),
        ids_sorted(r@),
{
    broadcast use vstd::multiset::group_multiset_axioms;

    let mut rest = statuses;
    let mut out: Vec<ProviderStatus> = Vec::new();
    proof {
        vstd::seq_lib::to_multiset_len(out@);
        vstd::multiset::lemma_multiset_empty_len(out@.to_multiset());
    }
    assert(rest@.to_multiset().add(out@.to_multiset()) =~= statuses@.to_multiset());
    while rest.len() > 0
        invariant
            rest@.to_multiset().add(out@.to_multiset()) == statuses@.to_multiset(),
            ids_sorted(out@),
        decreases rest.len(),
    {
        let ghost r0 = rest@;
        let ghost o0 = out@;
        let x = match rest.pop() {
            Some(x) => x,
            None => {
                return out;
            },
        };
        assert(r0 =~= rest@.push(x));
        let xid = chars_of(x.id.as_str());
        let p = insert_position(&out, &xid);
        out.insert(p, x);
        proof {
            let o1 = out@;
            assert(o1 == o0.insert(p as int, x));
            vstd::seq_lib::to_multiset_insert(o0, p as int, x);
            vstd::seq_lib::to_multiset_build(rest@, x);
            assert(o1.to_multiset() == o0.to_multiset().insert(x));
            assert(r0.to_multiset() =~= rest@.to_multiset().insert(x));
            assert(rest@.to_multiset().add(o1.to_multiset()) =~= r0.to_multiset().add(o0.to_multiset()));
            lemma_insert_keeps_sorted(o0, p as int, x);
        }
    }
    proof {
        vstd::seq_lib::to_multiset_len(rest@);
        vstd::multiset::lemma_multiset_empty_len(rest@.to_multiset());
    }
    assert(rest@.to_multiset() =~= vstd::multiset::Multiset::empty());
    assert(out@.to_multiset() =~= statuses@.to_multiset());
    out
}

/// What a chat model answered.
pub struct ChatOutput {
    pub text: String,
    pub model: String,
    pub usage: Option<JsonValue>,
    pub tool_calls: Vec<JsonValue>,
    pub finish_reason: Option<String>,
}

/// A chat message as the Ollama chat endpoint takes it.
pub open spec fn message_json(role: Seq<char>, content: Seq<char>) -> JsonView {
    JsonView::Object(seq![("role"@, JsonView::Str(role)), ("content"@, JsonView::Str(content))])
}

/// The messages of a conversation in order.
pub open spec fn conversation_json(messages: Seq<ChatMessage>) -> Seq<JsonView>
    decreases messages.len(),
{
    if messages.len() == 0 {
        Seq::empty()
    } else {
        conversation_json(messages.drop_last()).push(
            message_json(messages.last().role@, messages.last().content@),
        )
    }
}

/// The messages sent to the chat endpoint: the system prompt first when
/// there is one, then the conversation.
pub open spec fn request_messages(messages: Seq<ChatMessage>, system: Option<String>) -> Seq<JsonView> {
    match system {
        Some(s) => seq![message_json("system"@, s@)] + conversation_json(messages),
        None => conversation_json(messages),
    }
}

fn message_value(role: &str, content: &str) -> (r: JsonValue)
    ensures
        r@ == message_json(role@, content@),
{
    let mut entries: Vec<(String, JsonValue)> = Vec::new();
    entries.push((owned("role"), JsonValue::Str(owned(role))));
    entries.push((owned("content"), JsonValue::Str(owned(content))));
    proof {
        lemma_entries_view(entries@);
        assert(entries_view(entries@) =~= seq![("role"@, JsonView::Str(role@)), ("content"@, JsonView::Str(content@))]);
    }
    JsonValue::Object(entries)
}

/// The messages of a chat request as JSON.
pub fn request_messages_json(messages: &Vec<ChatMessage>, system: &Option<String>) -> (r: Vec<JsonValue>)
    ensures
        items_view(r@) == request_messages(messages@, *system),
{
    let mut out: Vec<JsonValue> = Vec::new();
    let ghost head: Seq<JsonView> = Seq::empty();
    if let Some(s) = system {
        out.push(message_value("system", s.as_str()));
        proof {
            head = seq![message_json("system"@, s@)];
        }
    }
    proof {
        lemma_items_view(out@);
        assert(items_view(out@) =~= head);
        assert(messages@.subrange(0, 0) =~= Seq::<ChatMessage>::empty());
    }
    let mut i: usize = 0;
    while i < messages.len()
        invariant
            i <= messages.len(),
            items_view(out@) == head + conversation_json(messages@.subrange(0, i as int)),
            head == (match *system {
                Some(s) => seq![message_json("system"@, s@)],
                None => Seq::<JsonView>::empty(),
            }),
        decreases messages.len() - i,
    {
        let ghost before = items_view(out@);
        let ghost old_out = out@;
        let m = message_value(messages[i].role.as_str(), messages[i].content.as_str());
        out.push(m);
        proof {
            assert(out@.subrange(0, out@.len() - 1) =~= old_out);
            let done = messages@.subrange(0, i + 1);
            assert(done.drop_last() =~= messages@.subrange(0, i as int));
            assert(items_view(out@) =~= before.push(m@));
            assert(items_view(out@) =~= head + conversation_json(done));
        }
        i = i + 1;
    }
    assert(messages@.subrange(0, messages@.len() as int) =~= messages@);
    out
}

/// The text of a reply: the content of its message, or nothing.
pub open spec fn reply_text(v: JsonView) -> Seq<char> {
    match str_of(field_of(field(v, "message"@), "content"@)) {
        Some(t) => t,
        None => Seq::empty(),
    }
}

/// The token counts of a reply, as reported.
pub open spec fn reply_usage(v: JsonView) -> JsonView {
    JsonView::Object(
        seq![
            ("promptTokens"@, or_null(field(v, "prompt_eval_count"@))),
            ("completionTokens"@, or_null(field(v, "eval_count"@))),
        ],
    )
}

fn copy_or_null(v: Option<&JsonValue>) -> (r: JsonValue)
    ensures
        r@ == or_null(match v {
            Some(w) => Some(w@),
            None => None,
        }),
{
    match v {
        Some(w) => copy_json(w),
        None => JsonValue::Null,
    }
}

/// The content of the reply's message, or nothing.
fn reply_text_of(value: &JsonValue) -> (r: String)
    ensures
        r@ == reply_text(value@),
{
    proof {
        reveal_strlit("");
    }
    match value.get("message") {
        Some(m) => match m.get("content") {
            Some(c) => match c.as_str() {
                Some(t) => t.clone(),
                None => owned(""),
            },
            None => owned(""),
        },
        None => owned(""),
    }
}

/// The token counts of a reply as an object.
fn usage_of(value: &JsonValue) -> (r: JsonValue)
    ensures
        r@ == reply_usage(value@),
{
    let prompt = copy_or_null(value.get("prompt_eval_count"));
    let completion = copy_or_null(value.get("eval_count"));
    let mut usage: Vec<(String, JsonValue)> = Vec::new();
    usage.push((owned("promptTokens"), prompt));
    usage.push((owned("completionTokens"), completion));
    proof {
        lemma_entries_view(usage@);
        assert(entries_view(usage@) =~= seq![
            ("promptTokens"@, or_null(field(value@, "prompt_eval_count"@))),
            ("completionTokens"@, or_null(field(value@, "eval_count"@))),
        ]);
    }
    JsonValue::Object(usage)
}

/// The tool calls of the reply's message, copied; none when absent.
fn tool_calls_of(value: &JsonValue) -> (r: Vec<JsonValue>)
    ensures
        (match field_of(field(value@, "message"@), "tool_calls"@) {
            Some(JsonView::Array(calls)) => items_view(r@) == calls,
            _ => r@.len() == 0,
        }),
{
    let mut calls: Vec<JsonValue> = Vec::new();
    if let Some(m) = value.get("message") {
        if let Some(c) = m.get("tool_calls") {
            if let Some(items) = c.as_array() {
                proof {
                    lemma_items_view(items@);
                }
                let mut i: usize = 0;
                while i < items.len()
                    invariant
                        i <= items.len(),
                        calls@.len() == i,
                        forall|j: int| 0 <= j < i ==> #[trigger] json_view(calls@[j]) == json_view(items@[j]),
                    decreases items.len() - i,
                {
                    calls.push(copy_json(&items[i]));
                    i = i + 1;
                }
                proof {
                    lemma_items_view(calls@);
                    assert(items_view(calls@) =~= items_view(items@));
                }
            }
        }
    }
    calls
}

/// The text under `key` when it is a string.
fn text_field(value: &JsonValue, key: &str) -> (r: Option<String>)
    ensures
        (match str_of(field(value@, key@)) {
            Some(t) => r matches Some(s) && s@ == t,
            None => r is None,
        }),
{
    match value.get(key) {
        Some(d) => match d.as_str() {
            Some(t) => Some(t.clone()),
            None => None,
        },
        None => None,
    }
}

/// Reads a reply of the Ollama chat endpoint: the message text, the model
/// that answered (else the one asked), the token counts, the tool calls
/// and why generation stopped.
pub fn chat_output(value: &JsonValue, model: &str) -> (r: ChatOutput)
    ensures
        r.text@ == reply_text(value@),
        r.model@ == (match str_of(field(value@, "model"@)) {
            Some(m) => m,
            None => model@,
        }),
        r.usage matches Some(u) && u@ == reply_usage(value@),
        (match field_of(field(value@, "message"@), "tool_calls"@) {
            Some(JsonView::Array(calls)) => items_view(r.tool_calls@) == calls,
            _ => r.tool_calls@.len() == 0,
        }),
        (match str_of(field(value@, "done_reason"@)) {
            Some(d) => r.finish_reason matches Some(f) && f@ == d,
            None => r.finish_reason is None,
        }),
{
    let text = reply_text_of(value);
    let answered = match text_field(value, "model") {
        Some(t) => t,
        None => owned(model),
    };
    let usage = usage_of(value);
    let calls = tool_calls_of(value);
    let finish = text_field(value, "done_reason");
    ChatOutput { text, model: answered, usage: Some(usage), tool_calls: calls, finish_reason: finish }
}

/// One line of a streamed reply: its piece of text is added to the reply
/// and handed back for display, and the line that reports the end of the
/// reply becomes the final value.
pub fn stream_line(text: &mut String, final_value: &mut JsonValue, line: JsonValue) -> (token: Option<String>)
    ensures
        (match str_of(field_of(field(line@, "message"@), "content"@)) {
            Some(t) => token matches Some(k) && k@ == t && final(text)@ == old(text)@ + t,
            None => token is None && final(text)@ == old(text)@,
        }),
        final(final_value)@ == (if field(line@, "done"@) == Some(JsonView::Bool(true)) {
            line@
        } else {
            old(final_value)@
        }),
{
    let token = match line.get("message") {
        Some(m) => match m.get("content") {
            Some(c) => match c.as_str() {
                Some(t) => Some(t.clone()),
                None => None,
            },
            None => None,
        },
        None => None,
    };
    if let Some(t) = &token {
        push_text(text, t.as_str());
    }
    let done = match line.get("done") {
        Some(d) => d.as_bool() == Some(true),
        None => false,
    };
    if done {
        *final_value = line;
    }
    token
}

/// The model names and sizes listed by a tags reply, skipping entries
/// without a name.
pub open spec fn tagged_models(items: Seq<JsonView>) -> Seq<(Seq<char>, Option<u64>)>
    decreases items.len(),
{
    if items.len() == 0 {
        Seq::empty()
    } else {
        let rest = tagged_models(items.drop_last());
        match str_of(field(items.last(), "name"@)) {
            Some(n) => rest.push(
                (
                    n,
                    match field(items.last(), "size"@) {
                        Some(JsonView::Number(t)) => unsigned_of(t),
                        _ => None,
                    },
                ),
            ),
            None => rest,
        }
    }
}

/// The entries of the `models` array of a tags reply.
pub open spec fn tag_entries(v: JsonView) -> Seq<JsonView> {
    match field(v, "models"@) {
        Some(JsonView::Array(items)) => items,
        _ => Seq::empty(),
    }
}

/// The model described by a named tag entry: a local model whose
/// capabilities are judged from its name.
pub open spec fn tag_model(m: ModelInfo, name: Seq<char>, size: Option<u64>) -> bool {
    &&& m.id@ == name
    &&& m.name@ == name
    &&& views_of(m.capabilities@) == name_capabilities(lowercase(name))
    &&& m.context_length is None
    &&& m.size_bytes == size
    &&& m.local
}

/// The installed models listed by an Ollama tags reply.
pub fn models_from_tags(value: &JsonValue) -> (r: Vec<ModelInfo>)
    ensures
        r@.len() == tagged_models(tag_entries(value@)).len(),
        forall|i: int|
            0 <= i < r@.len() ==> tag_model(
                #[trigger] r@[i],
                tagged_models(tag_entries(value@))[i].0,
                tagged_models(tag_entries(value@))[i].1,
            ),
{
    let mut out: Vec<ModelInfo> = Vec::new();
    let items = match value.get("models") {
        Some(m) => match m.as_array() {
            Some(items) => items,
            None => {
                return out;
            },
        },
        None => {
            return out;
        },
    };
    proof {
        lemma_items_view(items@);
    }
    let ghost all = items_view(items@);
    assert(all == tag_entries(value@));
    let mut i: usize = 0;
    assert(all.subrange(0, 0) =~= Seq::<JsonView>::empty());
    while i < items.len()
        invariant
            i <= items.len(),
            all == items_view(items@),
            all.len() == items@.len(),
            forall|j: int| 0 <= j < items@.len() ==> #[trigger] all[j] == json_view(items@[j]),
            out@.len() == tagged_models(all.subrange(0, i as int)).len(),
            forall|j: int|
                0 <= j < out@.len() ==> tag_model(
                    #[trigger] out@[j],
                    tagged_models(all.subrange(0, i as int))[j].0,
                    tagged_models(all.subrange(0, i as int))[j].1,
                ),
        decreases items.len() - i,
    {
        let ghost prefix = all.subrange(0, i + 1);
        assert(prefix.drop_last() =~= all.subrange(0, i as int));
        assert(prefix.last() == json_view(items@[i as int]));
        let item = &items[i];
        let name = match item.get("name") {
            Some(n) => n.as_str(),
            None => None,
        };
        if let Some(n) = name {
            let size = match item.get("size") {
                Some(z) => z.as_u64(),
                None => None,
            };
            let info = ModelInfo {
                id: n.clone(),
                name: n.clone(),
                capabilities: capabilities_from_name(n.as_str()),
                context_length: None,
                size_bytes: size,
                local: true,
            };
            out.push(info);
        }
        i = i + 1;
    }
    assert(all.subrange(0, items@.len() as int) =~= all);
    out
}

/// The address of the Ollama endpoint: the stored one, else the local
/// default, without trailing slashes.
pub open spec fn ollama_base_spec(stored: Option<Seq<char>>) -> Seq<char> {
    strip_suffix_all(
        match stored {
            Some(s) => s,
            None => "http://127.0.0.1:11434"@,
        },
        "/"@,
    )
}

/// The address requests to Ollama are sent to.
pub fn ollama_base(stored: Option<String>) -> (r: String)
    ensures
        r@ == ollama_base_spec(
            match stored {
                Some(s) => Some(s@),
                None => None,
            },
        ),
{
    proof {
        reveal_strlit("/");
    }
    let raw = match stored {
        Some(s) => s,
        None => owned("http://127.0.0.1:11434"),
    };
    let c = chars_of(raw.as_str());
    let t = strip_suffix_all_exec(&c, "/");
    string_of(&t)
}

/// The endpoint a provider is reached at: for Ollama the address requests
/// go to (the local default when none is configured), for the others the
/// configured address.
pub open spec fn endpoint_of(id: Seq<char>, configured: Seq<char>) -> Seq<char> {
    if id == "ollama"@ {
        ollama_base_spec(if configured.len() == 0 { None } else { Some(configured) })
    } else {
        configured
    }
}

/// The endpoint of a provider with this configured address.
pub fn provider_endpoint(id: &str, configured: &str) -> (r: String)
    ensures
        r@ == endpoint_of(id@, configured@),
{
    let c = chars_of(id);
    if eq_str(&c, "ollama") {
        let given = chars_of(configured);
        if given.len() == 0 {
            ollama_base(None)
        } else {
            ollama_base(Some(owned(configured)))
        }
    } else {
        owned(configured)
    }
}

/// The status of a reachable Ollama installation: the stored model, else
/// the first installed one, and how many models are installed.
pub fn ollama_status(stored_model: Option<String>, models: &Vec<ModelInfo>) -> (r: ProviderStatus)
    ensures
        r.id@ == "ollama"@ && r.label@ == "Ollama"@,
        r.state == CapabilityState::Available,
        (match stored_model {
            Some(m) => r.active_model == Some(m),
            None => if models@.len() > 0 {
                r.active_model matches Some(a) && a@ == models@[0].id@
            } else {
                r.active_model is None
            },
        }),
        views_of(r.capabilities@) == seq![
            "chat"@,
            "streaming"@,
            "vision_model_dependent"@,
            "embeddings_model_dependent"@,
            "tool_calling_model_dependent"@,
        ],
        r.latency_ms is None,
        r.detail matches Some(d) && d@ == decimal(models@.len() as nat) + " model(s) installed"@,
{
    let active = match stored_model {
        Some(m) => Some(m),
        None => if models.len() > 0 {
            Some(models[0].id.clone())
        } else {
            None
        },
    };
    let mut detail = decimal_text(models.len() as u64);
    push_text(&mut detail, " model(s) installed");
    ProviderStatus {
        id: owned("ollama"),
        label: owned("Ollama"),
        state: CapabilityState::Available,
        active_model: active,
        capabilities: ollama_capabilities(),
        latency_ms: None,
        detail: Some(detail),
    }
}

} // verus!
