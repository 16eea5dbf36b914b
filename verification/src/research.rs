//! The research reader's text processing: which addresses it reads, the size
//! limit, the title, the visible text, the key finding and the content hash
//! of a fetched page.

use vstd::prelude::*;
use crate::digest::{sha256_hex, sha256_of};
use crate::error::{ErrorKind, ErrorView, ObError, err_of, res_view};
use crate::patterns::{regex_capture, regex_first_capture, regex_replace, regex_replace_all};
use crate::text::{chars_of, hex_of, owned, replace_str, replaced, string_of, trim_chars, trimmed};
use crate::web::{check_web_url, web_url_verdict};
use vstd::string::StringSliceAdditionalSpecFns;

verus! {

/// Largest page accepted, in bytes.
pub const MAX_PAGE_BYTES: usize = 10_000_000;

/// Most characters of visible text kept.
pub const MAX_TEXT_CHARS: usize = 1_000_000;

/// Characters of visible text quoted as the key finding.
pub const FINDING_CHARS: usize = 420;

/// The page title.
pub const TITLE_PATTERN: &'static str = r"(?is)<title[^>]*>(.*?)</title>";

/// Scripts, styles, navigation and footers with their content, and every other tag.
pub const MARKUP_PATTERN: &'static str = r"(?is)<(script|style|nav|footer)[^>]*>.*?</(script|style|nav|footer)>|<[^>]+>";

/// Runs of white space.
pub const SPACE_RUN_PATTERN: &'static str = r"\s+";

/// The text with the five common HTML entities decoded, one after the other:
/// `&amp;`, `&lt;`, `&gt;`, `&quot;` and `&#39;`.
pub open spec fn decoded(s: Seq<char>) -> Seq<char> {
    replaced(
        replaced(
            replaced(replaced(replaced(s, "&amp;"@, "&"@), "&lt;"@, "<"@), "&gt;"@, ">"@),
            "&quot;"@,
            "\""@,
        ),
        "&#39;"@,
        "'"@,
    )
}

/// Decodes the common HTML entities of a text.
pub fn decode(value: &str) -> (r: String)
    ensures
        r@ == decoded(value@),
{
    proof {
        reveal_strlit("&amp;");
        reveal_strlit("&lt;");
        reveal_strlit("&gt;");
        reveal_strlit("&quot;");
        reveal_strlit("&#39;");
    }
    let s = chars_of(value);
    let s = replace_str(&s, "&amp;", "&");
    let s = replace_str(&s, "&lt;", "<");
    let s = replace_str(&s, "&gt;", ">");
    let s = replace_str(&s, "&quot;", "\"");
    let s = replace_str(&s, "&#39;", "'");
    string_of(&s)
}

/// Replacing in a text that starts with a character where no match begins
/// keeps that character and replaces in the rest.
proof fn lemma_replaced_keeps_head(c: char, s: Seq<char>, from: Seq<char>, to: Seq<char>)
    requires
        from.len() >= 2,
        c != from[0] || s.len() == 0 || s[0] != from[1],
    ensures
        replaced(seq![c] + s, from, to) == seq![c] + replaced(s, from, to),
{
    let x = seq![c] + s;
    if x.len() >= from.len() {
        assert(x.subrange(0, from.len() as int)[0] == c);
        if c == from[0] {
            assert(x.subrange(0, from.len() as int)[1] == s[0]);
        }
        assert(x.subrange(0, from.len() as int) != from);
        assert(x.subrange(1, x.len() as int) =~= s);
    }
}

/// Replacing in a text that starts with a match.
proof fn lemma_replaced_match(s: Seq<char>, from: Seq<char>, to: Seq<char>)
    requires
        from.len() > 0,
    ensures
        replaced(from + s, from, to) == to + replaced(s, from, to),
{
    let x = from + s;
    assert(x.subrange(0, from.len() as int) =~= from);
    assert(x.subrange(from.len() as int, x.len() as int) =~= s);
}

/// Replacing in a text that starts with a prefix in which no match begins.
proof fn lemma_replaced_keeps_prefix(p: Seq<char>, s: Seq<char>, from: Seq<char>, to: Seq<char>)
    requires
        from.len() >= 2,
        forall|i: int| 0 <= i < p.len() ==> #[trigger] p[i] != from[0] || (i + 1 < p.len() && p[i + 1] != from[1]),
    ensures
        replaced(p + s, from, to) == p + replaced(s, from, to),
    decreases p.len(),
{
    if p.len() == 0 {
        assert(p + s =~= s);
        assert(p + replaced(s, from, to) =~= replaced(s, from, to));
    } else {
        let q = p.subrange(1, p.len() as int);
        assert forall|i: int| 0 <= i < q.len() implies #[trigger] q[i] != from[0] || (i + 1 < q.len() && q[i + 1] != from[1]) by {
            assert(q[i] == p[i + 1]);
            if i + 1 < q.len() {
                assert(q[i + 1] == p[i + 2]);
            }
        }
        lemma_replaced_keeps_prefix(q, s, from, to);
        assert(p[0] != from[0] || (1 < p.len() && p[1] != from[1]));
        if p.len() > 1 {
            assert((q + s)[0] == p[1]);
        }
        lemma_replaced_keeps_head(p[0], q + s, from, to);
        assert(p + s =~= seq![p[0]] + (q + s));
        assert(p + replaced(s, from, to) =~= seq![p[0]] + (q + replaced(s, from, to)));
    }
}

/// The first character of a replacement's result.
proof fn lemma_replaced_head(s: Seq<char>, from: Seq<char>, to: Seq<char>)
    requires
        s.len() > 0,
        from.len() >= 2,
        to.len() > 0,
    ensures
        replaced(s, from, to).len() > 0,
        replaced(s, from, to)[0] == s[0] || replaced(s, from, to)[0] == to[0],
{
    if s.len() >= from.len() && s.subrange(0, from.len() as int) == from {
    } else if s.len() >= from.len() {
    }
}

/// Decoding reads a text from left to right: a character other than `&`
/// stands for itself; `&lt;`, `&gt;`, `&quot;` and `&#39;` stand for `<`,
/// `>`, `"` and `'`; `&amp;` stands for `&`, unless what follows it
/// begins another entity (`lt;`, `gt;`, `quot;` or `#39;`), which is then
/// decoded as well; the empty text stays empty.
pub proof fn law_decoding_reads_entities(c: char, s: Seq<char>)
    ensures
        decoded(Seq::empty()) == Seq::<char>::empty(),
        c != '&' ==> decoded(seq![c] + s) == seq![c] + decoded(s),
        decoded("&lt;"@ + s) == "<"@ + decoded(s),
        decoded("&gt;"@ + s) == ">"@ + decoded(s),
        decoded("&quot;"@ + s) == "\""@ + decoded(s),
        decoded("&#39;"@ + s) == "'"@ + decoded(s),
        s.len() == 0 || (s[0] != 'l' && s[0] != 'g' && s[0] != 'q' && s[0] != '#') ==> decoded("&amp;"@ + s)
            == "&"@ + decoded(s),
{
    reveal_strlit("&amp;");
    reveal_strlit("&lt;");
    reveal_strlit("&gt;");
    reveal_strlit("&quot;");
    reveal_strlit("&#39;");
    reveal_strlit("&");
    reveal_strlit("<");
    reveal_strlit(">");
    reveal_strlit("\"");
    reveal_strlit("'");
    let amp = "&amp;"@;
    let lt = "&lt;"@;
    let gt = "&gt;"@;
    let quot = "&quot;"@;
    let apos = "&#39;"@;
    let s1 = replaced(s, amp, "&"@);
    let s2 = replaced(s1, lt, "<"@);
    let s3 = replaced(s2, gt, ">"@);
    let s4 = replaced(s3, quot, "\""@);
    let s5 = replaced(s4, apos, "'"@);
    assert(decoded(s) == s5);
    if c != '&' {
        lemma_replaced_keeps_head(c, s, amp, "&"@);
        lemma_replaced_keeps_head(c, s1, lt, "<"@);
        lemma_replaced_keeps_head(c, s2, gt, ">"@);
        lemma_replaced_keeps_head(c, s3, quot, "\""@);
        lemma_replaced_keeps_head(c, s4, apos, "'"@);
    }
    // `&lt;`
    lemma_replaced_keeps_prefix(lt, s, amp, "&"@);
    lemma_replaced_match(s1, lt, "<"@);
    lemma_replaced_keeps_prefix("<"@, s2, gt, ">"@);
    lemma_replaced_keeps_prefix("<"@, s3, quot, "\""@);
    lemma_replaced_keeps_prefix("<"@, s4, apos, "'"@);
    // `&gt;`
    lemma_replaced_keeps_prefix(gt, s, amp, "&"@);
    lemma_replaced_keeps_prefix(gt, s1, lt, "<"@);
    lemma_replaced_match(s2, gt, ">"@);
    lemma_replaced_keeps_prefix(">"@, s3, quot, "\""@);
    lemma_replaced_keeps_prefix(">"@, s4, apos, "'"@);
    // `&quot;`
    lemma_replaced_keeps_prefix(quot, s, amp, "&"@);
    lemma_replaced_keeps_prefix(quot, s1, lt, "<"@);
    lemma_replaced_keeps_prefix(quot, s2, gt, ">"@);
    lemma_replaced_match(s3, quot, "\""@);
    lemma_replaced_keeps_prefix("\""@, s4, apos, "'"@);
    // `&#39;`
    lemma_replaced_keeps_prefix(apos, s, amp, "&"@);
    lemma_replaced_keeps_prefix(apos, s1, lt, "<"@);
    lemma_replaced_keeps_prefix(apos, s2, gt, ">"@);
    lemma_replaced_keeps_prefix(apos, s3, quot, "\""@);
    lemma_replaced_match(s4, apos, "'"@);
    // `&amp;`
    if s.len() == 0 || (s[0] != 'l' && s[0] != 'g' && s[0] != 'q' && s[0] != '#') {
        lemma_replaced_match(s, amp, "&"@);
        if s.len() > 0 {
            lemma_replaced_head(s, amp, "&"@);
            lemma_replaced_head(s1, lt, "<"@);
            lemma_replaced_head(s2, gt, ">"@);
            lemma_replaced_head(s3, quot, "\""@);
        }
        lemma_replaced_keeps_head('&', s1, lt, "<"@);
        lemma_replaced_keeps_head('&', s2, gt, ">"@);
        lemma_replaced_keeps_head('&', s3, quot, "\""@);
        lemma_replaced_keeps_head('&', s4, apos, "'"@);
        assert("&"@ == seq!['&']);
    }
    assert(decoded(Seq::empty()) =~= Seq::<char>::empty());
}

/// The first `n` characters of a text, or all of it when shorter.
pub open spec fn first_chars(s: Seq<char>, n: nat) -> Seq<char> {
    if s.len() <= n {
        s
    } else {
        s.subrange(0, n as int)
    }
}

/// The first `n` characters of a sequence.
pub fn take_chars(v: &Vec<char>, n: usize) -> (r: Vec<char>)
    ensures
        r@ == first_chars(v@, n as nat),
{
    let m = if v.len() <= n {
        v.len()
    } else {
        n
    };
    let mut out: Vec<char> = Vec::new();
    let mut i: usize = 0;
    while i < m
        invariant
            m <= v.len(),
            i <= m,
            out@ == v@.subrange(0, i as int),
        decreases m - i,
    {
        out.push(v[i]);
        assert(v@.subrange(0, i + 1) =~= v@.subrange(0, i as int).push(v@[i as int]));
        i = i + 1;
    }
    assert(v.len() <= n ==> v@.subrange(0, m as int) =~= v@);
    out
}

/// Checks the address given to the research reader.
pub fn check_research_url(url: &str) -> (r: Result<(), ObError>)
    ensures
        res_view(r) == web_url_verdict(
            url@,
            "Research URL is invalid"@,
            "Research reader allows only HTTP and HTTPS"@,
        ),
{
    check_web_url(url, "Research URL is invalid", "Research reader allows only HTTP and HTTPS")
}

/// What the reader keeps of a page.
pub struct PageDigest {
    pub title: String,
    pub url: String,
    pub key_finding: String,
    pub content_hash: String,
    pub text: String,
}

/// The mathematical value of a page digest: title, url, finding, hash, text.
pub struct PageView {
    pub title: Seq<char>,
    pub url: Seq<char>,
    pub key_finding: Seq<char>,
    pub content_hash: Seq<char>,
    pub text: Seq<char>,
}

/// The visible text of a page once its markup is replaced by spaces: entities
/// decoded, runs of white space collapsed, trimmed and cut to the limit.
pub open spec fn visible_text(stripped: Seq<char>) -> Option<Seq<char>> {
    match regex_replace(SPACE_RUN_PATTERN@, decoded(stripped), " "@) {
        Some(collapsed) => Some(first_chars(trimmed(collapsed), MAX_TEXT_CHARS as nat)),
        None => None,
    }
}

/// How the reader digests a page fetched from `url`: pages over the size
/// limit are refused; the title is the decoded first `<title>` element, or
/// the address when there is none; the text is the visible text; the key
/// finding its first characters; the hash the SHA-256 of the page's bytes.
pub open spec fn page_digest(url: Seq<char>, html: &str) -> Result<PageView, ErrorView> {
    if html.len() > MAX_PAGE_BYTES {
        Err(err_of(ErrorKind::Validation, "Research source exceeds the 10 MB text limit"@))
    } else {
        match (
            regex_capture(TITLE_PATTERN@, html@, 1),
            regex_replace(MARKUP_PATTERN@, html@, " "@),
        ) {
            (Some(title), Some(stripped)) => match visible_text(stripped) {
                Some(text) => Ok(
                    PageView {
                        title: match title {
                            Some(t) => decoded(t),
                            None => url,
                        },
                        url,
                        key_finding: first_chars(text, FINDING_CHARS as nat),
                        content_hash: hex_of(sha256_of(html.spec_bytes())),
                        text,
                    },
                ),
                None => Err(err_of(ErrorKind::Internal, "Research text pattern is invalid"@)),
            },
            _ => Err(err_of(ErrorKind::Internal, "Research text pattern is invalid"@)),
        }
    }
}

/// The view of a digest.
pub open spec fn digest_view(d: PageDigest) -> PageView {
    PageView {
        title: d.title@,
        url: d.url@,
        key_finding: d.key_finding@,
        content_hash: d.content_hash@,
        text: d.text@,
    }
}

/// The view of a digest result.
pub open spec fn digest_result_view(r: Result<PageDigest, ObError>) -> Result<PageView, ErrorView> {
    match r {
        Ok(d) => Ok(digest_view(d)),
        Err(e) => Err(e@),
    }
}

/// Digests a page fetched from `url` (the address after redirects).
pub fn digest_page(url: &str, html: &str) -> (r: Result<PageDigest, ObError>)
    ensures
        digest_result_view(r) == page_digest(url@, html),
{
    if html.len() > MAX_PAGE_BYTES {
        return Err(ObError::Validation(owned("Research source exceeds the 10 MB text limit")));
    }
    let title = regex_first_capture(TITLE_PATTERN, html, 1);
    let stripped = regex_replace_all(MARKUP_PATTERN, html, " ");
    match (title, stripped) {
        (Some(title), Some(stripped)) => {
            let plain = decode(stripped.as_str());
            match regex_replace_all(SPACE_RUN_PATTERN, plain.as_str(), " ") {
                Some(collapsed) => {
                    let c = chars_of(collapsed.as_str());
                    let t = trim_chars(&c);
                    let text = take_chars(&t, MAX_TEXT_CHARS);
                    let finding = take_chars(&text, FINDING_CHARS);
                    let title_text = match title {
                        Some(t) => decode(t.as_str()),
                        None => owned(url),
                    };
                    Ok(
                        PageDigest {
                            title: title_text,
                            url: owned(url),
                            key_finding: string_of(&finding),
                            content_hash: sha256_hex(html.as_bytes()),
                            text: string_of(&text),
                        },
                    )
                },
                None => Err(ObError::Internal(owned("Research text pattern is invalid"))),
            }
        },
        _ => Err(ObError::Internal(owned("Research text pattern is invalid"))),
    }
}

/// The key finding is never longer than the quoted length, and is the start of the text.
pub proof fn law_finding_is_prefix_of_text(text: Seq<char>)
    ensures
        first_chars(text, FINDING_CHARS as nat).len() <= FINDING_CHARS,
        first_chars(text, FINDING_CHARS as nat) == text.subrange(
            0,
            first_chars(text, FINDING_CHARS as nat).len() as int,
        ),
{
    assert(text.subrange(0, text.len() as int) =~= text);
}

} // verus!
