//! Regular-expression services from the `regex` crate. Each compiles its
//! pattern on the call and reports `None` when the pattern does not compile.

use vstd::prelude::*;

verus! {

/// Name of what `regex::Regex::is_match` answers for `haystack` once `pattern`
/// is compiled by `regex::Regex::new`; `None` when the pattern does not compile.
pub uninterp spec fn regex_match(pattern: Seq<char>, haystack: Seq<char>) -> Option<bool>;

/// Name of the text that `regex::Regex::replace_all` makes of `haystack`,
/// replacing every match of `pattern` by `replacement` (with `$n` group
/// expansion); `None` when the pattern does not compile.
pub uninterp spec fn regex_replace(pattern: Seq<char>, haystack: Seq<char>, replacement: Seq<char>) -> Option<Seq<char>>;

/// Name of the text of group `group` in the leftmost match of `pattern` in
/// `haystack` (`regex::Regex::captures`): `Some(None)` when there is no match
/// or the group did not take part; `None` when the pattern does not compile.
pub uninterp spec fn regex_capture(pattern: Seq<char>, haystack: Seq<char>, group: usize) -> Option<Option<Seq<char>>>;

/// Compiles `pattern` with `regex::Regex::new` and reports whether it
/// matches anywhere in `haystack` (`Regex::is_match`). The contract only
/// names the answer; the regular-expression semantics are not restated.
#[verifier::external_body]
pub(crate) fn regex_is_match(pattern: &str, haystack: &str) -> (r: Option<bool>)
    ensures
        r == regex_match(pattern@, haystack@),
{
    match regex::Regex::new(pattern) {
        Ok(re) => Some(re.is_match(haystack)),
        Err(_) => None,
    }
}

/// Compiles `pattern` with `regex::Regex::new` and replaces all its matches
/// in `haystack` by `replacement` (`Regex::replace_all`). The contract only
/// names the result.
#[verifier::external_body]
pub(crate) fn regex_replace_all(pattern: &str, haystack: &str, replacement: &str) -> (r: Option<String>)
    ensures
        r matches Some(s) ==> regex_replace(pattern@, haystack@, replacement@) == Some(s@),
        r is None ==> regex_replace(pattern@, haystack@, replacement@) is None,
{
    match regex::Regex::new(pattern) {
        Ok(re) => Some(re.replace_all(haystack, replacement).into_owned()),
        Err(_) => None,
    }
}

/// Compiles `pattern` with `regex::Regex::new` and returns the text of one
/// capture group of its leftmost match in `haystack` (`Regex::captures`).
/// The contract only names the result.
#[verifier::external_body]
pub(crate) fn regex_first_capture(pattern: &str, haystack: &str, group: usize) -> (r: Option<Option<String>>)
    ensures
        r matches Some(Some(s)) ==> regex_capture(pattern@, haystack@, group) == Some(Some(s@)),
        r matches Some(None) ==> regex_capture(pattern@, haystack@, group) == Some(None::<Seq<char>>),
        r is None ==> regex_capture(pattern@, haystack@, group) is None,
{
    match regex::Regex::new(pattern) {
        Ok(re) => match re.captures(haystack) {
            Some(found) => match found.get(group) {
                Some(m) => Some(Some(m.as_str().to_string())),
                None => Some(None),
            },
            None => Some(None),
        },
        Err(_) => None,
    }
}

} // verus!
