//! URL checks: only web addresses with the `http` or `https` scheme are
//! followed.

use vstd::prelude::*;
use crate::error::{ErrorKind, ErrorView, ObError, err_of, res_view};
use crate::text::{chars_of, eq_str, owned, starts_with, starts_with_exec};

verus! {

/// Name of the scheme that `url::Url::parse` reads from a text; `None` when
/// the text is not a valid absolute URL.
pub uninterp spec fn url_scheme(text: Seq<char>) -> Option<Seq<char>>;

/// Parses a URL with `url::Url::parse` and returns its scheme
/// (`Url::scheme`). The contract only names the scheme.
#[verifier::external_body]
pub(crate) fn parse_url_scheme(text: &str) -> (r: Option<String>)
    ensures
        r matches Some(s) ==> url_scheme(text@) == Some(s@),
        r is None ==> url_scheme(text@) is None,
{
    match url::Url::parse(text) {
        Ok(u) => Some(u.scheme().to_string()),
        Err(_) => None,
    }
}

/// The verdict on a URL: invalid when it does not parse, blocked when its
/// scheme is neither `http` nor `https`, accepted otherwise.
pub open spec fn web_url_verdict(text: Seq<char>, invalid: Seq<char>, blocked: Seq<char>) -> Result<(), ErrorView> {
    match url_scheme(text) {
        None => Err(err_of(ErrorKind::Validation, invalid)),
        Some(s) => if s == "http"@ || s == "https"@ {
            Ok(())
        } else {
            Err(err_of(ErrorKind::SecurityBlocked, blocked))
        },
    }
}

/// Accepts only valid `http` and `https` URLs, with the given error texts.
pub fn check_web_url(text: &str, invalid: &str, blocked: &str) -> (r: Result<(), ObError>)
    ensures
        res_view(r) == web_url_verdict(text@, invalid@, blocked@),
{
    match parse_url_scheme(text) {
        None => Err(ObError::Validation(owned(invalid))),
        Some(s) => {
            let c = chars_of(s.as_str());
            if eq_str(&c, "http") || eq_str(&c, "https") {
                Ok(())
            } else {
                Err(ObError::SecurityBlocked(owned(blocked)))
            }
        },
    }
}

/// Name of the host that `url::Url::parse` reads from a text
/// (`Url::host_str`: IPv4 hosts in dotted decimal, IPv6 hosts in brackets);
/// `None` when the text is not a valid URL or has no host.
pub uninterp spec fn url_host(text: Seq<char>) -> Option<Seq<char>>;

/// Parses a URL with `url::Url::parse` and returns its host
/// (`Url::host_str`). The contract only names the host.
#[verifier::external_body]
pub(crate) fn parse_url_host(text: &str) -> (r: Option<String>)
    ensures
        r matches Some(h) ==> url_host(text@) == Some(h@),
        r is None ==> url_host(text@) is None,
{
    match url::Url::parse(text) {
        Ok(u) => u.host_str().map(|h| h.to_string()),
        Err(_) => None,
    }
}

/// A dotted-decimal host in `127.0.0.0/8`: it starts with `127.` and holds
/// only digits and dots (the parser writes IPv4 hosts this way, and refuses
/// a host of digits and dots that is not an IPv4 address).
pub open spec fn ipv4_loopback(h: Seq<char>) -> bool {
    &&& starts_with(h, "127."@)
    &&& forall|i: int| 0 <= i < h.len() ==> (#[trigger] h[i] == '.' || ('0' <= h[i] && h[i] <= '9'))
}

/// A host on this machine: `localhost`, an IPv4 loopback address or `[::1]`.
pub open spec fn loopback_host(h: Seq<char>) -> bool {
    h == "localhost"@ || h == "[::1]"@ || ipv4_loopback(h)
}

/// The address points at this machine.
pub open spec fn is_loopback_url(text: Seq<char>) -> bool {
    match url_host(text) {
        Some(h) => loopback_host(h),
        None => false,
    }
}

/// Whether an endpoint address points at this machine.
pub fn endpoint_is_loopback(text: &str) -> (r: bool)
    ensures
        r == is_loopback_url(text@),
{
    proof {
        reveal_strlit("127.");
    }
    match parse_url_host(text) {
        None => false,
        Some(h) => {
            let c = chars_of(h.as_str());
            if eq_str(&c, "localhost") || eq_str(&c, "[::1]") {
                return true;
            }
            let prefix = chars_of("127.");
            if !starts_with_exec(&c, &prefix) {
                return false;
            }
            let mut i: usize = 0;
            while i < c.len()
                invariant
                    i <= c.len(),
                    url_host(text@) == Some(c@),
                    c@ != "localhost"@ && c@ != "[::1]"@,
                    starts_with(c@, "127."@),
                    forall|j: int| 0 <= j < i ==> (#[trigger] c@[j] == '.' || ('0' <= c@[j] && c@[j] <= '9')),
                decreases c.len() - i,
            {
                let ch = c[i];
                if !(ch == '.' || ('0' <= ch && ch <= '9')) {
                    return false;
                }
                i = i + 1;
            }
            true
        },
    }
}

} // verus!
