//! GitHub API access: which paths may be requested and where they lead.

use vstd::prelude::*;
use crate::error::{ErrorKind, ErrorView, ObError, err_of};
use crate::json::JsonValue;
use crate::text::{chars_of, concat, contains, contains_str, occurs_at, owned, starts_with};

verus! {

/// The GitHub REST API base address.
pub const GITHUB_API_BASE: &'static str = "https://api.github.com";

/// A GitHub API reply with where and when it was read.
pub struct GitHubResponse {
    pub endpoint: String,
    pub status: u16,
    pub retrieved_at: String,
    pub data: JsonValue,
}

/// The endpoint for an API path: absolute paths without `..` are appended
/// to the API base; anything else is refused.
pub open spec fn endpoint_for(path: Seq<char>) -> Result<Seq<char>, ErrorView> {
    if !starts_with(path, "/"@) || contains(path, ".."@) {
        Err(err_of(ErrorKind::Validation, "GitHub API path is invalid"@))
    } else {
        Ok(GITHUB_API_BASE@ + path)
    }
}

/// The endpoint for an API path.
pub fn github_endpoint(path: &str) -> (r: Result<String, ObError>)
    ensures
        match r {
            Ok(e) => endpoint_for(path@) == Ok::<Seq<char>, ErrorView>(e@),
            Err(e) => endpoint_for(path@) == Err::<Seq<char>, ErrorView>(e@),
        },
{
    let p = chars_of(path);
    let slash = chars_of("/");
    if !crate::text::starts_with_exec(&p, &slash) || contains_str(&p, "..") {
        return Err(ObError::Validation(owned("GitHub API path is invalid")));
    }
    Ok(concat(GITHUB_API_BASE, path))
}

/// Every accepted request goes to the GitHub API host, and its address holds no `..`.
pub proof fn law_github_requests_stay_on_api_host(path: Seq<char>)
    ensures
        endpoint_for(path) matches Ok(e) ==> starts_with(e, "https://api.github.com/"@) && !contains(
            e,
            ".."@,
        ),
{
    reveal_strlit("https://api.github.com");
    reveal_strlit("https://api.github.com/");
    reveal_strlit("/");
    reveal_strlit("..");
    if let Ok(e) = endpoint_for(path) {
        let base = GITHUB_API_BASE@;
        assert(path[0] == '/') by {
            assert(path.subrange(0, 1) == "/"@);
            assert(path.subrange(0, 1)[0] == path[0]);
        }
        assert(e.subrange(0, 23) =~= "https://api.github.com/"@);
        assert forall|i: int| !occurs_at(e, ".."@, i) by {
            if occurs_at(e, ".."@, i) {
                let w = e.subrange(i, i + 2);
                assert(w[0] == '.' && w[1] == '.');
                assert(e[i] == '.' && e[i + 1] == '.');
                if i + 2 <= 22 {
                    assert(e[i] == base[i]);
                    assert(e[i + 1] == base[i + 1]);
                    assert(base =~= seq!['h', 't', 't', 'p', 's', ':', '/', '/', 'a', 'p', 'i', '.', 'g', 'i', 't', 'h', 'u', 'b', '.', 'c', 'o', 'm']);
                } else if i == 21 {
                    assert(e[22] == path[0]);
                } else {
                    assert(occurs_at(path, ".."@, i - 22)) by {
                        assert(path.subrange(i - 22, i - 20) =~= e.subrange(i, i + 2));
                    }
                }
            }
        }
    }
}

} // verus!
