//! The public API registry: its entries and how a health probe's outcome
//! becomes the state shown for an API.

use vstd::prelude::*;
use crate::error::{ErrorKind, ErrorView, ObError, err_of};
use crate::text::{chars_of, owned, same_chars};

verus! {

/// One public API known to the registry.
pub struct ApiEntry {
    pub api_id: String,
    pub name: String,
    pub category: String,
    pub base_url: String,
    pub authentication: String,
    pub https: bool,
    pub cors: String,
    pub status: String,
    pub last_checked: Option<String>,
    pub rate_limit: String,
    pub documentation_url: String,
    pub adapter_name: Option<String>,
    pub capabilities: Vec<String>,
    pub enabled: bool,
}

/// Seconds under which a successful probe counts as fast.
pub const FAST_PROBE_SECS: u64 = 3;

/// The state of an API after a probe: `reply` is the HTTP status and the
/// whole seconds the probe took, or `None` when no reply came.
pub open spec fn health_state(reply: Option<(u16, u64)>) -> Seq<char> {
    match reply {
        None => "OFFLINE"@,
        Some((code, secs)) => if code == 429 {
            "RATE LIMITED"@
        } else if code == 401 || code == 403 {
            "AUTH REQUIRED"@
        } else if 200 <= code <= 299 && secs < FAST_PROBE_SECS {
            "ONLINE"@
        } else if 200 <= code <= 299 {
            "SLOW"@
        } else {
            "OFFLINE"@
        },
    }
}

/// The state shown for an API after a probe.
pub fn health_label(reply: Option<(u16, u64)>) -> (r: String)
    ensures
        r@ == health_state(reply),
{
    match reply {
        None => owned("OFFLINE"),
        Some((code, secs)) => if code == 429 {
            owned("RATE LIMITED")
        } else if code == 401 || code == 403 {
            owned("AUTH REQUIRED")
        } else if 200 <= code && code <= 299 && secs < FAST_PROBE_SECS {
            owned("ONLINE")
        } else if 200 <= code && code <= 299 {
            owned("SLOW")
        } else {
            owned("OFFLINE")
        },
    }
}

/// The position of the entry with this identifier.
pub fn find_entry(entries: &Vec<ApiEntry>, api_id: &str) -> (r: Result<usize, ObError>)
    ensures
        r matches Ok(k) ==> k < entries@.len() && entries@[k as int].api_id@ == api_id@ && forall|j: int|
            0 <= j < k ==> entries@[j].api_id@ != api_id@,
        r is Err ==> (forall|j: int| 0 <= j < entries@.len() ==> entries@[j].api_id@ != api_id@)
            && r->Err_0@ == err_of(ErrorKind::Validation, "API entry was not found"@),
{
    let want = chars_of(api_id);
    let mut i: usize = 0;
    while i < entries.len()
        invariant
            i <= entries.len(),
            want@ == api_id@,
            forall|j: int| 0 <= j < i ==> entries@[j].api_id@ != api_id@,
        decreases entries.len() - i,
    {
        let have = chars_of(entries[i].api_id.as_str());
        if same_chars(&have, &want) {
            return Ok(i);
        }
        i = i + 1;
    }
    Err(ObError::Validation(owned("API entry was not found")))
}

/// Only a successful reply within the time limit reads `ONLINE`; a reply
/// that never came reads `OFFLINE`.
pub proof fn law_online_means_fast_success(reply: Option<(u16, u64)>)
    ensures
        health_state(reply) == "ONLINE"@ ==> (reply matches Some((code, secs)) && 200 <= code <= 299
            && secs < FAST_PROBE_SECS),
        reply is None ==> health_state(reply) == "OFFLINE"@,
{
    reveal_strlit("ONLINE");
    reveal_strlit("OFFLINE");
    reveal_strlit("SLOW");
    reveal_strlit("RATE LIMITED");
    reveal_strlit("AUTH REQUIRED");
    assert("ONLINE"@ != "OFFLINE"@) by { assert("ONLINE"@[1] != "OFFLINE"@[1]); }
    assert("ONLINE"@ != "SLOW"@) by { assert("ONLINE"@.len() != "SLOW"@.len()); }
    assert("ONLINE"@ != "RATE LIMITED"@) by { assert("ONLINE"@.len() != "RATE LIMITED"@.len()); }
    assert("ONLINE"@ != "AUTH REQUIRED"@) by { assert("ONLINE"@.len() != "AUTH REQUIRED"@.len()); }
}

} // verus!
