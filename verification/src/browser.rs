//! Browser automation requests: the actions a request may hold, the checks
//! made before the browser runner starts, and the bounds on its running time.

use vstd::prelude::*;
use crate::error::{ErrorKind, ErrorView, ObError, err_of, res_view};
use crate::json::JsonValue;
use crate::text::owned;
use crate::web::{check_web_url, url_scheme, web_url_verdict};

verus! {

/// Shortest time a browser workflow is given, in milliseconds.
pub const MIN_BROWSER_TIMEOUT_MS: u64 = 1_000;

/// Longest time a browser workflow is given, in milliseconds.
pub const MAX_BROWSER_TIMEOUT_MS: u64 = 300_000;

/// One step of a browser workflow.
#[allow(inconsistent_fields)]
pub enum BrowserAction {
    Navigate { url: String },
    Read { selector: Option<String> },
    Click { selector: String, expected_text: Option<String> },
    Fill { selector: String, value: String, secret: bool },
    Press { key: String },
    WaitFor { selector: String },
    Screenshot { path: String },
    Download { selector: String, directory: String },
}

/// A browser workflow to run in a dedicated profile.
pub struct BrowserRequest {
    pub profile_dir: String,
    pub headless: bool,
    pub actions: Vec<BrowserAction>,
    pub timeout_ms: u64,
}

/// What the browser runner reports.
pub struct BrowserResult {
    pub state: String,
    pub final_url: Option<String>,
    pub title: Option<String>,
    pub text: Option<String>,
    pub screenshot: Option<String>,
    pub download: Option<String>,
    pub verification: JsonValue,
    pub error: Option<String>,
}

/// The verdict on one navigation address.
pub open spec fn navigation_verdict(url: Seq<char>) -> Result<(), ErrorView> {
    web_url_verdict(url, "Browser URL is invalid"@, "Only HTTP and HTTPS navigation is allowed"@)
}

/// The verdict on a workflow's actions: the first navigation to an invalid
/// or non-web address refuses the workflow.
pub open spec fn actions_verdict(actions: Seq<BrowserAction>) -> Result<(), ErrorView>
    decreases actions.len(),
{
    if actions.len() == 0 {
        Ok(())
    } else {
        match actions[0] {
            BrowserAction::Navigate { url } => match navigation_verdict(url@) {
                Err(e) => Err(e),
                Ok(()) => actions_verdict(actions.subrange(1, actions.len() as int)),
            },
            _ => actions_verdict(actions.subrange(1, actions.len() as int)),
        }
    }
}

/// The checks before the runner starts: the runner must be bundled, and
/// every navigation must go to an `http` or `https` address.
pub open spec fn browser_precheck_verdict(runner_exists: bool, actions: Seq<BrowserAction>) -> Result<(), ErrorView> {
    if !runner_exists {
        Err(err_of(ErrorKind::RequiresConfiguration, "Playwright runner was not bundled"@))
    } else {
        actions_verdict(actions)
    }
}

/// Checks a workflow before the browser runner starts.
pub fn browser_precheck(runner_exists: bool, request: &BrowserRequest) -> (r: Result<(), ObError>)
    ensures
        res_view(r) == browser_precheck_verdict(runner_exists, request.actions@),
{
    if !runner_exists {
        return Err(ObError::RequiresConfiguration(owned("Playwright runner was not bundled")));
    }
    let mut i: usize = 0;
    assert(request.actions@.subrange(0, request.actions@.len() as int) =~= request.actions@);
    while i < request.actions.len()
        invariant
            i <= request.actions@.len(),
            runner_exists,
            actions_verdict(request.actions@) == actions_verdict(
                request.actions@.subrange(i as int, request.actions@.len() as int),
            ),
        decreases request.actions.len() - i,
    {
        let ghost rest = request.actions@.subrange(i as int, request.actions@.len() as int);
        assert(rest[0] == request.actions@[i as int]);
        assert(rest.subrange(1, rest.len() as int) =~= request.actions@.subrange(i + 1, request.actions@.len() as int));
        match &request.actions[i] {
            BrowserAction::Navigate { url } => {
                match check_web_url(url.as_str(), "Browser URL is invalid", "Only HTTP and HTTPS navigation is allowed") {
                    Err(e) => return Err(e),
                    Ok(()) => {},
                }
            },
            _ => {},
        }
        i = i + 1;
    }
    Ok(())
}

/// The time a workflow is given: its requested time, kept between one
/// second and five minutes.
pub open spec fn browser_time(requested: u64) -> u64 {
    if requested < MIN_BROWSER_TIMEOUT_MS {
        MIN_BROWSER_TIMEOUT_MS
    } else if requested > MAX_BROWSER_TIMEOUT_MS {
        MAX_BROWSER_TIMEOUT_MS
    } else {
        requested
    }
}

/// The time a workflow is given (see `browser_time`).
pub fn browser_timeout_ms(requested: u64) -> (r: u64)
    ensures
        r == browser_time(requested),
{
    if requested < MIN_BROWSER_TIMEOUT_MS {
        MIN_BROWSER_TIMEOUT_MS
    } else if requested > MAX_BROWSER_TIMEOUT_MS {
        MAX_BROWSER_TIMEOUT_MS
    } else {
        requested
    }
}

/// The error for a runner that exited with a failure, with its error output.
pub fn runner_failed(stderr: &str) -> (e: ObError)
    ensures
        e@ == err_of(ErrorKind::Unavailable, "Browser runner failed: "@ + stderr@),
{
    ObError::Unavailable(crate::text::concat("Browser runner failed: ", stderr))
}

/// A workflow never runs for less than a second or more than five minutes.
pub proof fn law_browser_time_bounded(requested: u64)
    ensures
        MIN_BROWSER_TIMEOUT_MS <= browser_time(requested) <= MAX_BROWSER_TIMEOUT_MS,
{
}

/// A workflow that passes the checks navigates only to `http` and `https`
/// addresses: every navigation step's URL parses with one of those schemes.
pub proof fn law_browser_navigates_only_to_the_web(actions: Seq<BrowserAction>)
    ensures
        actions_verdict(actions) is Ok ==> forall|i: int|
            0 <= i < actions.len() ==> (#[trigger] actions[i] matches BrowserAction::Navigate { url }
                ==> (url_scheme(url@) == Some("http"@) || url_scheme(url@) == Some("https"@))),
    decreases actions.len(),
{
    if actions.len() > 0 {
        let rest = actions.subrange(1, actions.len() as int);
        law_browser_navigates_only_to_the_web(rest);
        if actions_verdict(actions) is Ok {
            assert forall|i: int| 0 <= i < actions.len() implies (#[trigger] actions[i] matches BrowserAction::Navigate { url }
                ==> (url_scheme(url@) == Some("http"@) || url_scheme(url@) == Some("https"@))) by {
                if i > 0 {
                    assert(actions[i] == rest[i - 1]);
                }
            }
        }
    }
}

} // verus!
