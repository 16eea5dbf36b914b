//! The Security Gate: which actions run, which wait for the user's approval
//! and which are refused; the classification of terminal commands; the
//! containment of file paths in approved folders; and the resolution of
//! approvals.

use vstd::prelude::*;
use crate::error::{ErrorKind, ErrorView, ObError, err_of, res_view};
use crate::audit::redacted;
use crate::json::JsonValue;
use crate::models::{ApprovalRequest, Instant, RiskLevel, risk_label, risk_label_spec, risk_rank};
use crate::patterns::{regex_is_match, regex_match};
use crate::text::{chars_of, owned};

verus! {

/// Seconds for which an approval request stays valid.
pub const APPROVAL_LIFETIME_SECS: i64 = 300;

/// Longest terminal command accepted, in bytes.
pub const MAX_COMMAND_BYTES: usize = 8000;

/// Commands that format disks, change boot or security configuration,
/// delete recursively, change credentials or run downloaded code.
pub const TERMINAL_CRITICAL_PATTERN: &'static str = r"(?i)(format\s+[a-z]:|diskpart|bcdedit|cipher\s+/w|remove-item\s+.+-recurse|del\s+/[sq]|shutdown\s+/[srt]|reg\s+(delete|add)|set-mppreference|net\s+user|invoke-expression|downloadstring)";

/// Commands that delete files, stop processes or discard Git work.
pub const TERMINAL_DESTRUCTIVE_PATTERN: &'static str = r"(?i)(remove-item|rmdir|\bdel\b|stop-process|taskkill|git\s+reset\s+--hard|git\s+clean\s+-[a-z]*f)";

/// What the security policy decides for one action.
pub enum GateDecision {
    Allow,
    Approval(ApprovalRequest),
    Deny(String),
}

/// The kind of a gate decision, without its payload.
#[derive(Clone, Copy, Debug, PartialEq, Eq, Structural)]
pub enum GateKind {
    Allow,
    Approval,
    Deny,
}

/// The kind of a decision.
pub open spec fn decision_kind(d: GateDecision) -> GateKind {
    match d {
        GateDecision::Allow => GateKind::Allow,
        GateDecision::Approval(_) => GateKind::Approval,
        GateDecision::Deny(_) => GateKind::Deny,
    }
}

/// Whether an action of this risk needs the user's approval at this autonomy level:
/// destructive and critical actions always do, sensitive ones below level 2.
pub open spec fn needs_approval(risk: RiskLevel, autonomy_level: u8) -> bool {
    ||| risk == RiskLevel::Destructive
    ||| risk == RiskLevel::Critical
    ||| (risk == RiskLevel::Sensitive && autonomy_level < 2)
}

/// The security policy: everything is refused while paused; otherwise an
/// action runs unless it needs approval.
pub open spec fn gate_policy(paused: bool, autonomy_level: u8, risk: RiskLevel) -> GateKind {
    if paused {
        GateKind::Deny
    } else if needs_approval(risk, autonomy_level) {
        GateKind::Approval
    } else {
        GateKind::Allow
    }
}

/// How much a decision holds an action back: allow, approval, deny.
pub open spec fn strictness(k: GateKind) -> int {
    match k {
        GateKind::Allow => 0,
        GateKind::Approval => 1,
        GateKind::Deny => 2,
    }
}

/// The security decision for an action of risk `risk`, given whether OB is
/// paused and its autonomy level. An approval request carries the given
/// identifier, action and summary and expires five minutes after `now`.
pub fn evaluate_decision(
    paused: bool,
    autonomy_level: u8,
    risk: RiskLevel,
    approval_id: String,
    action: &str,
    summary: &str,
    now: Instant,
) -> (d: GateDecision)
    requires
        now.secs <= i64::MAX - APPROVAL_LIFETIME_SECS,
    ensures
        decision_kind(d) == gate_policy(paused, autonomy_level, risk),
        d matches GateDecision::Deny(m) ==> m@ == "OB is paused"@,
        d matches GateDecision::Approval(a) ==> {
            &&& a.id@ == approval_id@
            &&& a.action@ == action@
            &&& a.risk == risk
            &&& a.summary@ == summary@
            &&& a.expires_at.secs == now.secs + APPROVAL_LIFETIME_SECS
            &&& a.expires_at.nanos == now.nanos
        },
{
    if paused {
        return GateDecision::Deny(owned("OB is paused"));
    }
    let needs = match risk {
        RiskLevel::Destructive | RiskLevel::Critical => true,
        RiskLevel::Sensitive => autonomy_level < 2,
        _ => false,
    };
    if needs {
        GateDecision::Approval(
            ApprovalRequest {
                id: approval_id,
                action: owned(action),
                risk,
                summary: owned(summary),
                expires_at: Instant { secs: now.secs + APPROVAL_LIFETIME_SECS, nanos: now.nanos },
            },
        )
    } else {
        GateDecision::Allow
    }
}

/// The stored record of a pending approval: the request, the task it
/// belongs to and the action's payload with its secrets redacted.
pub struct ApprovalRecord {
    pub id: String,
    pub task_id: String,
    pub action: String,
    pub risk: String,
    pub summary: String,
    pub payload: JsonValue,
    pub status: String,
    pub expires_at: Instant,
}

/// The record kept for an approval request: pending, with the payload
/// redacted as audit details are.
pub fn approval_record(approval: &ApprovalRequest, task_id: &str, payload: JsonValue) -> (r: ApprovalRecord)
    ensures
        r.id@ == approval.id@,
        r.task_id@ == task_id@,
        r.action@ == approval.action@,
        r.risk@ == risk_label_spec(approval.risk),
        r.summary@ == approval.summary@,
        r.payload@ == redacted(payload@),
        r.status@ == "pending"@,
        r.expires_at == approval.expires_at,
{
    ApprovalRecord {
        id: approval.id.clone(),
        task_id: owned(task_id),
        action: approval.action.clone(),
        risk: risk_label(approval.risk),
        summary: approval.summary.clone(),
        payload: crate::audit::redact(payload),
        status: owned("pending"),
        expires_at: approval.expires_at,
    }
}

/// While OB is paused, every action is refused.
pub proof fn law_paused_denies_everything(autonomy_level: u8, risk: RiskLevel)
    ensures
        gate_policy(true, autonomy_level, risk) == GateKind::Deny,
{
}

/// Destructive and critical actions never run without approval, at any
/// autonomy level.
pub proof fn law_dangerous_actions_never_allowed(paused: bool, autonomy_level: u8, risk: RiskLevel)
    requires
        risk == RiskLevel::Destructive || risk == RiskLevel::Critical,
    ensures
        gate_policy(paused, autonomy_level, risk) != GateKind::Allow,
        !paused ==> gate_policy(paused, autonomy_level, risk) == GateKind::Approval,
{
}

/// Read-only and safe actions run whenever OB is not paused.
pub proof fn law_low_risk_runs(autonomy_level: u8, risk: RiskLevel)
    requires
        risk == RiskLevel::ReadOnly || risk == RiskLevel::Safe,
    ensures
        gate_policy(false, autonomy_level, risk) == GateKind::Allow,
{
}

/// Raising the autonomy level never makes the decision stricter, and raising the
/// risk never makes it more lenient.
pub proof fn law_gate_monotone(paused: bool, l1: u8, l2: u8, r1: RiskLevel, r2: RiskLevel)
    requires
        l1 <= l2,
        risk_rank(r1) <= risk_rank(r2),
    ensures
        strictness(gate_policy(paused, l2, r1)) <= strictness(gate_policy(paused, l1, r1)),
        strictness(gate_policy(paused, l1, r1)) <= strictness(gate_policy(paused, l1, r2)),
{
}

/// The classification of a terminal command: too long or containing NUL is
/// invalid; otherwise critical if the critical pattern matches, else
/// destructive if the destructive pattern matches, else sensitive. If either
/// pattern does not compile the command is refused as an internal error.
pub open spec fn terminal_risk(command: &str) -> Result<RiskLevel, ErrorView> {
    if command.len() > MAX_COMMAND_BYTES || command@.contains('\0') {
        Err(err_of(ErrorKind::Validation, "Command input is invalid"@))
    } else {
        match (
            regex_match(TERMINAL_CRITICAL_PATTERN@, command@),
            regex_match(TERMINAL_DESTRUCTIVE_PATTERN@, command@),
        ) {
            (Some(critical), Some(destructive)) => if critical {
                Ok(RiskLevel::Critical)
            } else if destructive {
                Ok(RiskLevel::Destructive)
            } else {
                Ok(RiskLevel::Sensitive)
            },
            _ => Err(err_of(ErrorKind::Internal, "Command risk pattern is invalid"@)),
        }
    }
}

/// Whether a sequence of characters holds a NUL.
fn has_nul(v: &Vec<char>) -> (r: bool)
    ensures
        r == v@.contains('\0'),
{
    let mut i: usize = 0;
    while i < v.len()
        invariant
            i <= v.len(),
            forall|j: int| 0 <= j < i ==> v@[j] != '\0',
        decreases v.len() - i,
    {
        if v[i] == '\0' {
            return true;
        }
        i = i + 1;
    }
    false
}

/// Classifies a terminal command by risk before it may run.
pub fn validate_terminal(command: &str) -> (r: Result<RiskLevel, ObError>)
    ensures
        res_view(r) == terminal_risk(command),
{
    let chars = chars_of(command);
    if command.len() > MAX_COMMAND_BYTES || has_nul(&chars) {
        return Err(ObError::Validation(owned("Command input is invalid")));
    }
    let critical = regex_is_match(TERMINAL_CRITICAL_PATTERN, command);
    let destructive = regex_is_match(TERMINAL_DESTRUCTIVE_PATTERN, command);
    match (critical, destructive) {
        (Some(c), Some(d)) => if c {
            Ok(RiskLevel::Critical)
        } else if d {
            Ok(RiskLevel::Destructive)
        } else {
            Ok(RiskLevel::Sensitive)
        },
        _ => Err(ObError::Internal(owned("Command risk pattern is invalid"))),
    }
}

/// A terminal command that passes validation is at least sensitive: the
/// classifier never lets a command through as read-only or safe.
pub proof fn law_terminal_commands_at_least_sensitive(command: &str)
    ensures
        terminal_risk(command) matches Ok(r) ==> risk_rank(r) >= 2,
{
}

/// The views of a list of path components.
pub open spec fn components_view(v: Seq<String>) -> Seq<Seq<char>> {
    v.map_values(|s: String| s@)
}

/// `root` is a leading run of whole components of `path` (`Path::starts_with`).
pub open spec fn path_under(path: Seq<Seq<char>>, root: Seq<Seq<char>>) -> bool {
    root.len() <= path.len() && forall|i: int| 0 <= i < root.len() ==> path[i] == root[i]
}

/// Some approved root contains the path.
pub open spec fn under_some_root(path: Seq<Seq<char>>, roots: Seq<Vec<String>>) -> bool {
    exists|k: int| 0 <= k < roots.len() && path_under(path, components_view(roots[k]@))
}

/// Whether `path` lies under `root`, comparing whole components.
pub fn path_starts_with(path: &Vec<String>, root: &Vec<String>) -> (r: bool)
    ensures
        r == path_under(components_view(path@), components_view(root@)),
{
    if root.len() > path.len() {
        return false;
    }
    let mut i: usize = 0;
    while i < root.len()
        invariant
            root.len() <= path.len(),
            i <= root.len(),
            forall|j: int| 0 <= j < i ==> path@[j]@ == root@[j]@,
        decreases root.len() - i,
    {
        let a = chars_of(path[i].as_str());
        let b = chars_of(root[i].as_str());
        if !crate::text::same_chars(&a, &b) {
            assert(components_view(path@)[i as int] != components_view(root@)[i as int]);
            return false;
        }
        i = i + 1;
    }
    true
}

/// The checks that come before any path is touched: the filesystem switch
/// must be on and at least one folder approved.
pub fn approved_path_precheck(filesystem_enabled: bool, root_count: usize) -> (r: Result<(), ObError>)
    ensures
        !filesystem_enabled ==> res_view(r) == Err::<(), ErrorView>(
            err_of(ErrorKind::PermissionRequired, "Filesystem access is disabled in Privacy Center"@),
        ),
        filesystem_enabled && root_count == 0 ==> res_view(r) == Err::<(), ErrorView>(
            err_of(ErrorKind::RequiresConfiguration, "Choose at least one approved folder in Privacy Center"@),
        ),
        filesystem_enabled && root_count > 0 ==> r is Ok,
{
    if !filesystem_enabled {
        return Err(ObError::PermissionRequired(owned("Filesystem access is disabled in Privacy Center")));
    }
    if root_count == 0 {
        return Err(ObError::RequiresConfiguration(owned("Choose at least one approved folder in Privacy Center")));
    }
    Ok(())
}

/// How a candidate path is made canonical.
#[derive(Clone, Copy, Debug, PartialEq, Eq, Structural)]
pub enum CanonicalPlan {
    /// The path exists: canonicalize it whole.
    Whole,
    /// The path is a new leaf: canonicalize its parent and append the file name.
    ParentAndLeaf,
}

/// Chooses how to canonicalize a candidate path: an existing path whole, a
/// missing one through its parent when a new leaf is allowed, else an error.
pub fn canonical_plan(exists: bool, allow_new_leaf: bool) -> (r: Result<CanonicalPlan, ObError>)
    ensures
        exists ==> r matches Ok(CanonicalPlan::Whole),
        !exists && allow_new_leaf ==> r matches Ok(CanonicalPlan::ParentAndLeaf),
        !exists && !allow_new_leaf ==> res_view(r) == Err::<CanonicalPlan, ErrorView>(
            err_of(ErrorKind::Validation, "Path does not exist"@),
        ),
{
    if exists {
        Ok(CanonicalPlan::Whole)
    } else if allow_new_leaf {
        Ok(CanonicalPlan::ParentAndLeaf)
    } else {
        Err(ObError::Validation(owned("Path does not exist")))
    }
}

/// Accepts a canonical path only when it lies under one of the canonical
/// approved roots.
pub fn check_within_roots(canonical: &Vec<String>, roots: &Vec<Vec<String>>) -> (r: Result<(), ObError>)
    ensures
        r is Ok <==> under_some_root(components_view(canonical@), roots@),
        r is Err ==> res_view(r) == Err::<(), ErrorView>(
            err_of(ErrorKind::SecurityBlocked, "Path is outside approved folders"@),
        ),
{
    let mut k: usize = 0;
    while k < roots.len()
        invariant
            k <= roots.len(),
            forall|j: int|
                0 <= j < k ==> !path_under(components_view(canonical@), components_view(#[trigger] roots@[j]@)),
        decreases roots.len() - k,
    {
        if path_starts_with(canonical, &roots[k]) {
            return Ok(());
        }
        k = k + 1;
    }
    Err(ObError::SecurityBlocked(owned("Path is outside approved folders")))
}

/// `a` comes strictly before `b`.
pub open spec fn earlier(a: Instant, b: Instant) -> bool {
    a.secs < b.secs || (a.secs == b.secs && a.nanos < b.nanos)
}

/// Name of the instant that `chrono::DateTime::parse_from_rfc3339` reads from
/// a text; `None` when the text is not RFC 3339.
pub uninterp spec fn rfc3339_instant(text: Seq<char>) -> Option<Instant>;

/// Reads an RFC 3339 timestamp with `chrono::DateTime::parse_from_rfc3339`.
/// The contract only names the instant read.
#[verifier::external_body]
pub(crate) fn parse_rfc3339(text: &str) -> (r: Option<Instant>)
    ensures
        r == rfc3339_instant(text@),
{
    match chrono::DateTime::parse_from_rfc3339(text) {
        Ok(t) => Some(Instant { secs: t.timestamp(), nanos: t.timestamp_subsec_nanos() }),
        Err(_) => None,
    }
}

/// The state of an approval record.
#[derive(Clone, Copy, Debug, PartialEq, Eq, Structural)]
pub enum ApprovalStatus {
    Pending,
    Approved,
    Denied,
    Expired,
}

/// The name under which an approval state is stored.
pub open spec fn status_label_spec(s: ApprovalStatus) -> Seq<char> {
    match s {
        ApprovalStatus::Pending => "pending"@,
        ApprovalStatus::Approved => "approved"@,
        ApprovalStatus::Denied => "denied"@,
        ApprovalStatus::Expired => "expired"@,
    }
}

/// The stored name of an approval state.
pub fn status_label(s: ApprovalStatus) -> (r: String)
    ensures
        r@ == status_label_spec(s),
{
    match s {
        ApprovalStatus::Pending => owned("pending"),
        ApprovalStatus::Approved => owned("approved"),
        ApprovalStatus::Denied => owned("denied"),
        ApprovalStatus::Expired => owned("expired"),
    }
}

/// What resolving an approval does: the state the record moves to, if any,
/// and what the caller is told.
pub struct Resolution {
    pub new_status: Option<ApprovalStatus>,
    pub outcome: Result<(), ObError>,
}

/// The policy for resolving an approval. `pending_expiry` is the stored
/// expiry of the pending record with that identifier, or `None` when no such
/// pending record exists (never created, or already resolved).
pub open spec fn resolution_policy(
    pending_expiry: Option<Seq<char>>,
    now: Instant,
    approved: bool,
) -> (Option<ApprovalStatus>, Result<(), ErrorView>) {
    match pending_expiry {
        None => (None, Err(err_of(ErrorKind::Validation, "Approval is missing or already resolved"@))),
        Some(text) => match rfc3339_instant(text) {
            None => (None, Err(err_of(ErrorKind::Validation, "Approval expiry is invalid"@))),
            Some(expiry) => if earlier(expiry, now) {
                (
                    Some(ApprovalStatus::Expired),
                    Err(err_of(ErrorKind::PermissionRequired, "Approval expired"@)),
                )
            } else if approved {
                (Some(ApprovalStatus::Approved), Ok(()))
            } else {
                (
                    Some(ApprovalStatus::Denied),
                    Err(err_of(ErrorKind::PermissionRequired, "User denied the action"@)),
                )
            },
        },
    }
}

/// Resolves an approval at instant `now` with the user's answer.
pub fn resolve_approval(pending_expiry: Option<&str>, now: Instant, approved: bool) -> (r: Resolution)
    ensures
        (r.new_status, res_view(r.outcome)) == resolution_policy(
            match pending_expiry {
                Some(t) => Some(t@),
                None => None,
            },
            now,
            approved,
        ),
{
    match pending_expiry {
        None => Resolution {
            new_status: None,
            outcome: Err(ObError::Validation(owned("Approval is missing or already resolved"))),
        },
        Some(text) => match parse_rfc3339(text) {
            None => Resolution {
                new_status: None,
                outcome: Err(ObError::Validation(owned("Approval expiry is invalid"))),
            },
            Some(expiry) => {
                let expired = expiry.secs < now.secs || (expiry.secs == now.secs && expiry.nanos
                    < now.nanos);
                if expired {
                    Resolution {
                        new_status: Some(ApprovalStatus::Expired),
                        outcome: Err(ObError::PermissionRequired(owned("Approval expired"))),
                    }
                } else if approved {
                    Resolution { new_status: Some(ApprovalStatus::Approved), outcome: Ok(()) }
                } else {
                    Resolution {
                        new_status: Some(ApprovalStatus::Denied),
                        outcome: Err(ObError::PermissionRequired(owned("User denied the action"))),
                    }
                }
            },
        },
    }
}

/// An approval is used at most once: resolving never leaves a record
/// pending, a record that is no longer pending is refused without change,
/// and only an unexpired approval with a "yes" lets the action proceed.
pub proof fn law_approvals_single_use(pending_expiry: Option<Seq<char>>, now: Instant, approved: bool)
    ensures
        resolution_policy(pending_expiry, now, approved).0 != Some(ApprovalStatus::Pending),
        pending_expiry is None ==> resolution_policy(pending_expiry, now, approved).0 is None
            && resolution_policy(pending_expiry, now, approved).1 is Err,
        resolution_policy(pending_expiry, now, approved).1 is Ok ==> {
            &&& approved
            &&& pending_expiry matches Some(t) && rfc3339_instant(t) matches Some(e) && !earlier(e, now)
        },
{
}

} // verus!
