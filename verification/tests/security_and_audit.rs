use ob_oraborus::audit::{is_sensitive_key, redact};
use ob_oraborus::error::{ErrorKind, ObError};
use ob_oraborus::json::JsonValue;
use ob_oraborus::models::{risk_label, ApprovalRequest, Instant, RiskLevel};
use ob_oraborus::security::{
    approval_record, approved_path_precheck, canonical_plan, check_within_roots, evaluate_decision,
    path_starts_with, resolve_approval, status_label, validate_terminal, ApprovalStatus, CanonicalPlan,
    GateDecision,
};

fn s(text: &str) -> String {
    text.to_string()
}

fn obj(entries: Vec<(&str, JsonValue)>) -> JsonValue {
    JsonValue::Object(entries.into_iter().map(|(k, v)| (k.to_string(), v)).collect())
}

fn text_of(v: Option<&JsonValue>) -> Option<String> {
    v.and_then(|x| x.as_str()).cloned()
}

fn at(secs: i64, nanos: u32) -> Instant {
    Instant { secs, nanos }
}

fn components(parts: &[&str]) -> Vec<String> {
    parts.iter().map(|p| p.to_string()).collect()
}

#[test]
fn secrets_are_redacted() {
    let value = redact(obj(vec![
        ("apiKey", JsonValue::Str(s("abc"))),
        ("nested", obj(vec![("token", JsonValue::Str(s("xyz")))])),
        ("safe", JsonValue::Number(s("3"))),
    ]));
    assert_eq!(text_of(value.get("apiKey")), Some(s("[REDACTED]")));
    assert_eq!(value.get("safe").and_then(|v| v.as_u64()), Some(3));
}

#[test]
fn nested_secrets_are_redacted_and_other_values_kept() {
    let value = redact(obj(vec![
        ("nested", obj(vec![("token", JsonValue::Str(s("xyz"))), ("user", JsonValue::Str(s("ann")))])),
        ("list", JsonValue::Array(vec![obj(vec![("Password", JsonValue::Str(s("pw")))])])),
    ]));
    let nested = value.get("nested").expect("nested object");
    assert_eq!(text_of(nested.get("token")), Some(s("[REDACTED]")));
    assert_eq!(text_of(nested.get("user")), Some(s("ann")));
    let list = value.get("list").and_then(|v| v.as_array()).expect("list");
    assert_eq!(text_of(list[0].get("Password")), Some(s("[REDACTED]")));
}

#[test]
fn redaction_is_idempotent_on_an_example() {
    let original = obj(vec![
        ("cookie", obj(vec![("a", JsonValue::Number(s("1")))])),
        ("keep", JsonValue::Bool(true)),
    ]);
    let once = redact(original);
    let twice = redact(ob_oraborus::json::copy_json(&once));
    assert_eq!(format!("{:?}", once), format!("{:?}", twice));
    assert_eq!(text_of(once.get("cookie")), Some(s("[REDACTED]")));
}

#[test]
fn redaction_keeps_the_shape_of_nested_values() {
    let original = JsonValue::Array(vec![
        obj(vec![("secret", JsonValue::Array(vec![JsonValue::Null, JsonValue::Null])), ("n", JsonValue::Number(s("2")))]),
        JsonValue::Array(vec![JsonValue::Bool(false), obj(vec![])]),
    ]);
    let out = redact(original);
    let items = out.as_array().expect("array");
    assert_eq!(items.len(), 2);
    assert_eq!(text_of(items[0].get("secret")), Some(s("[REDACTED]")));
    assert_eq!(format!("{:?}", items[0].get("n")), format!("{:?}", Some(&JsonValue::Number(s("2")))));
    let inner = items[1].as_array().expect("inner array");
    assert_eq!(inner.len(), 2);
    assert_eq!(format!("{:?}", inner[1]), format!("{:?}", JsonValue::Object(vec![])));
}

#[test]
fn sensitive_keys_follow_the_pattern() {
    assert!(is_sensitive_key("Authorization"));
    assert!(is_sensitive_key("api_key"));
    assert!(is_sensitive_key("APIKEY"));
    assert!(is_sensitive_key("session_cookie"));
    assert!(is_sensitive_key("credentials"));
    assert!(!is_sensitive_key("name"));
    assert!(!is_sensitive_key("safe"));
}

#[test]
fn dangerous_commands_are_critical() {
    assert_eq!(validate_terminal("format C:").expect("risk"), RiskLevel::Critical);
    assert_eq!(validate_terminal("Get-ChildItem").expect("risk"), RiskLevel::Sensitive);
}

#[test]
fn destructive_and_invalid_commands() {
    assert_eq!(validate_terminal("Remove-Item notes.txt").expect("risk"), RiskLevel::Destructive);
    assert_eq!(validate_terminal("git reset --hard HEAD").expect("risk"), RiskLevel::Destructive);
    assert_eq!(validate_terminal("Remove-Item C:\\data -Recurse").expect("risk"), RiskLevel::Critical);
    let err = validate_terminal("echo a\0b").expect_err("nul is refused");
    assert_eq!(err.kind(), ErrorKind::Validation);
    assert_eq!(err.detail(), "Command input is invalid");
    let long = "a".repeat(8001);
    assert_eq!(validate_terminal(&long).expect_err("too long").kind(), ErrorKind::Validation);
    let just_fits = "a".repeat(8000);
    assert_eq!(validate_terminal(&just_fits).expect("risk"), RiskLevel::Sensitive);
}

#[test]
fn paused_gate_denies() {
    match evaluate_decision(true, 3, RiskLevel::ReadOnly, s("id"), "read", "reading", at(0, 0)) {
        GateDecision::Deny(m) => assert_eq!(m, "OB is paused"),
        _ => panic!("a paused gate must deny"),
    }
}

#[test]
fn gate_asks_for_approval_of_dangerous_actions() {
    match evaluate_decision(false, 3, RiskLevel::Critical, s("a1"), "terminal", "format", at(1_000, 250)) {
        GateDecision::Approval(a) => {
            assert_eq!(a.id, "a1");
            assert_eq!(a.action, "terminal");
            assert_eq!(a.risk, RiskLevel::Critical);
            assert_eq!(a.summary, "format");
            assert_eq!(a.expires_at, at(1_300, 250));
        }
        _ => panic!("critical actions need approval"),
    }
    assert!(matches!(
        evaluate_decision(false, 1, RiskLevel::Sensitive, s("a2"), "x", "y", at(0, 0)),
        GateDecision::Approval(_)
    ));
    assert!(matches!(
        evaluate_decision(false, 2, RiskLevel::Sensitive, s("a3"), "x", "y", at(0, 0)),
        GateDecision::Allow
    ));
    assert!(matches!(
        evaluate_decision(false, 0, RiskLevel::Safe, s("a4"), "x", "y", at(0, 0)),
        GateDecision::Allow
    ));
}

#[test]
fn approvals_resolve_once() {
    let now = Instant { secs: 1_700_000_000, nanos: 0 };
    let missing = resolve_approval(None, now, true);
    assert!(missing.new_status.is_none());
    assert_eq!(missing.outcome.unwrap_err().detail(), "Approval is missing or already resolved");

    let invalid = resolve_approval(Some("tomorrow"), now, true);
    assert!(invalid.new_status.is_none());
    assert_eq!(invalid.outcome.unwrap_err().detail(), "Approval expiry is invalid");

    let expired = resolve_approval(Some("2000-01-01T00:00:00Z"), now, true);
    assert_eq!(expired.new_status, Some(ApprovalStatus::Expired));
    let e = expired.outcome.unwrap_err();
    assert_eq!(e.kind(), ErrorKind::PermissionRequired);
    assert_eq!(e.detail(), "Approval expired");

    let approved = resolve_approval(Some("2100-01-01T00:00:00+00:00"), now, true);
    assert_eq!(approved.new_status, Some(ApprovalStatus::Approved));
    assert!(approved.outcome.is_ok());

    let denied = resolve_approval(Some("2100-01-01T00:00:00Z"), now, false);
    assert_eq!(denied.new_status, Some(ApprovalStatus::Denied));
    assert_eq!(denied.outcome.unwrap_err().detail(), "User denied the action");
}

#[test]
fn approval_states_and_risks_have_stored_names() {
    assert_eq!(status_label(ApprovalStatus::Pending), "pending");
    assert_eq!(status_label(ApprovalStatus::Expired), "expired");
    assert_eq!(risk_label(RiskLevel::ReadOnly), "READ_ONLY");
    assert_eq!(risk_label(RiskLevel::Sensitive), "SENSITIVE");
    assert_eq!(risk_label(RiskLevel::Critical), "CRITICAL");
}

#[test]
fn paths_must_lie_under_an_approved_root() {
    let root = components(&["C:", "Users", "ann", "Documents"]);
    let inside = components(&["C:", "Users", "ann", "Documents", "report.txt"]);
    let sibling = components(&["C:", "Users", "ann", "DocumentsOld", "x.txt"]);
    assert!(path_starts_with(&inside, &root));
    assert!(!path_starts_with(&sibling, &root));
    assert!(path_starts_with(&root, &root));
    let roots = vec![components(&["D:", "Work"]), root.clone()];
    assert!(check_within_roots(&inside, &roots).is_ok());
    let err = check_within_roots(&sibling, &roots).unwrap_err();
    assert_eq!(err.kind(), ErrorKind::SecurityBlocked);
    assert_eq!(err.detail(), "Path is outside approved folders");
}

#[test]
fn path_prechecks_and_canonical_plan() {
    let off = approved_path_precheck(false, 3).unwrap_err();
    assert_eq!(off.kind(), ErrorKind::PermissionRequired);
    assert_eq!(off.detail(), "Filesystem access is disabled in Privacy Center");
    let none = approved_path_precheck(true, 0).unwrap_err();
    assert_eq!(none.kind(), ErrorKind::RequiresConfiguration);
    assert!(approved_path_precheck(true, 1).is_ok());
    assert_eq!(canonical_plan(true, false).unwrap(), CanonicalPlan::Whole);
    assert_eq!(canonical_plan(false, true).unwrap(), CanonicalPlan::ParentAndLeaf);
    let missing = canonical_plan(false, false).unwrap_err();
    assert_eq!(missing.detail(), "Path does not exist");
}

#[test]
fn error_messages_carry_their_kind() {
    let e = ObError::SecurityBlocked(s("nope"));
    assert_eq!(e.message(), "SECURITY BLOCKED — nope");
    assert_eq!(ObError::Cancelled.message(), "OPERATION CANCELLED");
    assert_eq!(ObError::Validation(s("bad")).message(), "VALIDATION FAILED — bad");
}

#[test]
fn approval_records_keep_redacted_payloads() {
    let request = ApprovalRequest {
        id: s("ap1"),
        action: s("terminal"),
        risk: RiskLevel::ReadOnly,
        summary: s("list files"),
        expires_at: at(10, 5),
    };
    let payload = obj(vec![("command", JsonValue::Str(s("dir"))), ("apiKey", JsonValue::Str(s("sk-1")))]);
    let record = approval_record(&request, "task7", payload);
    assert_eq!(record.id, "ap1");
    assert_eq!(record.task_id, "task7");
    assert_eq!(record.risk, "READ_ONLY");
    assert_eq!(record.status, "pending");
    assert_eq!(record.expires_at, at(10, 5));
    assert_eq!(text_of(record.payload.get("apiKey")), Some(s("[REDACTED]")));
    assert_eq!(text_of(record.payload.get("command")), Some(s("dir")));
}

#[test]
fn approvals_expire_to_the_nanosecond() {
    let expiry = Some("2030-01-01T00:00:00.500Z");
    let before = resolve_approval(expiry, at(1_893_456_000, 400_000_000), true);
    assert_eq!(before.new_status, Some(ApprovalStatus::Approved));
    let after = resolve_approval(expiry, at(1_893_456_000, 600_000_000), true);
    assert_eq!(after.new_status, Some(ApprovalStatus::Expired));
}
