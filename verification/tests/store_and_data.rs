use ob_oraborus::data_analysis::{check_headers, csv_table, tally_rows};
use ob_oraborus::db::{
    active_task, append_event, default_privacy, is_active_status, notification_count, provider_seeds,
    setting_defaults, task_event, ACTIVE_TASK_WINDOW,
};
use ob_oraborus::error::ErrorKind;
use ob_oraborus::json::{copy_json, JsonValue};
use ob_oraborus::models::TaskSummary;
use ob_oraborus::text::decimal_text;

fn s(text: &str) -> String {
    text.to_string()
}

fn task(id: &str, status: &str) -> TaskSummary {
    TaskSummary {
        id: s(id),
        title: s(id),
        status: s(status),
        created_at: s("2024-05-01T10:00:00Z"),
        completed_at: None,
        progress: None,
        events: vec![],
    }
}

fn events_of(plan: &JsonValue) -> Vec<JsonValue> {
    plan.get("events").and_then(|v| v.as_array()).map(|items| items.iter().map(copy_json).collect()).unwrap_or_default()
}

#[test]
fn defaults_start_at_autonomy_level_one() {
    let settings = setting_defaults();
    assert_eq!(settings.len(), 12);
    let level = settings.iter().find(|(k, _)| k == "autonomy_level").map(|(_, v)| v.clone());
    assert_eq!(level, Some(s("1")));
    assert!(settings.contains(&(s("paused"), s("false"))));
    assert!(settings.contains(&(s("approved_folders"), s("[]"))));
    assert!(settings.contains(&(s("privacy.network"), s("true"))));
}

#[test]
fn only_the_local_provider_starts_enabled() {
    let seeds = provider_seeds();
    assert_eq!(seeds.len(), 3);
    assert_eq!(seeds[0].id, "ollama");
    assert!(seeds[0].enabled);
    assert_eq!(seeds[0].base_url, "http://127.0.0.1:11434");
    assert!(!seeds[1].enabled && !seeds[2].enabled);
    let p = default_privacy();
    assert!(!p.microphone && !p.camera && !p.screen_capture && !p.filesystem && !p.browser);
    assert!(p.network && p.memory);
}

#[test]
fn the_first_active_recent_task_is_chosen() {
    assert!(is_active_status("waiting_approval"));
    assert!(!is_active_status("completed"));
    let recent = vec![task("a", "completed"), task("b", "queued"), task("c", "running")];
    assert_eq!(active_task(recent).map(|t| t.id), Some(s("b")));
    assert!(active_task(vec![task("a", "failed")]).is_none());
    assert!(active_task(vec![]).is_none());
    assert_eq!(ACTIVE_TASK_WINDOW, 20);
}

#[test]
fn unread_counts_are_never_negative() {
    assert_eq!(notification_count(-5), 0);
    assert_eq!(notification_count(7), 7);
    assert_eq!(notification_count(4_294_967_296 + 3), 3);
}

#[test]
fn task_events_are_appended_in_order() {
    let mut plan = JsonValue::Object(vec![(s("events"), JsonValue::Array(vec![]))]);
    plan = append_event(plan, task_event("e1", "2024-05-01T10:00:00Z", "request", "User request", "hi")).expect("first");
    plan = append_event(plan, task_event("e2", "2024-05-01T10:00:01Z", "tool", "Step", "done")).expect("second");
    let events = events_of(&plan);
    assert_eq!(events.len(), 2);
    assert_eq!(events[0].get("id").and_then(|v| v.as_str()).cloned(), Some(s("e1")));
    assert_eq!(events[1].get("detail").and_then(|v| v.as_str()).cloned(), Some(s("done")));
}

#[test]
fn malformed_event_stores_are_refused() {
    let no_events = JsonValue::Object(vec![(s("other"), JsonValue::Null)]);
    let e = append_event(no_events, task_event("e", "t", "k", "l", "d")).unwrap_err();
    assert_eq!(e.kind(), ErrorKind::Internal);
    assert_eq!(e.detail(), "Task event store is malformed");
    let not_array = JsonValue::Object(vec![(s("events"), JsonValue::Str(s("x")))]);
    assert!(append_event(not_array, task_event("e", "t", "k", "l", "d")).is_err());
    assert!(append_event(JsonValue::Null, task_event("e", "t", "k", "l", "d")).is_err());
}

#[test]
fn csv_tally_counts_rows_and_missing_cells() {
    let headers = vec![s("name"), s("value")];
    assert!(check_headers(&headers).is_ok());
    let rows: Vec<Result<Vec<String>, String>> = vec![
        Ok(vec![s("a"), s("1")]),
        Ok(vec![s("b"), s("3")]),
        Ok(vec![s("c"), s("")]),
    ];
    let tally = tally_rows(headers.len(), &rows);
    assert_eq!(tally.row_count, 3);
    assert_eq!(tally.missing, vec![0, 1]);
    assert!(tally.warnings.is_empty());
}

#[test]
fn csv_tally_reports_unreadable_rows() {
    let rows: Vec<Result<Vec<String>, String>> = vec![
        Ok(vec![s("  ")]),
        Err(s("found record with 3 fields")),
        Ok(vec![s("x"), s("y")]),
    ];
    let tally = tally_rows(2, &rows);
    assert_eq!(tally.row_count, 2);
    assert_eq!(tally.missing, vec![1, 1]);
    assert_eq!(tally.warnings, vec![s("Row 3: found record with 3 fields")]);
    let e = check_headers(&vec![]).unwrap_err();
    assert_eq!(e.kind(), ErrorKind::Validation);
    assert_eq!(e.detail(), "CSV has no columns");
}

#[test]
fn csv_table_reads_headers_and_rows() {
    let table = csv_table(b"name,value\na,1\nb,3\nc,\n").unwrap();
    assert_eq!(table.headers, vec![s("name"), s("value")]);
    assert_eq!(table.rows.len(), 3);
    assert_eq!(table.rows[0], Ok(vec![s("a"), s("1")]));
    assert_eq!(table.rows[2], Ok(vec![s("c"), s("")]));
    let tally = tally_rows(table.headers.len(), &table.rows);
    assert_eq!(tally.row_count, 3);
    assert_eq!(tally.missing, vec![0, 1]);
    let short = csv_table(b"a,b,c\n1\n").unwrap();
    assert_eq!(short.rows, vec![Ok(vec![s("1")])]);
}

#[test]
fn csv_table_refuses_files_without_columns() {
    let e = csv_table(b"").unwrap_err();
    assert_eq!(e.kind(), ErrorKind::Validation);
    assert_eq!(e.detail(), "CSV has no columns");
    let bad = csv_table(b"\xff\xfe,a\n1,2\n").unwrap_err();
    assert_eq!(bad.kind(), ErrorKind::Validation);
    assert!(bad.detail().starts_with("CSV headers are invalid: "));
}

#[test]
fn decimal_text_writes_digits() {
    assert_eq!(decimal_text(0), "0");
    assert_eq!(decimal_text(7), "7");
    assert_eq!(decimal_text(1234567890), "1234567890");
    assert_eq!(decimal_text(u64::MAX), "18446744073709551615");
}

#[test]
fn numbers_convert_to_u64_only_when_they_fit() {
    assert_eq!(JsonValue::Number(s("18446744073709551615")).as_u64(), Some(u64::MAX));
    assert_eq!(JsonValue::Number(s("18446744073709551616")).as_u64(), None);
    assert_eq!(JsonValue::Number(s("1.5")).as_u64(), None);
    assert_eq!(JsonValue::Number(s("-2")).as_u64(), None);
    assert_eq!(JsonValue::Str(s("5")).as_u64(), None);
    assert_eq!(JsonValue::Number(s("0")).as_u64(), Some(0));
}

#[test]
fn decimal_text_reads_back_as_the_number() {
    for n in [0u64, 9, 10, 99, 100, 4_100_000_000, u64::MAX] {
        assert_eq!(JsonValue::Number(decimal_text(n)).as_u64(), Some(n));
    }
}
