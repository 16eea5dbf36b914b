//! The stored state's rules: the safe defaults written on first start, the
//! providers seeded then, which tasks count as active, and how a task's
//! event log grows.

use vstd::prelude::*;
use crate::error::{ErrorKind, ErrorView, ObError, err_of};
use crate::json::{JsonValue, JsonView, entries_view, items_view, json_view, lemma_entries_view, lemma_items_view};
use crate::models::{PrivacyState, TaskSummary};
use crate::text::{chars_of, eq_str, owned, same_chars};

verus! {

/// How many recent tasks are searched for the active one.
pub const ACTIVE_TASK_WINDOW: usize = 20;

/// The settings written on first start, as keys and JSON texts.
pub open spec fn default_settings() -> Seq<(Seq<char>, Seq<char>)> {
    seq![
        ("local_only"@, "false"@),
        ("autonomy_level"@, "1"@),
        ("paused"@, "false"@),
        ("privacy.microphone"@, "false"@),
        ("privacy.camera"@, "false"@),
        ("privacy.screen_capture"@, "false"@),
        ("privacy.filesystem"@, "false"@),
        ("privacy.browser"@, "false"@),
        ("privacy.network"@, "true"@),
        ("privacy.memory"@, "true"@),
        ("approved_folders"@, "[]"@),
        ("emotional_adaptation"@, "true"@),
    ]
}

/// The first start is safe: autonomy level one, not paused, microphone,
/// camera and screen capture off, and no folder approved.
pub proof fn law_safe_defaults()
    ensures
        default_settings().contains(("autonomy_level"@, "1"@)),
        default_settings().contains(("paused"@, "false"@)),
        default_settings().contains(("privacy.microphone"@, "false"@)),
        default_settings().contains(("privacy.camera"@, "false"@)),
        default_settings().contains(("privacy.screen_capture"@, "false"@)),
        default_settings().contains(("approved_folders"@, "[]"@)),
{
    let d = default_settings();
    assert(d[1] == ("autonomy_level"@, "1"@));
    assert(d[2] == ("paused"@, "false"@));
    assert(d[3] == ("privacy.microphone"@, "false"@));
    assert(d[4] == ("privacy.camera"@, "false"@));
    assert(d[5] == ("privacy.screen_capture"@, "false"@));
    assert(d[10] == ("approved_folders"@, "[]"@));
}

/// The settings written on first start, when absent.
pub fn setting_defaults() -> (r: Vec<(String, String)>)
    ensures
        r@.len() == default_settings().len(),
        forall|i: int| 0 <= i < r@.len() ==> (#[trigger] r@[i]).0@ == default_settings()[i].0 && r@[i].1@ == default_settings()[i].1,
{
    let mut v: Vec<(String, String)> = Vec::new();
    v.push((owned("local_only"), owned("false")));
    v.push((owned("autonomy_level"), owned("1")));
    v.push((owned("paused"), owned("false")));
    v.push((owned("privacy.microphone"), owned("false")));
    v.push((owned("privacy.camera"), owned("false")));
    v.push((owned("privacy.screen_capture"), owned("false")));
    v.push((owned("privacy.filesystem"), owned("false")));
    v.push((owned("privacy.browser"), owned("false")));
    v.push((owned("privacy.network"), owned("true")));
    v.push((owned("privacy.memory"), owned("true")));
    v.push((owned("approved_folders"), owned("[]")));
    v.push((owned("emotional_adaptation"), owned("true")));
    v
}

/// A provider written on first start.
pub struct ProviderSeed {
    pub id: String,
    pub kind: String,
    pub label: String,
    pub base_url: String,
    pub enabled: bool,
}

fn seed(id: &str, kind: &str, label: &str, base_url: &str, enabled: bool) -> (r: ProviderSeed)
    ensures
        r.id@ == id@,
        r.kind@ == kind@,
        r.label@ == label@,
        r.base_url@ == base_url@,
        r.enabled == enabled,
{
    ProviderSeed { id: owned(id), kind: owned(kind), label: owned(label), base_url: owned(base_url), enabled }
}

/// The providers written on first start: local Ollama enabled, the cloud
/// and compatible endpoints disabled until configured.
pub fn provider_seeds() -> (r: Vec<ProviderSeed>)
    ensures
        r@.len() == 3,
        r@[0].id@ == "ollama"@ && r@[0].enabled,
        r@[0].base_url@ == "http://127.0.0.1:11434"@,
        r@[1].id@ == "gemini"@ && !r@[1].enabled,
        r@[1].base_url@ == "https://generativelanguage.googleapis.com/v1beta"@,
        r@[2].id@ == "openai-compatible"@ && !r@[2].enabled,
        r@[2].base_url@ == "http://127.0.0.1:1234/v1"@,
        r@[0].label@ == "Ollama"@ && r@[1].label@ == "Google Gemini"@ && r@[2].label@ == "OpenAI Compatible"@,
        r@[0].kind@ == "ollama"@ && r@[1].kind@ == "gemini"@ && r@[2].kind@ == "openai-compatible"@,
{
    let mut v: Vec<ProviderSeed> = Vec::new();
    v.push(seed("ollama", "ollama", "Ollama", "http://127.0.0.1:11434", true));
    v.push(seed("gemini", "gemini", "Google Gemini", "https://generativelanguage.googleapis.com/v1beta", false));
    v.push(seed("openai-compatible", "openai-compatible", "OpenAI Compatible", "http://127.0.0.1:1234/v1", false));
    v
}

/// The privacy switches as they stand before the user changes anything:
/// every sensor and the filesystem off, network and memory on.
pub fn default_privacy() -> (r: PrivacyState)
    ensures
        !r.microphone && !r.camera && !r.screen_capture && !r.filesystem && !r.browser,
        r.network && r.memory,
{
    PrivacyState {
        microphone: false,
        camera: false,
        screen_capture: false,
        filesystem: false,
        browser: false,
        network: true,
        memory: true,
    }
}

/// The task states that count as active.
pub open spec fn active_status(s: Seq<char>) -> bool {
    s == "running"@ || s == "queued"@ || s == "waiting_approval"@
}

/// Whether a task in this state is active.
pub fn is_active_status(status: &str) -> (r: bool)
    ensures
        r == active_status(status@),
{
    let c = chars_of(status);
    eq_str(&c, "running") || eq_str(&c, "queued") || eq_str(&c, "waiting_approval")
}

/// The first active task among the recent tasks, which come newest first.
pub fn active_task(recent: Vec<TaskSummary>) -> (r: Option<TaskSummary>)
    ensures
        (match r {
            Some(t) => exists|k: int|
                0 <= k < recent@.len() && recent@[k] == t && active_status(t.status@) && forall|j: int|
                    0 <= j < k ==> !active_status(#[trigger] recent@[j].status@),
            None => forall|j: int| 0 <= j < recent@.len() ==> !active_status(#[trigger] recent@[j].status@),
        }),
{
    let mut rest = recent;
    let ghost mut i: int = 0;
    let ghost all = rest@;
    while rest.len() > 0
        invariant
            all == recent@,
            i + rest@.len() == all.len(),
            0 <= i,
            rest@ == all.subrange(i, all.len() as int),
            forall|j: int| 0 <= j < i ==> !active_status(#[trigger] all[j].status@),
        decreases rest.len(),
    {
        let t = rest.remove(0);
        assert(t == all[i]);
        if is_active_status(t.status.as_str()) {
            assert(0 <= i < recent@.len() && recent@[i] == t);
            return Some(t);
        }
        assert(rest@ =~= all.subrange(i + 1, all.len() as int));
        proof {
            i = i + 1;
        }
    }
    None
}

/// The number of unread notifications shown for a counted value: negative
/// counts show as zero, and the count is kept to its low 32 bits.
pub fn notification_count(raw: i64) -> (r: u32)
    ensures
        r == (if raw < 0 {
            0
        } else {
            raw
        }) as u32,
{
    let v = if raw < 0 {
        0
    } else {
        raw
    };
    v as u32
}

/// One entry of a task's event log.
pub fn task_event(id: &str, at: &str, kind: &str, label: &str, detail: &str) -> (r: JsonValue)
    ensures
        r@ == JsonView::Object(
            seq![
                ("id"@, JsonView::Str(id@)),
                ("at"@, JsonView::Str(at@)),
                ("kind"@, JsonView::Str(kind@)),
                ("label"@, JsonView::Str(label@)),
                ("detail"@, JsonView::Str(detail@)),
            ],
        ),
{
    let mut entries: Vec<(String, JsonValue)> = Vec::new();
    entries.push((owned("id"), JsonValue::Str(owned(id))));
    entries.push((owned("at"), JsonValue::Str(owned(at))));
    entries.push((owned("kind"), JsonValue::Str(owned(kind))));
    entries.push((owned("label"), JsonValue::Str(owned(label))));
    entries.push((owned("detail"), JsonValue::Str(owned(detail))));
    proof {
        lemma_entries_view(entries@);
        assert(entries_view(entries@) =~= seq![
            ("id"@, JsonView::Str(id@)),
            ("at"@, JsonView::Str(at@)),
            ("kind"@, JsonView::Str(kind@)),
            ("label"@, JsonView::Str(label@)),
            ("detail"@, JsonView::Str(detail@)),
        ]);
    }
    JsonValue::Object(entries)
}

/// The position of the first entry with key `events`.
pub open spec fn events_slot(entries: Seq<(Seq<char>, JsonView)>) -> Option<int> {
    crate::text::first_index(entries.len() as int, events_key(entries))
}

/// Positions of entries with key `events`.
pub open spec fn events_key(entries: Seq<(Seq<char>, JsonView)>) -> spec_fn(int) -> bool {
    |k: int| entries[k].0 == "events"@
}

/// A task plan with one more event: the plan must be an object whose
/// `events` entry is an array, and the event is appended to that array.
pub open spec fn plan_with_event(plan: JsonView, event: JsonView) -> Option<JsonView> {
    match plan {
        JsonView::Object(entries) => match events_slot(entries) {
            Some(k) => match entries[k].1 {
                JsonView::Array(items) => Some(
                    JsonView::Object(entries.update(k, ("events"@, JsonView::Array(items.push(event))))),
                ),
                _ => None,
            },
            None => None,
        },
        _ => None,
    }
}

/// The position of the first entry with key `events`.
fn find_events_slot(entries: &Vec<(String, JsonValue)>) -> (r: Option<usize>)
    ensures
        r matches Some(k) ==> k < entries@.len() && events_slot(entries_view(entries@)) == Some(k as int),
        r is None ==> events_slot(entries_view(entries@)) is None,
{
    let ghost before = entries_view(entries@);
    proof {
        lemma_entries_view(entries@);
    }
    let key = chars_of("events");
    let ghost p = events_key(before);
    let mut i: usize = 0;
    while i < entries.len()
        invariant
            i <= entries.len(),
            key@ == "events"@,
            before == entries_view(entries@),
            before.len() == entries@.len(),
            forall|j: int| 0 <= j < entries@.len() ==> #[trigger] before[j] == (entries@[j].0@, json_view(entries@[j].1)),
            p == events_key(before),
            forall|j: int| 0 <= j < i ==> !#[trigger] p(j),
        decreases entries.len() - i,
    {
        let name = chars_of(entries[i].0.as_str());
        if same_chars(&name, &key) {
            proof {
                crate::text::lemma_first_index_is(before.len() as int, p, i as int);
            }
            return Some(i);
        }
        i = i + 1;
    }
    proof {
        crate::text::lemma_first_index_none(before.len() as int, p);
    }
    None
}

/// The array with one more item at the end; anything else is malformed.
fn pushed(value: JsonValue, event: JsonValue) -> (r: Result<JsonValue, ObError>)
    ensures
        value@ matches JsonView::Array(items) ==> (r matches Ok(v) && v@ == JsonView::Array(items.push(event@))),
        !(value@ is Array) ==> (r matches Err(e) && e@ == err_of(ErrorKind::Internal, "Task event store is malformed"@)),
{
    match value {
        JsonValue::Array(mut items) => {
            let ghost old_items = items_view(items@);
            let ghost raw = items@;
            proof {
                lemma_items_view(raw);
            }
            items.push(event);
            proof {
                lemma_items_view(items@);
                assert(items_view(items@) =~= old_items.push(event@));
            }
            Ok(JsonValue::Array(items))
        },
        _ => Err(ObError::Internal(owned("Task event store is malformed"))),
    }
}

/// The entries with the array at position `k` grown by one event.
fn push_at(entries: Vec<(String, JsonValue)>, k: usize, event: JsonValue) -> (r: Result<Vec<(String, JsonValue)>, ObError>)
    requires
        k < entries@.len(),
        entries_view(entries@)[k as int].0 == "events"@,
    ensures
        match entries_view(entries@)[k as int].1 {
            JsonView::Array(items) => r matches Ok(v) && entries_view(v@) == entries_view(entries@).update(
                k as int,
                ("events"@, JsonView::Array(items.push(event@))),
            ),
            _ => r matches Err(e) && e@ == err_of(ErrorKind::Internal, "Task event store is malformed"@),
        },
{
    let ghost before = entries_view(entries@);
    let ghost old_entries = entries@;
    proof {
        lemma_entries_view(entries@);
    }
    let mut entries = entries;
    let (_name, value) = entries.remove(k);
    assert(value == old_entries[k as int].1);
    let v = match pushed(value, event) {
        Ok(v) => v,
        Err(e) => {
            return Err(e);
        },
    };
    let ghost new_entry = ("events"@, v@);
    entries.insert(k, (owned("events"), v));
    proof {
        lemma_entries_view(entries@);
        assert(entries_view(entries@) =~= before.update(k as int, new_entry));
    }
    Ok(entries)
}

/// Appends an event to a task plan. A plan without an `events` array is
/// malformed. The plan must be an object or null, as plans read back are.
pub fn append_event(plan: JsonValue, event: JsonValue) -> (r: Result<JsonValue, ObError>)
    requires
        plan@ is Object || plan@ is Null,
    ensures
        match r {
            Ok(p) => plan_with_event(plan@, event@) == Some(p@),
            Err(e) => plan_with_event(plan@, event@) is None && e@ == err_of(ErrorKind::Internal, "Task event store is malformed"@),
        },
{
    match plan {
        JsonValue::Object(entries) => {
            proof {
                lemma_entries_view(entries@);
            }
            match find_events_slot(&entries) {
                None => Err(ObError::Internal(owned("Task event store is malformed"))),
                Some(k) => {
                    proof {
                        crate::text::lemma_first_index_bounds(entries_view(entries@).len() as int, events_key(entries_view(entries@)));
                    }
                    match push_at(entries, k, event) {
                        Ok(v) => Ok(JsonValue::Object(v)),
                        Err(e) => Err(e),
                    }
                },
            }
        },
        _ => Err(ObError::Internal(owned("Task event store is malformed"))),
    }
}

/// Appending an event keeps every earlier event and adds exactly one at the
/// end of the log; every other entry of the plan is left as it was.
pub proof fn law_event_log_only_grows(plan: JsonView, event: JsonView)
    ensures
        plan_with_event(plan, event) matches Some(JsonView::Object(after)) ==> {
            &&& plan matches JsonView::Object(entries)
            &&& after.len() == entries.len()
            &&& events_slot(entries) matches Some(k) && entries[k].1 matches JsonView::Array(items)
                && after[k].1 == JsonView::Array(items.push(event))
                && after[k].0 == entries[k].0
                && forall|j: int| 0 <= j < entries.len() && j != k ==> #[trigger] after[j] == entries[j]
        },
{
    if let JsonView::Object(entries) = plan {
        crate::text::lemma_first_index_bounds(entries.len() as int, events_key(entries));
    }
}

} // verus!
