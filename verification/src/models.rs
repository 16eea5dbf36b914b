//! Plain data types exchanged between the library and the desktop shell.

use vstd::prelude::*;
use crate::text::owned;

verus! {

/// Availability of a capability such as an AI provider.
#[derive(Clone, Copy, Debug, PartialEq, Eq, Structural)]
pub enum CapabilityState {
    Available,
    NotConnected,
    Unavailable,
    RequiresConfiguration,
    Disabled,
}

/// The five risk classes of the security gate, from least to most dangerous.
#[derive(Clone, Copy, Debug, PartialEq, Eq, Structural)]
pub enum RiskLevel {
    ReadOnly,
    Safe,
    Sensitive,
    Destructive,
    Critical,
}

/// Position of a risk class in the order `ReadOnly < Safe < Sensitive < Destructive < Critical`.
pub open spec fn risk_rank(r: RiskLevel) -> int {
    match r {
        RiskLevel::ReadOnly => 0,
        RiskLevel::Safe => 1,
        RiskLevel::Sensitive => 2,
        RiskLevel::Destructive => 3,
        RiskLevel::Critical => 4,
    }
}

/// The upper-case name under which a risk class is stored in records
/// (the class names of the risk table: `READ_ONLY`, `SAFE`, `SENSITIVE`,
/// `DESTRUCTIVE`, `CRITICAL`).
pub open spec fn risk_label_spec(r: RiskLevel) -> Seq<char> {
    match r {
        RiskLevel::ReadOnly => "READ_ONLY"@,
        RiskLevel::Safe => "SAFE"@,
        RiskLevel::Sensitive => "SENSITIVE"@,
        RiskLevel::Destructive => "DESTRUCTIVE"@,
        RiskLevel::Critical => "CRITICAL"@,
    }
}

/// The stored name of a risk class.
pub fn risk_label(r: RiskLevel) -> (s: String)
    ensures
        s@ == risk_label_spec(r),
{
    match r {
        RiskLevel::ReadOnly => owned("READ_ONLY"),
        RiskLevel::Safe => owned("SAFE"),
        RiskLevel::Sensitive => owned("SENSITIVE"),
        RiskLevel::Destructive => owned("DESTRUCTIVE"),
        RiskLevel::Critical => owned("CRITICAL"),
    }
}

/// How often and how fast a step is retried.
pub struct RetryPolicy {
    pub max_attempts: u8,
    pub backoff_ms: u64,
}

/// Health and configuration of one AI provider, as shown to the user.
pub struct ProviderStatus {
    pub id: String,
    pub label: String,
    pub state: CapabilityState,
    pub active_model: Option<String>,
    pub capabilities: Vec<String>,
    pub latency_ms: Option<u64>,
    pub detail: Option<String>,
}

/// Progress of a task in steps.
pub struct TaskProgress {
    pub completed: u32,
    pub total: u32,
}

/// One entry of a task's event log; `at` is its RFC 3339 UTC time.
pub struct TaskEvent {
    pub id: String,
    pub at: String,
    pub kind: String,
    pub label: String,
    pub detail: String,
}

/// A task as listed to the user; times are RFC 3339 UTC texts.
pub struct TaskSummary {
    pub id: String,
    pub title: String,
    pub status: String,
    pub created_at: String,
    pub completed_at: Option<String>,
    pub progress: Option<TaskProgress>,
    pub events: Vec<TaskEvent>,
}

/// The privacy switches of the Privacy Center.
pub struct PrivacyState {
    pub microphone: bool,
    pub camera: bool,
    pub screen_capture: bool,
    pub filesystem: bool,
    pub browser: bool,
    pub network: bool,
    pub memory: bool,
}

/// A command typed by the user, with the paths of attached files.
pub struct CommandRequest {
    pub text: String,
    pub attachments: Vec<String>,
}

/// A moment as seconds since the Unix epoch and nanoseconds within the second.
#[derive(Clone, Copy, Debug, PartialEq, Eq, Structural)]
pub struct Instant {
    pub secs: i64,
    pub nanos: u32,
}

/// A pending request for the user's approval; it expires at `expires_at`.
pub struct ApprovalRequest {
    pub id: String,
    pub action: String,
    pub risk: RiskLevel,
    pub summary: String,
    pub expires_at: Instant,
}

/// A source cited in an answer, retrieved at `retrieved_at_unix` (seconds since the Unix epoch).
pub struct Citation {
    pub title: String,
    pub url: String,
    pub retrieved_at_unix: i64,
}

/// The answer to a command.
pub struct CommandResponse {
    pub task_id: String,
    pub state: String,
    pub message: String,
    pub provider: Option<String>,
    pub model: Option<String>,
    pub route_reason: Option<String>,
    pub approval: Option<ApprovalRequest>,
    pub citations: Vec<Citation>,
}

impl CommandResponse {
    /// A response in state `COMPLETED` with no provider, approval or citation.
    pub fn completed(task_id: String, message: String) -> (r: Self)
        ensures
            r.task_id@ == task_id@,
            r.state@ == "COMPLETED"@,
            r.message@ == message@,
            r.provider is None,
            r.model is None,
            r.route_reason is None,
            r.approval is None,
            r.citations@.len() == 0,
    {
        CommandResponse {
            task_id,
            state: owned("COMPLETED"),
            message,
            provider: None,
            model: None,
            route_reason: None,
            approval: None,
            citations: Vec::new(),
        }
    }

    /// A response in state `FAILED` with no provider, approval or citation.
    pub fn failed(task_id: String, message: String) -> (r: Self)
        ensures
            r.task_id@ == task_id@,
            r.state@ == "FAILED"@,
            r.message@ == message@,
            r.provider is None,
            r.model is None,
            r.route_reason is None,
            r.approval is None,
            r.citations@.len() == 0,
    {
        CommandResponse {
            task_id,
            state: owned("FAILED"),
            message,
            provider: None,
            model: None,
            route_reason: None,
            approval: None,
            citations: Vec::new(),
        }
    }
}

} // verus!
