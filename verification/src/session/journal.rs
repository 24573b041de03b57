//! What is shown of the journal of a session.

use vstd::prelude::*;
use vstd::string::*;

use crate::clock::{parse_rfc3339, rfc3339_of, utc_text, utc_text_of, LISTING_TIME};
use crate::json::{
    array_in, bool_in, get, json_parse_of, json_text, json_text_of, parse_json, text_in, u64_in,
    JsonValue, JsonView,
};
use crate::table::{left_in, pad_left, pad_right, right_in};
use crate::text::{
    contains_text, decimal, decimal_string, ellipsized, has_suffix, opt_view, owned,
    parts_stand_in_the_whole, same, truncate,
};

verus! {

/// The kinds of events in a journal.
#[derive(Debug, Clone, Copy, PartialEq, Eq, Structural)]
pub enum RolloutEventType {
    UserInputAccepted,
    ModelItemProduced,
    ToolCallPrepared,
    ToolExecutionStarted,
    ToolExecutionFinished,
    ToolResultCommitted,
    RuntimeStateChanged,
    TurnCompleted,
    CompactionCommitted,
    CompactionStarted,
    CompactionFailed,
    CompactionCandidateBuilt,
    ProjectionPruned,
    PromptSnapshotBuilt,
    SubAgentTaskStarted,
    SubAgentTaskFinished,
    ModelRouteEvent,
    CapabilityPromoted,
    CapabilityCallRejectedStale,
    SessionStarted,
    TurnStarted,
    ModelAttemptStarted,
    ModelAttemptFinished,
    EffectiveToolCallRevisionCreated,
    ContextRestored,
    ToolCallApproved,
    ToolOutcomeIndeterminate,
    ToolOutcomeResolved,
    ApprovalRequested,
    ApprovalResolved,
    LeaseIssued,
    LeaseConsumed,
    LeaseExpired,
    SkillSnapshotRecorded,
    AppOnlyToolCall,
}

/// The name of a kind of event.
pub open spec fn event_name(e: RolloutEventType) -> Seq<char> {
    match e {
        RolloutEventType::UserInputAccepted => "UserInputAccepted"@,
        RolloutEventType::ModelItemProduced => "ModelItemProduced"@,
        RolloutEventType::ToolCallPrepared => "ToolCallPrepared"@,
        RolloutEventType::ToolExecutionStarted => "ToolExecutionStarted"@,
        RolloutEventType::ToolExecutionFinished => "ToolExecutionFinished"@,
        RolloutEventType::ToolResultCommitted => "ToolResultCommitted"@,
        RolloutEventType::RuntimeStateChanged => "RuntimeStateChanged"@,
        RolloutEventType::TurnCompleted => "TurnCompleted"@,
        RolloutEventType::CompactionCommitted => "CompactionCommitted"@,
        RolloutEventType::CompactionStarted => "CompactionStarted"@,
        RolloutEventType::CompactionFailed => "CompactionFailed"@,
        RolloutEventType::CompactionCandidateBuilt => "CompactionCandidateBuilt"@,
        RolloutEventType::ProjectionPruned => "ProjectionPruned"@,
        RolloutEventType::PromptSnapshotBuilt => "PromptSnapshotBuilt"@,
        RolloutEventType::SubAgentTaskStarted => "SubAgentTaskStarted"@,
        RolloutEventType::SubAgentTaskFinished => "SubAgentTaskFinished"@,
        RolloutEventType::ModelRouteEvent => "ModelRouteEvent"@,
        RolloutEventType::CapabilityPromoted => "CapabilityPromoted"@,
        RolloutEventType::CapabilityCallRejectedStale => "CapabilityCallRejectedStale"@,
        RolloutEventType::SessionStarted => "SessionStarted"@,
        RolloutEventType::TurnStarted => "TurnStarted"@,
        RolloutEventType::ModelAttemptStarted => "ModelAttemptStarted"@,
        RolloutEventType::ModelAttemptFinished => "ModelAttemptFinished"@,
        RolloutEventType::EffectiveToolCallRevisionCreated => "EffectiveToolCallRevisionCreated"@,
        RolloutEventType::ContextRestored => "ContextRestored"@,
        RolloutEventType::ToolCallApproved => "ToolCallApproved"@,
        RolloutEventType::ToolOutcomeIndeterminate => "ToolOutcomeIndeterminate"@,
        RolloutEventType::ToolOutcomeResolved => "ToolOutcomeResolved"@,
        RolloutEventType::ApprovalRequested => "ApprovalRequested"@,
        RolloutEventType::ApprovalResolved => "ApprovalResolved"@,
        RolloutEventType::LeaseIssued => "LeaseIssued"@,
        RolloutEventType::LeaseConsumed => "LeaseConsumed"@,
        RolloutEventType::LeaseExpired => "LeaseExpired"@,
        RolloutEventType::SkillSnapshotRecorded => "SkillSnapshotRecorded"@,
        RolloutEventType::AppOnlyToolCall => "AppOnlyToolCall"@,
    }
}

impl RolloutEventType {
    /// The name of the kind.
    pub fn name(self) -> (r: &'static str)
        ensures
            r@ == event_name(self),
    {
        match self {
            RolloutEventType::UserInputAccepted => "UserInputAccepted",
            RolloutEventType::ModelItemProduced => "ModelItemProduced",
            RolloutEventType::ToolCallPrepared => "ToolCallPrepared",
            RolloutEventType::ToolExecutionStarted => "ToolExecutionStarted",
            RolloutEventType::ToolExecutionFinished => "ToolExecutionFinished",
            RolloutEventType::ToolResultCommitted => "ToolResultCommitted",
            RolloutEventType::RuntimeStateChanged => "RuntimeStateChanged",
            RolloutEventType::TurnCompleted => "TurnCompleted",
            RolloutEventType::CompactionCommitted => "CompactionCommitted",
            RolloutEventType::CompactionStarted => "CompactionStarted",
            RolloutEventType::CompactionFailed => "CompactionFailed",
            RolloutEventType::CompactionCandidateBuilt => "CompactionCandidateBuilt",
            RolloutEventType::ProjectionPruned => "ProjectionPruned",
            RolloutEventType::PromptSnapshotBuilt => "PromptSnapshotBuilt",
            RolloutEventType::SubAgentTaskStarted => "SubAgentTaskStarted",
            RolloutEventType::SubAgentTaskFinished => "SubAgentTaskFinished",
            RolloutEventType::ModelRouteEvent => "ModelRouteEvent",
            RolloutEventType::CapabilityPromoted => "CapabilityPromoted",
            RolloutEventType::CapabilityCallRejectedStale => "CapabilityCallRejectedStale",
            RolloutEventType::SessionStarted => "SessionStarted",
            RolloutEventType::TurnStarted => "TurnStarted",
            RolloutEventType::ModelAttemptStarted => "ModelAttemptStarted",
            RolloutEventType::ModelAttemptFinished => "ModelAttemptFinished",
            RolloutEventType::EffectiveToolCallRevisionCreated => "EffectiveToolCallRevisionCreated",
            RolloutEventType::ContextRestored => "ContextRestored",
            RolloutEventType::ToolCallApproved => "ToolCallApproved",
            RolloutEventType::ToolOutcomeIndeterminate => "ToolOutcomeIndeterminate",
            RolloutEventType::ToolOutcomeResolved => "ToolOutcomeResolved",
            RolloutEventType::ApprovalRequested => "ApprovalRequested",
            RolloutEventType::ApprovalResolved => "ApprovalResolved",
            RolloutEventType::LeaseIssued => "LeaseIssued",
            RolloutEventType::LeaseConsumed => "LeaseConsumed",
            RolloutEventType::LeaseExpired => "LeaseExpired",
            RolloutEventType::SkillSnapshotRecorded => "SkillSnapshotRecorded",
            RolloutEventType::AppOnlyToolCall => "AppOnlyToolCall",
        }
    }

    /// The kind with a name, if there is one.
    pub fn from_name(name: &str) -> (r: Option<Self>)
        ensures
            match r {
                Some(e) => event_name(e) == name@,
                None => forall|e: RolloutEventType| #[trigger] event_name(e) != name@,
            },
    {
        if same(name, "UserInputAccepted") {
            return Some(RolloutEventType::UserInputAccepted);
        }
        if same(name, "ModelItemProduced") {
            return Some(RolloutEventType::ModelItemProduced);
        }
        if same(name, "ToolCallPrepared") {
            return Some(RolloutEventType::ToolCallPrepared);
        }
        if same(name, "ToolExecutionStarted") {
            return Some(RolloutEventType::ToolExecutionStarted);
        }
        if same(name, "ToolExecutionFinished") {
            return Some(RolloutEventType::ToolExecutionFinished);
        }
        if same(name, "ToolResultCommitted") {
            return Some(RolloutEventType::ToolResultCommitted);
        }
        if same(name, "RuntimeStateChanged") {
            return Some(RolloutEventType::RuntimeStateChanged);
        }
        if same(name, "TurnCompleted") {
            return Some(RolloutEventType::TurnCompleted);
        }
        if same(name, "CompactionCommitted") {
            return Some(RolloutEventType::CompactionCommitted);
        }
        if same(name, "CompactionStarted") {
            return Some(RolloutEventType::CompactionStarted);
        }
        if same(name, "CompactionFailed") {
            return Some(RolloutEventType::CompactionFailed);
        }
        if same(name, "CompactionCandidateBuilt") {
            return Some(RolloutEventType::CompactionCandidateBuilt);
        }
        if same(name, "ProjectionPruned") {
            return Some(RolloutEventType::ProjectionPruned);
        }
        if same(name, "PromptSnapshotBuilt") {
            return Some(RolloutEventType::PromptSnapshotBuilt);
        }
        if same(name, "SubAgentTaskStarted") {
            return Some(RolloutEventType::SubAgentTaskStarted);
        }
        if same(name, "SubAgentTaskFinished") {
            return Some(RolloutEventType::SubAgentTaskFinished);
        }
        if same(name, "ModelRouteEvent") {
            return Some(RolloutEventType::ModelRouteEvent);
        }
        if same(name, "CapabilityPromoted") {
            return Some(RolloutEventType::CapabilityPromoted);
        }
        if same(name, "CapabilityCallRejectedStale") {
            return Some(RolloutEventType::CapabilityCallRejectedStale);
        }
        if same(name, "SessionStarted") {
            return Some(RolloutEventType::SessionStarted);
        }
        if same(name, "TurnStarted") {
            return Some(RolloutEventType::TurnStarted);
        }
        if same(name, "ModelAttemptStarted") {
            return Some(RolloutEventType::ModelAttemptStarted);
        }
        if same(name, "ModelAttemptFinished") {
            return Some(RolloutEventType::ModelAttemptFinished);
        }
        if same(name, "EffectiveToolCallRevisionCreated") {
            return Some(RolloutEventType::EffectiveToolCallRevisionCreated);
        }
        if same(name, "ContextRestored") {
            return Some(RolloutEventType::ContextRestored);
        }
        if same(name, "ToolCallApproved") {
            return Some(RolloutEventType::ToolCallApproved);
        }
        if same(name, "ToolOutcomeIndeterminate") {
            return Some(RolloutEventType::ToolOutcomeIndeterminate);
        }
        if same(name, "ToolOutcomeResolved") {
            return Some(RolloutEventType::ToolOutcomeResolved);
        }
        if same(name, "ApprovalRequested") {
            return Some(RolloutEventType::ApprovalRequested);
        }
        if same(name, "ApprovalResolved") {
            return Some(RolloutEventType::ApprovalResolved);
        }
        if same(name, "LeaseIssued") {
            return Some(RolloutEventType::LeaseIssued);
        }
        if same(name, "LeaseConsumed") {
            return Some(RolloutEventType::LeaseConsumed);
        }
        if same(name, "LeaseExpired") {
            return Some(RolloutEventType::LeaseExpired);
        }
        if same(name, "SkillSnapshotRecorded") {
            return Some(RolloutEventType::SkillSnapshotRecorded);
        }
        if same(name, "AppOnlyToolCall") {
            return Some(RolloutEventType::AppOnlyToolCall);
        }
        None
    }
}

/// The text of a key, or a default.
pub open spec fn text_or(p: JsonView, key: Seq<char>, default: Seq<char>) -> Seq<char> {
    match text_in(get(p, key)) {
        Some(s) => s,
        None => default,
    }
}

/// The unsigned integer of a key, or 0.
pub open spec fn number_or_zero(p: JsonView, key: Seq<char>) -> u64 {
    match u64_in(get(p, key)) {
        Some(n) => n,
        None => 0,
    }
}

/// The number of elements of the array of a key, or 0.
pub open spec fn count_of(p: JsonView, key: Seq<char>) -> nat {
    match array_in(get(p, key)) {
        Some(a) => a.len(),
        None => 0,
    }
}

/// Whether the flag of a key is set.
pub open spec fn flag_of(p: JsonView, key: Seq<char>) -> bool {
    bool_in(get(p, key)) == Some(true)
}

/// The text of a key, or a default.
pub fn text_at_or(p: &JsonValue, key: &str, default: &str) -> (r: String)
    ensures
        r@ == text_or(p@, key@, default@),
{
    match p.text_at(key) {
        Some(s) => s,
        None => owned(default),
    }
}

/// The unsigned integer of a key, or 0.
pub fn number_at(p: &JsonValue, key: &str) -> (r: u64)
    ensures
        r == number_or_zero(p@, key@),
{
    match p.u64_at(key) {
        Some(n) => n,
        None => 0,
    }
}

/// Whether the flag of a key is set.
pub fn flag_at(p: &JsonValue, key: &str) -> (r: bool)
    ensures
        r == flag_of(p@, key@),
{
    match p.bool_at(key) {
        Some(b) => b,
        None => false,
    }
}

/// The line that sums up the model's output.
pub open spec fn model_output_line(text: Seq<char>, tool_calls: nat) -> Seq<char> {
    if text.len() > 0 {
        ellipsized(text, 60)
    } else if tool_calls > 0 {
        "(no text — "@ + decimal(tool_calls) + " tool call(s))"@
    } else {
        "(no text)"@
    }
}

/// The line that sums up an event.
pub open spec fn event_summary(e: RolloutEventType, p: JsonView) -> Seq<char> {
    match e {
        RolloutEventType::UserInputAccepted => ellipsized(text_or(p, "text"@, "?"@), 60),
        RolloutEventType::ModelItemProduced => model_output_line(
            text_or(p, "assistant_text"@, ""@),
            count_of(p, "tool_calls"@),
        ),
        RolloutEventType::ToolExecutionFinished | RolloutEventType::ToolResultCommitted => "call="@
            + text_or(p, "call_id"@, "?"@) + (if flag_of(p, "is_error"@) {
            " ERROR"@
        } else {
            " ok"@
        }),
        RolloutEventType::CompactionStarted
        | RolloutEventType::CompactionFailed
        | RolloutEventType::CompactionCandidateBuilt
        | RolloutEventType::ProjectionPruned
        | RolloutEventType::PromptSnapshotBuilt => ellipsized(json_text_of(p), 60),
        RolloutEventType::SessionStarted => "session start cwd="@ + ellipsized(
            text_or(p, "cwd"@, "?"@),
            40,
        ),
        RolloutEventType::ToolCallPrepared => "phase="@ + text_or(p, "phase"@, "prepared"@),
        RolloutEventType::ToolExecutionStarted => "tool="@ + text_or(p, "name"@, "?"@) + " call="@ + text_or(p, "call_id"@, "?"@),
        RolloutEventType::RuntimeStateChanged => "state="@ + text_or(p, "state"@, "?"@),
        RolloutEventType::TurnCompleted => "turn="@ + text_or(p, "turn_id"@, "?"@) + " done"@,
        RolloutEventType::CompactionCommitted => "compaction ("@ + decimal(count_of(p, "items"@)) + " items)"@,
        RolloutEventType::SubAgentTaskStarted => "subagent="@ + text_or(p, "label"@, "?"@) + " agent="@ + text_or(p, "agent_id"@, "?"@),
        RolloutEventType::SubAgentTaskFinished => "task="@ + text_or(p, "task_id"@, "?"@) + " status="@ + text_or(p, "status"@, "?"@),
        RolloutEventType::ModelRouteEvent => "route="@ + text_or(p, "event_kind"@, "?"@) + " candidate="@ + text_or(p, "candidate_id"@, "?"@),
        RolloutEventType::CapabilityPromoted => "promoted cap="@ + text_or(p, "capability_id"@, "?"@),
        RolloutEventType::CapabilityCallRejectedStale => "rejected stale cap="@ + text_or(p, "capability_id"@, "?"@) + " gen="@ + decimal(number_or_zero(p, "bound_generation"@) as nat),
        RolloutEventType::TurnStarted => "turn started ("@ + decimal(number_or_zero(p, "input_chars"@) as nat) + " chars)"@,
        RolloutEventType::ModelAttemptStarted => "attempt "@ + text_or(p, "provider"@, "?"@) + "/"@ + text_or(p, "model"@, "?"@),
        RolloutEventType::ModelAttemptFinished => "attempt "@ + text_or(p, "status"@, "?"@) + " x"@ + decimal(number_or_zero(p, "attempts"@) as nat) + " "@ + decimal(number_or_zero(p, "duration_ms"@) as nat) + "ms"@,
        RolloutEventType::EffectiveToolCallRevisionCreated => "revision call="@ + text_or(p, "tool_call_id"@, "?"@) + " rev="@ + decimal(number_or_zero(p, "revision"@) as nat),
        RolloutEventType::ContextRestored => "restored "@ + decimal(count_of(p, "items"@)) + " items"@,
        RolloutEventType::ToolCallApproved => "approved tool="@ + text_or(p, "name"@, "?"@) + " call="@ + text_or(p, "call_id"@, "?"@),
        RolloutEventType::ToolOutcomeIndeterminate => "INDETERMINATE tool="@ + text_or(p, "name"@, "?"@) + " call="@ + text_or(p, "call_id"@, "?"@) + " reason="@ + text_or(p, "reason"@, "?"@),
        RolloutEventType::ToolOutcomeResolved => "RESOLVED call="@ + text_or(p, "call_id"@, "?"@) + " resolution="@ + text_or(p, "resolution"@, "?"@),
        RolloutEventType::ApprovalRequested => "approval requested ticket="@ + text_or(p, "ticket_id"@, "?"@) + " tool="@ + text_or(p, "tool_name"@, "?"@),
        RolloutEventType::ApprovalResolved => "approval resolved ticket="@ + text_or(p, "ticket_id"@, "?"@) + " "@ + text_or(p, "resolution"@, "?"@),
        RolloutEventType::LeaseIssued => "lease issued id="@ + text_or(p, "lease_id"@, "?"@) + " call="@ + text_or(p, "call_id"@, "?"@),
        RolloutEventType::LeaseConsumed => "lease consumed id="@ + text_or(p, "lease_id"@, "?"@) + " call="@ + text_or(p, "call_id"@, "?"@),
        RolloutEventType::LeaseExpired => "lease expired id="@ + text_or(p, "lease_id"@, "?"@) + " reason="@ + text_or(p, "reason"@, "?"@),
        RolloutEventType::SkillSnapshotRecorded => "skill snapshot gen="@ + decimal(number_or_zero(p, "skill_generation"@) as nat) + " count="@ + decimal(count_of(p, "skills"@)),
        RolloutEventType::AppOnlyToolCall => "app-only tool="@ + text_or(p, "tool_name"@, "?"@) + " reason="@ + text_or(p, "reason"@, "?"@),
    }
}

/// Sums an event up in a line.
pub fn summarize_payload(event_type: RolloutEventType, payload: &JsonValue) -> (r: String)
    ensures
        r@ == event_summary(event_type, payload@),
{
    match event_type {
        RolloutEventType::UserInputAccepted => truncate(
            text_at_or(payload, "text", "?").as_str(),
            60,
        ),
        RolloutEventType::ModelItemProduced => {
            let text = text_at_or(payload, "assistant_text", "");
            let tool_calls: usize = payload.count_at("tool_calls");
            if !text.as_str().is_empty() {
                truncate(text.as_str(), 60)
            } else if tool_calls > 0 {
                let mut s = owned("(no text — ");
                s.append(decimal_string(tool_calls as u64).as_str());
                s.append(" tool call(s))");
                s
            } else {
                owned("(no text)")
            }
        },
        RolloutEventType::ToolExecutionFinished | RolloutEventType::ToolResultCommitted => {
            let mut s = owned("call=");
            s.append(text_at_or(payload, "call_id", "?").as_str());
            if flag_at(payload, "is_error") {
                s.append(" ERROR");
            } else {
                s.append(" ok");
            }
            s
        },
        RolloutEventType::CompactionStarted
        | RolloutEventType::CompactionFailed
        | RolloutEventType::CompactionCandidateBuilt
        | RolloutEventType::ProjectionPruned
        | RolloutEventType::PromptSnapshotBuilt => truncate(json_text(payload).as_str(), 60),
        RolloutEventType::SessionStarted => {
            let mut s = owned("session start cwd=");
            s.append(truncate(text_at_or(payload, "cwd", "?").as_str(), 40).as_str());
            s
        },
        RolloutEventType::ToolCallPrepared => {
            let mut s = owned("phase=");
            s.append(text_at_or(payload, "phase", "prepared").as_str());
            s
        },
        RolloutEventType::ToolExecutionStarted => {
            let mut s = owned("tool=");
            s.append(text_at_or(payload, "name", "?").as_str());
            s.append(" call=");
            s.append(text_at_or(payload, "call_id", "?").as_str());
            s
        },
        RolloutEventType::RuntimeStateChanged => {
            let mut s = owned("state=");
            s.append(text_at_or(payload, "state", "?").as_str());
            s
        },
        RolloutEventType::TurnCompleted => {
            let mut s = owned("turn=");
            s.append(text_at_or(payload, "turn_id", "?").as_str());
            s.append(" done");
            s
        },
        RolloutEventType::CompactionCommitted => {
            let mut s = owned("compaction (");
            s.append(decimal_string(payload.count_at("items") as u64).as_str());
            s.append(" items)");
            s
        },
        RolloutEventType::SubAgentTaskStarted => {
            let mut s = owned("subagent=");
            s.append(text_at_or(payload, "label", "?").as_str());
            s.append(" agent=");
            s.append(text_at_or(payload, "agent_id", "?").as_str());
            s
        },
        RolloutEventType::SubAgentTaskFinished => {
            let mut s = owned("task=");
            s.append(text_at_or(payload, "task_id", "?").as_str());
            s.append(" status=");
            s.append(text_at_or(payload, "status", "?").as_str());
            s
        },
        RolloutEventType::ModelRouteEvent => {
            let mut s = owned("route=");
            s.append(text_at_or(payload, "event_kind", "?").as_str());
            s.append(" candidate=");
            s.append(text_at_or(payload, "candidate_id", "?").as_str());
            s
        },
        RolloutEventType::CapabilityPromoted => {
            let mut s = owned("promoted cap=");
            s.append(text_at_or(payload, "capability_id", "?").as_str());
            s
        },
        RolloutEventType::CapabilityCallRejectedStale => {
            let mut s = owned("rejected stale cap=");
            s.append(text_at_or(payload, "capability_id", "?").as_str());
            s.append(" gen=");
            s.append(decimal_string(number_at(payload, "bound_generation")).as_str());
            s
        },
        RolloutEventType::TurnStarted => {
            let mut s = owned("turn started (");
            s.append(decimal_string(number_at(payload, "input_chars")).as_str());
            s.append(" chars)");
            s
        },
        RolloutEventType::ModelAttemptStarted => {
            let mut s = owned("attempt ");
            s.append(text_at_or(payload, "provider", "?").as_str());
            s.append("/");
            s.append(text_at_or(payload, "model", "?").as_str());
            s
        },
        RolloutEventType::ModelAttemptFinished => {
            let mut s = owned("attempt ");
            s.append(text_at_or(payload, "status", "?").as_str());
            s.append(" x");
            s.append(decimal_string(number_at(payload, "attempts")).as_str());
            s.append(" ");
            s.append(decimal_string(number_at(payload, "duration_ms")).as_str());
            s.append("ms");
            s
        },
        RolloutEventType::EffectiveToolCallRevisionCreated => {
            let mut s = owned("revision call=");
            s.append(text_at_or(payload, "tool_call_id", "?").as_str());
            s.append(" rev=");
            s.append(decimal_string(number_at(payload, "revision")).as_str());
            s
        },
        RolloutEventType::ContextRestored => {
            let mut s = owned("restored ");
            s.append(decimal_string(payload.count_at("items") as u64).as_str());
            s.append(" items");
            s
        },
        RolloutEventType::ToolCallApproved => {
            let mut s = owned("approved tool=");
            s.append(text_at_or(payload, "name", "?").as_str());
            s.append(" call=");
            s.append(text_at_or(payload, "call_id", "?").as_str());
            s
        },
        RolloutEventType::ToolOutcomeIndeterminate => {
            let mut s = owned("INDETERMINATE tool=");
            s.append(text_at_or(payload, "name", "?").as_str());
            s.append(" call=");
            s.append(text_at_or(payload, "call_id", "?").as_str());
            s.append(" reason=");
            s.append(text_at_or(payload, "reason", "?").as_str());
            s
        },
        RolloutEventType::ToolOutcomeResolved => {
            let mut s = owned("RESOLVED call=");
            s.append(text_at_or(payload, "call_id", "?").as_str());
            s.append(" resolution=");
            s.append(text_at_or(payload, "resolution", "?").as_str());
            s
        },
        RolloutEventType::ApprovalRequested => {
            let mut s = owned("approval requested ticket=");
            s.append(text_at_or(payload, "ticket_id", "?").as_str());
            s.append(" tool=");
            s.append(text_at_or(payload, "tool_name", "?").as_str());
            s
        },
        RolloutEventType::ApprovalResolved => {
            let mut s = owned("approval resolved ticket=");
            s.append(text_at_or(payload, "ticket_id", "?").as_str());
            s.append(" ");
            s.append(text_at_or(payload, "resolution", "?").as_str());
            s
        },
        RolloutEventType::LeaseIssued => {
            let mut s = owned("lease issued id=");
            s.append(text_at_or(payload, "lease_id", "?").as_str());
            s.append(" call=");
            s.append(text_at_or(payload, "call_id", "?").as_str());
            s
        },
        RolloutEventType::LeaseConsumed => {
            let mut s = owned("lease consumed id=");
            s.append(text_at_or(payload, "lease_id", "?").as_str());
            s.append(" call=");
            s.append(text_at_or(payload, "call_id", "?").as_str());
            s
        },
        RolloutEventType::LeaseExpired => {
            let mut s = owned("lease expired id=");
            s.append(text_at_or(payload, "lease_id", "?").as_str());
            s.append(" reason=");
            s.append(text_at_or(payload, "reason", "?").as_str());
            s
        },
        RolloutEventType::SkillSnapshotRecorded => {
            let mut s = owned("skill snapshot gen=");
            s.append(decimal_string(number_at(payload, "skill_generation")).as_str());
            s.append(" count=");
            s.append(decimal_string(payload.count_at("skills") as u64).as_str());
            s
        },
        RolloutEventType::AppOnlyToolCall => {
            let mut s = owned("app-only tool=");
            s.append(text_at_or(payload, "tool_name", "?").as_str());
            s.append(" reason=");
            s.append(text_at_or(payload, "reason", "?").as_str());
            s
        },
    }
}

/// The line of an event in the listing of a journal.
pub open spec fn inspect_line_of(seq: u64, e: RolloutEventType, time: Seq<char>, p: JsonView) -> Seq<
    char,
> {
    right_in(decimal(seq as nat), 4) + "  "@ + left_in(event_name(e), 28) + "  "@ + left_in(time, 24)
        + "  "@ + event_summary(e, p)
}

/// Lists an event: its number, kind, time and summary.
pub fn inspect_line(seq: u64, event_type: RolloutEventType, time: &str, payload: &JsonValue) -> (r:
    String)
    ensures
        r@ == inspect_line_of(seq, event_type, time@, payload@),
{
    let mut s = pad_left(decimal_string(seq).as_str(), 4);
    s.append("  ");
    s.append(pad_right(event_type.name(), 28).as_str());
    s.append("  ");
    s.append(pad_right(time, 24).as_str());
    s.append("  ");
    s.append(summarize_payload(event_type, payload).as_str());
    s
}

/// A time as a listing shows it; what names no time is shown as it stands.
pub open spec fn listed_time_of(text: Seq<char>) -> Seq<char> {
    match rfc3339_of(text) {
        Some(t) => match utc_text_of(t.0, t.1, LISTING_TIME@) {
            Some(s) => s,
            None => text,
        },
        None => text,
    }
}

/// A time as a listing shows it.
pub fn listed_time(text: &str) -> (r: String)
    ensures
        r@ == listed_time_of(text@),
{
    match parse_rfc3339(text) {
        Some((secs, nanos)) => match utc_text(secs, nanos, LISTING_TIME) {
            Some(s) => s,
            None => owned(text),
        },
        None => owned(text),
    }
}

/// Whether `r` is what a listing shows of an event that was read from a
/// journal: its line, where its kind is known.
pub open spec fn is_listed(v: JsonView, r: Option<Seq<char>>) -> bool {
    let name = text_or(v, "event_type"@, ""@);
    let payload = match get(v, "payload"@) {
        Some(p) => p,
        None => JsonView::Null,
    };
    match r {
        Some(s) => exists|e: RolloutEventType| #[trigger]
            event_name(e) == name && s == inspect_line_of(
                number_or_zero(v, "seq"@),
                e,
                listed_time_of(text_or(v, "timestamp"@, ""@)),
                payload,
            ),
        None => forall|e: RolloutEventType| #[trigger] event_name(e) != name,
    }
}

/// What a listing shows of an event.
pub fn inspect_event(event: &JsonValue) -> (r: Option<String>)
    ensures
        is_listed(event@, opt_view(r)),
{
    let kind = match RolloutEventType::from_name(text_at_or(event, "event_type", "").as_str()) {
        Some(e) => e,
        None => {
            return None;
        },
    };
    let seq: u64 = number_at(event, "seq");
    let time = listed_time(text_at_or(event, "timestamp", "").as_str());
    let line = match event.get("payload") {
        Some(p) => inspect_line(seq, kind, time.as_str(), p),
        None => inspect_line(seq, kind, time.as_str(), &JsonValue::Null),
    };
    assert(event_name(kind) == text_or(event@, "event_type"@, ""@));
    Some(line)
}

/// What a listing shows of a line of a journal: nothing where it is no JSON
/// or tells of an event of no known kind.
pub fn inspect_text(line: &str) -> (r: Option<String>)
    ensures
        match json_parse_of(line@) {
            Ok(v) => is_listed(v, opt_view(r)),
            Err(_) => r is None,
        },
{
    match parse_json(line) {
        Ok(v) => inspect_event(&v),
        Err(_) => None,
    }
}

/// No summary of a user's or a model's text is longer than 61 characters.
pub proof fn summaries_of_text_are_short(p: JsonView)
    ensures
        event_summary(RolloutEventType::UserInputAccepted, p).len() <= 61,
        event_summary(RolloutEventType::CompactionStarted, p).len() <= 61,
{
}

/// The line of an event shows what the event speaks of: texts, numbers and
/// counts, each from its own place in the payload.
pub proof fn summaries_show_what_events_speak_of(
    e: RolloutEventType,
    p: JsonView,
    v: Seq<char>,
    n: u64,
    a: Seq<JsonView>,
)
    ensures
        (e is ToolCallPrepared) && text_in(get(p, "phase"@)) == Some(v) ==> contains_text(
            event_summary(e, p),
            v,
        ),
        (e is ToolExecutionStarted || e is ToolCallApproved || e is ToolOutcomeIndeterminate) && text_in(get(p, "name"@)) == Some(v) ==> contains_text(
            event_summary(e, p),
            v,
        ),
        (e is ToolExecutionStarted || e is ToolCallApproved || e is ToolOutcomeIndeterminate || e is ToolOutcomeResolved || e is LeaseIssued || e is LeaseConsumed || e is ToolExecutionFinished || e is ToolResultCommitted) && text_in(get(p, "call_id"@)) == Some(v) ==> contains_text(
            event_summary(e, p),
            v,
        ),
        (e is RuntimeStateChanged) && text_in(get(p, "state"@)) == Some(v) ==> contains_text(
            event_summary(e, p),
            v,
        ),
        (e is TurnCompleted) && text_in(get(p, "turn_id"@)) == Some(v) ==> contains_text(
            event_summary(e, p),
            v,
        ),
        (e is CompactionCommitted || e is ContextRestored) && array_in(get(p, "items"@)) == Some(a) ==> contains_text(
            event_summary(e, p),
            decimal(a.len()),
        ),
        (e is SubAgentTaskStarted) && text_in(get(p, "label"@)) == Some(v) ==> contains_text(
            event_summary(e, p),
            v,
        ),
        (e is SubAgentTaskStarted) && text_in(get(p, "agent_id"@)) == Some(v) ==> contains_text(
            event_summary(e, p),
            v,
        ),
        (e is SubAgentTaskFinished) && text_in(get(p, "task_id"@)) == Some(v) ==> contains_text(
            event_summary(e, p),
            v,
        ),
        (e is SubAgentTaskFinished || e is ModelAttemptFinished) && text_in(get(p, "status"@)) == Some(v) ==> contains_text(
            event_summary(e, p),
            v,
        ),
        (e is ModelRouteEvent) && text_in(get(p, "event_kind"@)) == Some(v) ==> contains_text(
            event_summary(e, p),
            v,
        ),
        (e is ModelRouteEvent) && text_in(get(p, "candidate_id"@)) == Some(v) ==> contains_text(
            event_summary(e, p),
            v,
        ),
        (e is CapabilityPromoted || e is CapabilityCallRejectedStale) && text_in(get(p, "capability_id"@)) == Some(v) ==> contains_text(
            event_summary(e, p),
            v,
        ),
        (e is CapabilityCallRejectedStale) && u64_in(get(p, "bound_generation"@)) == Some(n) ==> contains_text(
            event_summary(e, p),
            decimal(n as nat),
        ),
        (e is TurnStarted) && u64_in(get(p, "input_chars"@)) == Some(n) ==> contains_text(
            event_summary(e, p),
            decimal(n as nat),
        ),
        (e is ModelAttemptStarted) && text_in(get(p, "provider"@)) == Some(v) ==> contains_text(
            event_summary(e, p),
            v,
        ),
        (e is ModelAttemptStarted) && text_in(get(p, "model"@)) == Some(v) ==> contains_text(
            event_summary(e, p),
            v,
        ),
        (e is ModelAttemptFinished) && u64_in(get(p, "attempts"@)) == Some(n) ==> contains_text(
            event_summary(e, p),
            decimal(n as nat),
        ),
        (e is ModelAttemptFinished) && u64_in(get(p, "duration_ms"@)) == Some(n) ==> contains_text(
            event_summary(e, p),
            decimal(n as nat),
        ),
        (e is EffectiveToolCallRevisionCreated) && text_in(get(p, "tool_call_id"@)) == Some(v) ==> contains_text(
            event_summary(e, p),
            v,
        ),
        (e is EffectiveToolCallRevisionCreated) && u64_in(get(p, "revision"@)) == Some(n) ==> contains_text(
            event_summary(e, p),
            decimal(n as nat),
        ),
        (e is ToolOutcomeIndeterminate || e is LeaseExpired || e is AppOnlyToolCall) && text_in(get(p, "reason"@)) == Some(v) ==> contains_text(
            event_summary(e, p),
            v,
        ),
        (e is ToolOutcomeResolved || e is ApprovalResolved) && text_in(get(p, "resolution"@)) == Some(v) ==> contains_text(
            event_summary(e, p),
            v,
        ),
        (e is ApprovalRequested || e is ApprovalResolved) && text_in(get(p, "ticket_id"@)) == Some(v) ==> contains_text(
            event_summary(e, p),
            v,
        ),
        (e is ApprovalRequested || e is AppOnlyToolCall) && text_in(get(p, "tool_name"@)) == Some(v) ==> contains_text(
            event_summary(e, p),
            v,
        ),
        (e is LeaseIssued || e is LeaseConsumed || e is LeaseExpired) && text_in(get(p, "lease_id"@)) == Some(v) ==> contains_text(
            event_summary(e, p),
            v,
        ),
        (e is SkillSnapshotRecorded) && u64_in(get(p, "skill_generation"@)) == Some(n) ==> contains_text(
            event_summary(e, p),
            decimal(n as nat),
        ),
        (e is SkillSnapshotRecorded) && array_in(get(p, "skills"@)) == Some(a) ==> contains_text(
            event_summary(e, p),
            decimal(a.len()),
        ),
{
    match e {
        RolloutEventType::ToolCallPrepared => {
            parts_stand_in_the_whole("phase="@, text_or(p, "phase"@, "prepared"@), Seq::empty());
        },
        RolloutEventType::ToolExecutionStarted => {
            lemma_two_are_shown(
                "tool="@,
                text_or(p, "name"@, "?"@),
                " call="@,
                text_or(p, "call_id"@, "?"@),
            );
        },
        RolloutEventType::RuntimeStateChanged => {
            parts_stand_in_the_whole("state="@, text_or(p, "state"@, "?"@), Seq::empty());
        },
        RolloutEventType::TurnCompleted => {
            parts_stand_in_the_whole("turn="@, text_or(p, "turn_id"@, "?"@), " done"@);
        },
        RolloutEventType::CompactionCommitted => {
            parts_stand_in_the_whole("compaction ("@, decimal(count_of(p, "items"@)), " items)"@);
        },
        RolloutEventType::SubAgentTaskStarted => {
            lemma_two_are_shown(
                "subagent="@,
                text_or(p, "label"@, "?"@),
                " agent="@,
                text_or(p, "agent_id"@, "?"@),
            );
        },
        RolloutEventType::SubAgentTaskFinished => {
            lemma_two_are_shown(
                "task="@,
                text_or(p, "task_id"@, "?"@),
                " status="@,
                text_or(p, "status"@, "?"@),
            );
        },
        RolloutEventType::ModelRouteEvent => {
            lemma_two_are_shown(
                "route="@,
                text_or(p, "event_kind"@, "?"@),
                " candidate="@,
                text_or(p, "candidate_id"@, "?"@),
            );
        },
        RolloutEventType::CapabilityPromoted => {
            parts_stand_in_the_whole("promoted cap="@, text_or(p, "capability_id"@, "?"@), Seq::empty());
        },
        RolloutEventType::CapabilityCallRejectedStale => {
            lemma_two_are_shown(
                "rejected stale cap="@,
                text_or(p, "capability_id"@, "?"@),
                " gen="@,
                decimal(number_or_zero(p, "bound_generation"@) as nat),
            );
        },
        RolloutEventType::TurnStarted => {
            parts_stand_in_the_whole("turn started ("@, decimal(number_or_zero(p, "input_chars"@) as nat), " chars)"@);
        },
        RolloutEventType::ModelAttemptStarted => {
            lemma_two_are_shown(
                "attempt "@,
                text_or(p, "provider"@, "?"@),
                "/"@,
                text_or(p, "model"@, "?"@),
            );
        },
        RolloutEventType::ModelAttemptFinished => {
            lemma_three_are_shown(
                "attempt "@,
                text_or(p, "status"@, "?"@),
                " x"@,
                decimal(number_or_zero(p, "attempts"@) as nat),
                " "@,
                decimal(number_or_zero(p, "duration_ms"@) as nat),
                "ms"@,
            );
        },
        RolloutEventType::EffectiveToolCallRevisionCreated => {
            lemma_two_are_shown(
                "revision call="@,
                text_or(p, "tool_call_id"@, "?"@),
                " rev="@,
                decimal(number_or_zero(p, "revision"@) as nat),
            );
        },
        RolloutEventType::ContextRestored => {
            parts_stand_in_the_whole("restored "@, decimal(count_of(p, "items"@)), " items"@);
        },
        RolloutEventType::ToolCallApproved => {
            lemma_two_are_shown(
                "approved tool="@,
                text_or(p, "name"@, "?"@),
                " call="@,
                text_or(p, "call_id"@, "?"@),
            );
        },
        RolloutEventType::ToolOutcomeIndeterminate => {
            lemma_three_are_shown(
                "INDETERMINATE tool="@,
                text_or(p, "name"@, "?"@),
                " call="@,
                text_or(p, "call_id"@, "?"@),
                " reason="@,
                text_or(p, "reason"@, "?"@),
                Seq::empty(),
            );
        },
        RolloutEventType::ToolOutcomeResolved => {
            lemma_two_are_shown(
                "RESOLVED call="@,
                text_or(p, "call_id"@, "?"@),
                " resolution="@,
                text_or(p, "resolution"@, "?"@),
            );
        },
        RolloutEventType::ApprovalRequested => {
            lemma_two_are_shown(
                "approval requested ticket="@,
                text_or(p, "ticket_id"@, "?"@),
                " tool="@,
                text_or(p, "tool_name"@, "?"@),
            );
        },
        RolloutEventType::ApprovalResolved => {
            lemma_two_are_shown(
                "approval resolved ticket="@,
                text_or(p, "ticket_id"@, "?"@),
                " "@,
                text_or(p, "resolution"@, "?"@),
            );
        },
        RolloutEventType::LeaseIssued => {
            lemma_two_are_shown(
                "lease issued id="@,
                text_or(p, "lease_id"@, "?"@),
                " call="@,
                text_or(p, "call_id"@, "?"@),
            );
        },
        RolloutEventType::LeaseConsumed => {
            lemma_two_are_shown(
                "lease consumed id="@,
                text_or(p, "lease_id"@, "?"@),
                " call="@,
                text_or(p, "call_id"@, "?"@),
            );
        },
        RolloutEventType::LeaseExpired => {
            lemma_two_are_shown(
                "lease expired id="@,
                text_or(p, "lease_id"@, "?"@),
                " reason="@,
                text_or(p, "reason"@, "?"@),
            );
        },
        RolloutEventType::SkillSnapshotRecorded => {
            lemma_two_are_shown(
                "skill snapshot gen="@,
                decimal(number_or_zero(p, "skill_generation"@) as nat),
                " count="@,
                decimal(count_of(p, "skills"@)),
            );
        },
        RolloutEventType::AppOnlyToolCall => {
            lemma_two_are_shown(
                "app-only tool="@,
                text_or(p, "tool_name"@, "?"@),
                " reason="@,
                text_or(p, "reason"@, "?"@),
            );
        },
        RolloutEventType::ToolExecutionFinished | RolloutEventType::ToolResultCommitted => {
            let call = text_or(p, "call_id"@, "?"@);
            parts_stand_in_the_whole("call="@, call, " ok"@);
            parts_stand_in_the_whole("call="@, call, " ERROR"@);
        },
        _ => {},
    }
}

proof fn lemma_two_are_shown(a: Seq<char>, v: Seq<char>, b: Seq<char>, w: Seq<char>)
    ensures
        contains_text(a + v + b + w, v),
        contains_text(a + v + b + w, w),
{
    assert(a + v + b + w =~= a + v + (b + w));
    parts_stand_in_the_whole(a, v, b + w);
    parts_stand_in_the_whole(a + v + b, w, Seq::empty());
}

proof fn lemma_three_are_shown(
    a: Seq<char>,
    v: Seq<char>,
    b: Seq<char>,
    w: Seq<char>,
    c: Seq<char>,
    x: Seq<char>,
    tail: Seq<char>,
)
    ensures
        contains_text(a + v + b + w + c + x + tail, v),
        contains_text(a + v + b + w + c + x + tail, w),
        contains_text(a + v + b + w + c + x + tail, x),
        contains_text(a + v + b + w + c + x, v),
        contains_text(a + v + b + w + c + x, w),
        contains_text(a + v + b + w + c + x, x),
{
    lemma_three_in_order(a, v, b, w, c, x, tail);
    lemma_three_in_order(a, v, b, w, c, x, Seq::empty());
    assert(a + v + b + w + c + x + Seq::<char>::empty() =~= a + v + b + w + c + x);
}

proof fn lemma_three_in_order(
    a: Seq<char>,
    v: Seq<char>,
    b: Seq<char>,
    w: Seq<char>,
    c: Seq<char>,
    x: Seq<char>,
    tail: Seq<char>,
)
    ensures
        contains_text(a + v + b + w + c + x + tail, v),
        contains_text(a + v + b + w + c + x + tail, w),
        contains_text(a + v + b + w + c + x + tail, x),
{
    assert(a + v + b + w + c + x + tail =~= a + v + (b + w + c + x + tail));
    assert(a + v + b + w + c + x + tail =~= (a + v + b) + w + (c + x + tail));
    parts_stand_in_the_whole(a, v, b + w + c + x + tail);
    parts_stand_in_the_whole(a + v + b, w, c + x + tail);
    parts_stand_in_the_whole(a + v + b + w + c, x, tail);
}

/// The line of a tool's result says whether it is an error.
pub proof fn errors_are_shown(p: JsonView)
    ensures
        ({
            let s = event_summary(RolloutEventType::ToolResultCommitted, p);
            &&& s == event_summary(RolloutEventType::ToolExecutionFinished, p)
            &&& bool_in(get(p, "is_error"@)) == Some(true) ==> has_suffix(s, " ERROR"@)
            &&& bool_in(get(p, "is_error"@)) != Some(true) ==> has_suffix(s, " ok"@)
        }),
{
    let call = "call="@ + text_or(p, "call_id"@, "?"@);
    let bad = call + " ERROR"@;
    let good = call + " ok"@;
    assert(bad.skip(bad.len() - " ERROR"@.len()) =~= " ERROR"@);
    assert(good.skip(good.len() - " ok"@.len()) =~= " ok"@);
}

/// The text of a user and of a model is shown as far as there is room. A model
/// that gave no text is shown by the number of tools that it called.
pub proof fn texts_are_shown(p: JsonView, v: Seq<char>, a: Seq<JsonView>)
    ensures
        text_in(get(p, "text"@)) == Some(v) ==> event_summary(RolloutEventType::UserInputAccepted, p)
            == ellipsized(v, 60),
        v.len() > 0 && text_in(get(p, "assistant_text"@)) == Some(v) ==> event_summary(
            RolloutEventType::ModelItemProduced,
            p,
        ) == ellipsized(v, 60),
        text_in(get(p, "assistant_text"@)) is None && a.len() > 0 && array_in(get(p, "tool_calls"@)) == Some(a)
            ==> contains_text(event_summary(RolloutEventType::ModelItemProduced, p), decimal(a.len())),
        text_in(get(p, "assistant_text"@)) is None && (array_in(get(p, "tool_calls"@)) is None || array_in(
            get(p, "tool_calls"@),
        )->0.len() == 0) ==> event_summary(RolloutEventType::ModelItemProduced, p) == "(no text)"@,
        text_in(get(p, "cwd"@)) == Some(v) ==> contains_text(
            event_summary(RolloutEventType::SessionStarted, p),
            ellipsized(v, 40),
        ),
{
    reveal_strlit("");
    parts_stand_in_the_whole("(no text — "@, decimal(a.len()), " tool call(s))"@);
    parts_stand_in_the_whole("session start cwd="@, ellipsized(v, 40), Seq::empty());
}

/// A line of the listing holds the number, the name, the time and the summary of
/// an event, the summary last.
pub proof fn listed_events_are_shown_whole(seq: u64, e: RolloutEventType, time: Seq<char>, p: JsonView)
    ensures
        ({
            let l = inspect_line_of(seq, e, time, p);
            &&& contains_text(l, decimal(seq as nat))
            &&& contains_text(l, event_name(e))
            &&& contains_text(l, time)
            &&& has_suffix(l, event_summary(e, p))
        }),
{
    let number = decimal(seq as nat);
    let name = event_name(e);
    let summary = event_summary(e, p);
    let gap0 = crate::table::spaces(4 - number.len());
    let gap1 = crate::table::spaces(28 - name.len());
    let gap2 = crate::table::spaces(24 - time.len());
    let gap = "  "@;
    lemma_listing_shapes(gap0, number, gap, name, gap1, time, gap2, summary);
    parts_stand_in_the_whole(gap0, number, gap + name + gap1 + gap + time + gap2 + gap + summary);
    parts_stand_in_the_whole(
        gap0 + number + gap,
        name,
        gap1 + gap + time + gap2 + gap + summary,
    );
    parts_stand_in_the_whole(
        gap0 + number + gap + name + gap1 + gap,
        time,
        gap2 + gap + summary,
    );
}

proof fn lemma_listing_shapes(
    gap0: Seq<char>,
    number: Seq<char>,
    gap: Seq<char>,
    name: Seq<char>,
    gap1: Seq<char>,
    time: Seq<char>,
    gap2: Seq<char>,
    summary: Seq<char>,
)
    ensures
        ({
            let l = (gap0 + number) + gap + (name + gap1) + gap + (time + gap2) + gap + summary;
            &&& l == gap0 + number + (gap + name + gap1 + gap + time + gap2 + gap + summary)
            &&& l == (gap0 + number + gap) + name + (gap1 + gap + time + gap2 + gap + summary)
            &&& l == (gap0 + number + gap + name + gap1 + gap) + time + (gap2 + gap + summary)
            &&& has_suffix(l, summary)
        }),
{
    let l = (gap0 + number) + gap + (name + gap1) + gap + (time + gap2) + gap + summary;
    assert(l =~= gap0 + number + (gap + name + gap1 + gap + time + gap2 + gap + summary));
    assert(l =~= (gap0 + number + gap) + name + (gap1 + gap + time + gap2 + gap + summary));
    assert(l =~= (gap0 + number + gap + name + gap1 + gap) + time + (gap2 + gap + summary));
    assert(l.skip(l.len() - summary.len()) =~= summary);
}

/// A line of a journal is listed with what it says, where its kind is known. A
/// time that cannot be read is shown as it is.
pub proof fn known_events_are_listed(v: JsonView, e: RolloutEventType, p: JsonView, s: Seq<char>)
    requires
        text_in(get(v, "event_type"@)) == Some(event_name(e)),
    ensures
        !is_listed(v, None),
        is_listed(v, Some(s)) ==> exists|k: RolloutEventType| #[trigger]
            event_name(k) == event_name(e) && (get(v, "payload"@) == Some(p) ==> has_suffix(
                s,
                event_summary(k, p),
            )),
        rfc3339_of(s) is None ==> listed_time_of(s) == s,
{
    if is_listed(v, Some(s)) {
        let k = choose|k: RolloutEventType| #[trigger]
            event_name(k) == event_name(e) && s == inspect_line_of(
                number_or_zero(v, "seq"@),
                k,
                listed_time_of(text_or(v, "timestamp"@, ""@)),
                match get(v, "payload"@) {
                    Some(q) => q,
                    None => JsonView::Null,
                },
            );
        if get(v, "payload"@) == Some(p) {
            listed_events_are_shown_whole(
                number_or_zero(v, "seq"@),
                k,
                listed_time_of(text_or(v, "timestamp"@, ""@)),
                p,
            );
        }
        assert(event_name(k) == event_name(e));
    }
}

/// The names under which events stand in a journal.
pub proof fn events_have_names()
    ensures
        event_name(RolloutEventType::UserInputAccepted) == "UserInputAccepted"@,
        event_name(RolloutEventType::ModelItemProduced) == "ModelItemProduced"@,
        event_name(RolloutEventType::ToolCallPrepared) == "ToolCallPrepared"@,
        event_name(RolloutEventType::ToolExecutionStarted) == "ToolExecutionStarted"@,
        event_name(RolloutEventType::ToolExecutionFinished) == "ToolExecutionFinished"@,
        event_name(RolloutEventType::ToolResultCommitted) == "ToolResultCommitted"@,
        event_name(RolloutEventType::RuntimeStateChanged) == "RuntimeStateChanged"@,
        event_name(RolloutEventType::TurnCompleted) == "TurnCompleted"@,
        event_name(RolloutEventType::CompactionCommitted) == "CompactionCommitted"@,
        event_name(RolloutEventType::CompactionStarted) == "CompactionStarted"@,
        event_name(RolloutEventType::CompactionFailed) == "CompactionFailed"@,
        event_name(RolloutEventType::CompactionCandidateBuilt) == "CompactionCandidateBuilt"@,
        event_name(RolloutEventType::ProjectionPruned) == "ProjectionPruned"@,
        event_name(RolloutEventType::PromptSnapshotBuilt) == "PromptSnapshotBuilt"@,
        event_name(RolloutEventType::SubAgentTaskStarted) == "SubAgentTaskStarted"@,
        event_name(RolloutEventType::SubAgentTaskFinished) == "SubAgentTaskFinished"@,
        event_name(RolloutEventType::ModelRouteEvent) == "ModelRouteEvent"@,
        event_name(RolloutEventType::CapabilityPromoted) == "CapabilityPromoted"@,
        event_name(RolloutEventType::CapabilityCallRejectedStale) == "CapabilityCallRejectedStale"@,
        event_name(RolloutEventType::SessionStarted) == "SessionStarted"@,
        event_name(RolloutEventType::TurnStarted) == "TurnStarted"@,
        event_name(RolloutEventType::ModelAttemptStarted) == "ModelAttemptStarted"@,
        event_name(RolloutEventType::ModelAttemptFinished) == "ModelAttemptFinished"@,
        event_name(RolloutEventType::EffectiveToolCallRevisionCreated) == "EffectiveToolCallRevisionCreated"@,
        event_name(RolloutEventType::ContextRestored) == "ContextRestored"@,
        event_name(RolloutEventType::ToolCallApproved) == "ToolCallApproved"@,
        event_name(RolloutEventType::ToolOutcomeIndeterminate) == "ToolOutcomeIndeterminate"@,
        event_name(RolloutEventType::ToolOutcomeResolved) == "ToolOutcomeResolved"@,
        event_name(RolloutEventType::ApprovalRequested) == "ApprovalRequested"@,
        event_name(RolloutEventType::ApprovalResolved) == "ApprovalResolved"@,
        event_name(RolloutEventType::LeaseIssued) == "LeaseIssued"@,
        event_name(RolloutEventType::LeaseConsumed) == "LeaseConsumed"@,
        event_name(RolloutEventType::LeaseExpired) == "LeaseExpired"@,
        event_name(RolloutEventType::SkillSnapshotRecorded) == "SkillSnapshotRecorded"@,
        event_name(RolloutEventType::AppOnlyToolCall) == "AppOnlyToolCall"@,
{
}

} // verus!
