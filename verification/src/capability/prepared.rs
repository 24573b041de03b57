//! A tool call that is ready to run.

use vstd::prelude::*;

use crate::capability::id::CapabilityId;
use crate::domain::id::{OperationId, StepSnapshotId, ToolCallId};
use crate::domain::policy::PolicyDecision;
use crate::json::JsonValue;

verus! {

/// A capability call that has passed every check. What it runs as can no
/// longer change.
#[derive(Debug)]
pub struct PreparedCapabilityCall {
    pub tool_call_id: ToolCallId,
    /// The snapshot that governs the call.
    pub snapshot_id: StepSnapshotId,
    pub capability_id: CapabilityId,
    pub capability_revision: u64,
    /// The arguments, as the schema allows them.
    pub validated_args: JsonValue,
    /// A hash of the arguments.
    pub args_hash: String,
    /// The strictest decision that was made.
    pub policy_ceiling: PolicyDecision,
    pub policy_generation: u64,
    /// The key by which the operation is recognised.
    pub operation_id: OperationId,
}

} // verus!
