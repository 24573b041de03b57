//! The life cycles of sessions, turns and tool calls.

use vstd::prelude::*;

verus! {

/// The life of a session.
#[derive(Debug, Clone, Copy, PartialEq, Eq, Structural)]
pub enum SessionState {
    /// The transcript is loaded and the runtime built.
    Initializing,
    /// A turn can begin.
    Idle,
    /// A turn is in progress.
    Running,
    /// No turn can begin any more.
    ShuttingDown,
    /// Everything is released.
    Closed,
}

/// The life of a turn.
#[derive(Debug, Clone, Copy, PartialEq, Eq, Structural)]
pub enum TurnState {
    Admitted,
    Preparing,
    Sampling,
    AwaitingTools,
    Compacting,
    Finalizing,
    Completed,
    Cancelled,
    Failed,
}

/// The life of a tool call, from the model's output to its end.
#[derive(Debug, Clone, Copy, PartialEq, Eq, Structural)]
pub enum ToolCallState {
    /// The call was read from the model's output.
    Parsed,
    /// Its arguments match the schema.
    Validated,
    /// The policy refused it.
    PolicyDenied,
    /// The policy let it through without asking.
    PolicyAllowed,
    /// It waits for an approval.
    AwaitingApproval,
    /// It may run.
    Approved,
    /// It runs.
    Running,
    /// It ended well.
    Completed,
    /// It ended with an error.
    Failed,
    /// The approval was refused.
    Rejected,
    /// It was cancelled.
    Cancelled,
    /// Its result is durable.
    Committed,
    /// Recovery undid it.
    RolledBack,
    /// Something else took its place.
    Superseded,
}

/// Whether nothing follows a state.
pub open spec fn terminal(s: ToolCallState) -> bool {
    s == ToolCallState::Committed || s == ToolCallState::Rejected || s == ToolCallState::Cancelled
        || s == ToolCallState::RolledBack || s == ToolCallState::Superseded
}

/// Whether `to` may follow `from`.
pub open spec fn follows(from: ToolCallState, to: ToolCallState) -> bool {
    match from {
        ToolCallState::Parsed => to == ToolCallState::Validated || to == ToolCallState::Cancelled,
        ToolCallState::Validated => to == ToolCallState::PolicyDenied || to
            == ToolCallState::PolicyAllowed || to == ToolCallState::AwaitingApproval || to
            == ToolCallState::Cancelled,
        ToolCallState::PolicyDenied => to == ToolCallState::Cancelled,
        ToolCallState::PolicyAllowed => to == ToolCallState::Approved,
        ToolCallState::AwaitingApproval => to == ToolCallState::Approved || to
            == ToolCallState::Rejected || to == ToolCallState::Cancelled,
        ToolCallState::Approved => to == ToolCallState::Running || to == ToolCallState::Cancelled,
        ToolCallState::Running => to == ToolCallState::Completed || to == ToolCallState::Failed
            || to == ToolCallState::Cancelled || to == ToolCallState::RolledBack,
        ToolCallState::Completed => to == ToolCallState::Committed || to
            == ToolCallState::Superseded,
        ToolCallState::Failed => to == ToolCallState::RolledBack,
        _ => false,
    }
}

impl ToolCallState {
    /// Whether nothing follows this state.
    pub fn is_terminal(self) -> (r: bool)
        ensures
            r == terminal(self),
    {
        match self {
            ToolCallState::Committed => true,
            ToolCallState::Rejected => true,
            ToolCallState::Cancelled => true,
            ToolCallState::RolledBack => true,
            ToolCallState::Superseded => true,
            _ => false,
        }
    }

    /// Whether the call ended well.
    pub fn is_success(self) -> (r: bool)
        ensures
            r == (self == ToolCallState::Completed || self == ToolCallState::Committed),
    {
        match self {
            ToolCallState::Completed => true,
            ToolCallState::Committed => true,
            _ => false,
        }
    }

    /// Whether the policy has let the call through or handed it on to the user.
    pub fn has_passed_policy(self) -> (r: bool)
        ensures
            r == (self == ToolCallState::PolicyAllowed || self == ToolCallState::AwaitingApproval
                || self == ToolCallState::Approved || self == ToolCallState::Running || self
                == ToolCallState::Completed || self == ToolCallState::Committed),
    {
        match self {
            ToolCallState::PolicyAllowed => true,
            ToolCallState::AwaitingApproval => true,
            ToolCallState::Approved => true,
            ToolCallState::Running => true,
            ToolCallState::Completed => true,
            ToolCallState::Committed => true,
            _ => false,
        }
    }

    /// Whether the call has not begun to run.
    pub fn is_pre_execution(self) -> (r: bool)
        ensures
            r == (self == ToolCallState::Parsed || self == ToolCallState::Validated || self
                == ToolCallState::PolicyDenied || self == ToolCallState::PolicyAllowed || self
                == ToolCallState::AwaitingApproval || self == ToolCallState::Approved),
    {
        match self {
            ToolCallState::Parsed => true,
            ToolCallState::Validated => true,
            ToolCallState::PolicyDenied => true,
            ToolCallState::PolicyAllowed => true,
            ToolCallState::AwaitingApproval => true,
            ToolCallState::Approved => true,
            _ => false,
        }
    }

    /// Whether `to` may follow this state.
    pub fn can_transition_to(self, to: Self) -> (r: bool)
        ensures
            r == follows(self, to),
    {
        match (self, to) {
            (ToolCallState::Parsed, ToolCallState::Validated) => true,
            (ToolCallState::Validated, ToolCallState::PolicyDenied) => true,
            (ToolCallState::Validated, ToolCallState::PolicyAllowed) => true,
            (ToolCallState::Validated, ToolCallState::AwaitingApproval) => true,
            (ToolCallState::PolicyAllowed, ToolCallState::Approved) => true,
            (ToolCallState::AwaitingApproval, ToolCallState::Approved) => true,
            (ToolCallState::AwaitingApproval, ToolCallState::Rejected) => true,
            (ToolCallState::Approved, ToolCallState::Running) => true,
            (ToolCallState::Running, ToolCallState::Completed) => true,
            (ToolCallState::Running, ToolCallState::Failed) => true,
            (ToolCallState::Completed, ToolCallState::Committed) => true,
            (ToolCallState::Parsed, ToolCallState::Cancelled) => true,
            (ToolCallState::Validated, ToolCallState::Cancelled) => true,
            (ToolCallState::PolicyDenied, ToolCallState::Cancelled) => true,
            (ToolCallState::AwaitingApproval, ToolCallState::Cancelled) => true,
            (ToolCallState::Approved, ToolCallState::Cancelled) => true,
            (ToolCallState::Running, ToolCallState::Cancelled) => true,
            (ToolCallState::Completed, ToolCallState::Superseded) => true,
            (ToolCallState::Failed, ToolCallState::RolledBack) => true,
            (ToolCallState::Running, ToolCallState::RolledBack) => true,
            _ => false,
        }
    }
}

/// Whether a sequence of states is a possible life of a tool call.
pub open spec fn is_life(states: Seq<ToolCallState>) -> bool {
    &&& states.len() > 0
    &&& states[0] == ToolCallState::Parsed
    &&& forall|i: int| 0 <= i < states.len() - 1 ==> follows(#[trigger] states[i], states[i + 1])
}

/// Nothing follows a terminal state, and something follows every other.
pub proof fn terminal_states_have_no_successor(s: ToolCallState)
    ensures
        terminal(s) <==> (forall|t: ToolCallState| !#[trigger] follows(s, t)),
{
    if !terminal(s) {
        let t = match s {
            ToolCallState::Parsed => ToolCallState::Validated,
            ToolCallState::Validated => ToolCallState::Cancelled,
            ToolCallState::PolicyDenied => ToolCallState::Cancelled,
            ToolCallState::PolicyAllowed => ToolCallState::Approved,
            ToolCallState::AwaitingApproval => ToolCallState::Approved,
            ToolCallState::Approved => ToolCallState::Running,
            ToolCallState::Running => ToolCallState::Completed,
            ToolCallState::Completed => ToolCallState::Committed,
            _ => ToolCallState::RolledBack,
        };
        assert(follows(s, t));
    }
}

/// The policy speaks only of validated calls, and only a completed call is
/// committed.
pub proof fn gates_have_one_entrance(from: ToolCallState)
    ensures
        follows(from, ToolCallState::PolicyDenied) <==> from == ToolCallState::Validated,
        follows(from, ToolCallState::PolicyAllowed) <==> from == ToolCallState::Validated,
        follows(from, ToolCallState::Committed) <==> from == ToolCallState::Completed,
        follows(from, ToolCallState::Running) <==> from == ToolCallState::Approved,
        !follows(from, ToolCallState::Parsed),
{
}

/// A call that runs was approved just before.
pub proof fn running_calls_were_approved(states: Seq<ToolCallState>, i: int)
    requires
        is_life(states),
        0 <= i < states.len(),
        states[i] == ToolCallState::Running,
    ensures
        i > 0,
        states[i - 1] == ToolCallState::Approved,
{
    assert(i > 0);
    assert(follows(states[i - 1], states[i - 1 + 1]));
}

/// No life visits a state twice: a tool call never goes back.
pub proof fn lives_never_go_back(states: Seq<ToolCallState>, i: int, j: int)
    requires
        is_life(states),
        0 <= i < j < states.len(),
    ensures
        stage_of(states[i]) < stage_of(states[j]),
    decreases j - i,
{
    assert(follows(states[j - 1], states[j - 1 + 1]));
    if i < j - 1 {
        lives_never_go_back(states, i, j - 1);
    }
}

/// How far a state lies along the life of a tool call.
pub open spec fn stage_of(s: ToolCallState) -> int {
    match s {
        ToolCallState::Parsed => 0,
        ToolCallState::Validated => 1,
        ToolCallState::PolicyDenied => 2,
        ToolCallState::PolicyAllowed => 2,
        ToolCallState::AwaitingApproval => 2,
        ToolCallState::Approved => 3,
        ToolCallState::Running => 4,
        ToolCallState::Completed => 5,
        ToolCallState::Failed => 5,
        _ => 6,
    }
}

/// From where each state can be reached, and that the others cannot be left.
pub proof fn states_are_reached_step_by_step(from: ToolCallState, to: ToolCallState)
    ensures
        follows(from, to) <==> {
            ||| to is Validated && from is Parsed
            ||| to is PolicyDenied && from is Validated
            ||| to is PolicyAllowed && from is Validated
            ||| to is AwaitingApproval && from is Validated
            ||| to is Approved && (from is PolicyAllowed || from is AwaitingApproval)
            ||| to is Rejected && from is AwaitingApproval
            ||| to is Running && from is Approved
            ||| to is Completed && from is Running
            ||| to is Failed && from is Running
            ||| to is RolledBack && (from is Running || from is Failed)
            ||| to is Committed && from is Completed
            ||| to is Superseded && from is Completed
            ||| to is Cancelled && (from is Parsed || from is Validated || from is PolicyDenied
                || from is AwaitingApproval || from is Approved || from is Running)
        },
        (forall|s: ToolCallState| !#[trigger] follows(from, s)) <==> terminal(from),
{
    if from is Parsed {
        assert(follows(from, ToolCallState::Validated));
    } else if from is Validated {
        assert(follows(from, ToolCallState::PolicyAllowed));
    } else if from is PolicyDenied {
        assert(follows(from, ToolCallState::Cancelled));
    } else if from is PolicyAllowed || from is AwaitingApproval {
        assert(follows(from, ToolCallState::Approved));
    } else if from is Approved {
        assert(follows(from, ToolCallState::Running));
    } else if from is Running {
        assert(follows(from, ToolCallState::Completed));
    } else if from is Completed {
        assert(follows(from, ToolCallState::Committed));
    } else if from is Failed {
        assert(follows(from, ToolCallState::RolledBack));
    }
}

} // verus!
