use grodex::domain::error::GrodexError;
use grodex::domain::id::{CommitSequence, SessionId, StepGeneration, TurnId};
use grodex::domain::policy::PolicyDecision;
use grodex::domain::state::ToolCallState;

#[test]
fn uuid_ids_are_unique() {
    let a = SessionId::new();
    let b = SessionId::new();
    assert_ne!(a, b);
}

#[test]
fn uuid_ids_parse_display_roundtrip() {
    let id = TurnId::new();
    let s = id.to_string();
    let id2 = TurnId::from_string(&s).unwrap();
    assert_eq!(id, id2);
}

#[test]
fn commit_sequence_ordering() {
    let a = CommitSequence::new(1);
    let b = CommitSequence::new(2);
    assert!(a < b);
}

#[test]
fn step_generation_increments() {
    let g = StepGeneration::initial();
    assert_eq!(g.next().as_u64(), 1);
}

#[test]
fn uuids_are_read_in_every_notation() {
    let id = SessionId::from_string("00000000-0000-4000-8000-00000000002A").unwrap();
    assert_eq!(id.to_string(), "00000000-0000-4000-8000-00000000002a");
    let simple = SessionId::from_string("0000000000004000800000000000002a").unwrap();
    assert_eq!(id, simple);
    assert!(SessionId::from_string("not-a-uuid").is_err());
}

#[test]
fn identifier_errors_name_the_text() {
    let e = SessionId::from_string("nope").unwrap_err();
    assert_eq!(e.message(), "invalid identifier: nope");
    assert_eq!(
        GrodexError::state_transition("x").message(),
        "invalid state transition: x"
    );
}

#[test]
fn policy_decisions() {
    assert!(PolicyDecision::Ask.is_executable());
    assert!(!PolicyDecision::Ask.is_immediate());
    assert!(!PolicyDecision::Deny.is_executable());
    assert!(PolicyDecision::Allow.is_immediate());
}

#[test]
fn calls_run_only_after_approval() {
    assert!(ToolCallState::Parsed.can_transition_to(ToolCallState::Validated));
    assert!(!ToolCallState::Parsed.can_transition_to(ToolCallState::Running));
    assert!(ToolCallState::Approved.can_transition_to(ToolCallState::Running));
    assert!(ToolCallState::Rejected.is_terminal());
    assert!(!ToolCallState::Rejected.can_transition_to(ToolCallState::Running));
}

#[test]
fn stages_of_a_call() {
    assert!(ToolCallState::Committed.is_success());
    assert!(!ToolCallState::Failed.is_success());
    assert!(ToolCallState::AwaitingApproval.has_passed_policy());
    assert!(!ToolCallState::PolicyDenied.has_passed_policy());
    assert!(ToolCallState::PolicyDenied.is_pre_execution());
    assert!(!ToolCallState::Running.is_pre_execution());
}

#[test]
fn cancelled_calls_stay_cancelled() {
    assert!(ToolCallState::Running.can_transition_to(ToolCallState::Cancelled));
    assert!(ToolCallState::Cancelled.is_terminal());
    assert!(!ToolCallState::Cancelled.can_transition_to(ToolCallState::Approved));
    assert!(ToolCallState::Running.can_transition_to(ToolCallState::RolledBack));
    assert!(ToolCallState::Completed.can_transition_to(ToolCallState::Superseded));
    assert!(!ToolCallState::Failed.can_transition_to(ToolCallState::Committed));
}
