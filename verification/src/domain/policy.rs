//! The decision of a policy.

use vstd::prelude::*;

verus! {

/// What a policy says of an operation.
#[derive(Debug, Clone, Copy, PartialEq, Eq, Hash, Structural)]
pub enum PolicyDecision {
    /// It may go on.
    Allow,
    /// The user is asked first.
    Ask,
    /// It must not run.
    Deny,
}

impl PolicyDecision {
    /// Whether the operation can run, perhaps after approval.
    pub fn is_executable(self) -> (r: bool)
        ensures
            r == (self != PolicyDecision::Deny),
    {
        match self {
            PolicyDecision::Allow => true,
            PolicyDecision::Ask => true,
            PolicyDecision::Deny => false,
        }
    }

    /// Whether the operation can run without waiting for the user.
    pub fn is_immediate(self) -> (r: bool)
        ensures
            r == (self == PolicyDecision::Allow),
    {
        match self {
            PolicyDecision::Allow => true,
            _ => false,
        }
    }
}

} // verus!
