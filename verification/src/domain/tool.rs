//! What is known of a tool apart from its code.

use vstd::prelude::*;

use crate::domain::policy::PolicyDecision;

verus! {

/// The description of a tool.
#[derive(Debug)]
pub struct ToolMetadata {
    /// The canonical name.
    pub name: String,
    /// The name shown to people.
    pub display_name: String,
    /// What the model is told of it.
    pub description: String,
    /// Whether it runs beside others.
    pub concurrency_class: ConcurrencyClass,
    /// Whether it can be repeated.
    pub side_effect_class: SideEffectClass,
    /// The decision where no rule says otherwise.
    pub default_policy: PolicyDecision,
}

/// Whether tool calls may run at the same time.
#[derive(Debug, Clone, Copy, PartialEq, Eq, Structural)]
pub enum ConcurrencyClass {
    /// Beside other parallel calls.
    Parallel,
    /// Alone.
    Serial,
}

/// What repeating a tool call does.
#[derive(Debug, Clone, Copy, PartialEq, Eq, Structural)]
pub enum SideEffectClass {
    /// Nothing: it has no side effects.
    ReadOnly,
    /// The same as the first time.
    Idempotent,
    /// Possibly something else each time.
    NonIdempotent,
}

} // verus!
