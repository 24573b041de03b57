//! The base error.

use vstd::prelude::*;
use vstd::string::*;

use crate::text::{has_suffix, owned};

verus! {

/// What can go wrong in the agent.
#[derive(Debug)]
pub enum GrodexError {
    /// A text is no identifier.
    InvalidId(String),
    /// A state cannot follow another.
    StateTransition { reason: String },
    /// A tool failed.
    ToolExecution(String),
    /// A configuration value is missing or malformed.
    Config(String),
    /// An approval expired or was given before.
    Approval(String),
    /// Anything else.
    Internal(String),
}

/// The message of an error.
pub open spec fn error_text(e: GrodexError) -> Seq<char> {
    match e {
        GrodexError::InvalidId(s) => "invalid identifier: "@ + s@,
        GrodexError::StateTransition { reason } => "invalid state transition: "@ + reason@,
        GrodexError::ToolExecution(s) => "tool execution failed: "@ + s@,
        GrodexError::Config(s) => "configuration error: "@ + s@,
        GrodexError::Approval(s) => "approval error: "@ + s@,
        GrodexError::Internal(s) => "internal error: "@ + s@,
    }
}

fn prefixed(prefix: &str, s: &String) -> (r: String)
    ensures
        r@ == prefix@ + s@,
{
    let mut m = owned(prefix);
    m.append(s.as_str());
    m
}

impl GrodexError {
    /// The rejection of a state transition.
    pub fn state_transition(reason: &str) -> (r: Self)
        ensures
            r matches GrodexError::StateTransition { reason: t } && t@ == reason@,
    {
        GrodexError::StateTransition { reason: owned(reason) }
    }

    /// The message of the error.
    pub fn message(&self) -> (r: String)
        ensures
            r@ == error_text(*self),
    {
        match self {
            GrodexError::InvalidId(s) => prefixed("invalid identifier: ", s),
            GrodexError::StateTransition { reason } => prefixed("invalid state transition: ", reason),
            GrodexError::ToolExecution(s) => prefixed("tool execution failed: ", s),
            GrodexError::Config(s) => prefixed("configuration error: ", s),
            GrodexError::Approval(s) => prefixed("approval error: ", s),
            GrodexError::Internal(s) => prefixed("internal error: ", s),
        }
    }
}

/// The message of an error ends with what went wrong.
pub proof fn messages_say_what_went_wrong(m: String)
    ensures
        has_suffix(error_text(GrodexError::InvalidId(m)), m@),
        has_suffix(error_text(GrodexError::StateTransition { reason: m }), m@),
        has_suffix(error_text(GrodexError::ToolExecution(m)), m@),
        has_suffix(error_text(GrodexError::Config(m)), m@),
        has_suffix(error_text(GrodexError::Approval(m)), m@),
        has_suffix(error_text(GrodexError::Internal(m)), m@),
{
    lemma_said_last("invalid identifier: "@, m@);
    lemma_said_last("invalid state transition: "@, m@);
    lemma_said_last("tool execution failed: "@, m@);
    lemma_said_last("configuration error: "@, m@);
    lemma_said_last("approval error: "@, m@);
    lemma_said_last("internal error: "@, m@);
}

proof fn lemma_said_last(a: Seq<char>, b: Seq<char>)
    ensures
        has_suffix(a + b, b),
{
    assert((a + b).skip((a + b).len() - b.len()) =~= b);
}

} // verus!
