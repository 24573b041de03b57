//! The agent's sessions: commands and events at the edge, what is shown of a
//! journal, and the settings that a session runs with.

pub mod acp;
pub mod idempotency;
pub mod journal;
pub mod redact;
pub mod route;
pub mod serve;
pub mod permission;
pub mod settings;
pub mod repl;
pub mod prompt;
pub mod replay;
pub mod eval;
