//! Errors of loading and merging configuration.

use vstd::prelude::*;
use vstd::string::*;

use crate::config::values::ConfigDiagnostic;
use crate::text::{has_suffix, owned};

verus! {

/// What can go wrong while configuration is loaded.
#[derive(Debug)]
pub enum ConfigError {
    /// A file could not be read.
    Io { message: String },
    /// A file is not TOML.
    Parse { path: String, error: String },
    /// Layers could not be merged.
    Merge { message: String },
    /// Values are not valid.
    Validation { diagnostics: Vec<ConfigDiagnostic> },
    /// A requirement is violated.
    RequirementViolation { message: String },
    /// The file watcher failed.
    Watch { message: String },
}

/// The message of an error.
pub open spec fn config_error_text(e: ConfigError) -> Seq<char> {
    match e {
        ConfigError::Io { message } => "I/O error: "@ + message@,
        ConfigError::Parse { path, error } => "failed to parse "@ + path@ + ": "@ + error@,
        ConfigError::Merge { message } => "merge error: "@ + message@,
        ConfigError::Validation { .. } => "validation failed"@,
        ConfigError::RequirementViolation { message } => "requirement constraint violated: "@
            + message@,
        ConfigError::Watch { message } => "fs watcher error: "@ + message@,
    }
}

impl ConfigError {
    /// The message of the error.
    pub fn message(&self) -> (r: String)
        ensures
            r@ == config_error_text(*self),
    {
        match self {
            ConfigError::Io { message } => {
                let mut s = owned("I/O error: ");
                s.append(message.as_str());
                s
            },
            ConfigError::Parse { path, error } => {
                let mut s = owned("failed to parse ");
                s.append(path.as_str());
                s.append(": ");
                s.append(error.as_str());
                s
            },
            ConfigError::Merge { message } => {
                let mut s = owned("merge error: ");
                s.append(message.as_str());
                s
            },
            ConfigError::Validation { .. } => owned("validation failed"),
            ConfigError::RequirementViolation { message } => {
                let mut s = owned("requirement constraint violated: ");
                s.append(message.as_str());
                s
            },
            ConfigError::Watch { message } => {
                let mut s = owned("fs watcher error: ");
                s.append(message.as_str());
                s
            },
        }
    }
}

/// The message of an error ends with what went wrong, and that of a file which
/// could not be read names it.
pub proof fn messages_say_what_went_wrong(m: String, path: String)
    ensures
        has_suffix(config_error_text(ConfigError::Io { message: m }), m@),
        has_suffix(config_error_text(ConfigError::Merge { message: m }), m@),
        has_suffix(config_error_text(ConfigError::RequirementViolation { message: m }), m@),
        has_suffix(config_error_text(ConfigError::Watch { message: m }), m@),
        has_suffix(config_error_text(ConfigError::Parse { path, error: m }), path@ + ": "@ + m@),
{
    lemma_said_last("I/O error: "@, m@);
    lemma_said_last("merge error: "@, m@);
    lemma_said_last("requirement constraint violated: "@, m@);
    lemma_said_last("fs watcher error: "@, m@);
    let t = path@ + ": "@ + m@;
    lemma_said_last("failed to parse "@, t);
    assert("failed to parse "@ + path@ + ": "@ + m@ =~= "failed to parse "@ + t);
}

proof fn lemma_said_last(a: Seq<char>, b: Seq<char>)
    ensures
        has_suffix(a + b, b),
{
    assert((a + b).skip((a + b).len() - b.len()) =~= b);
}

} // verus!
