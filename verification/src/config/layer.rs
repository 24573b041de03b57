//! Configuration layers: each is one source of values.

use vstd::prelude::*;
use vstd::string::*;

use crate::text::{debug_str, debug_str_of, owned};
use crate::toml_value::TomlValue;

verus! {

/// Where a layer comes from.
#[derive(Debug, PartialEq, Eq, Hash)]
pub enum ConfigLayerSource {
    /// Defaults of the program.
    Builtin,
    /// The machine's configuration.
    System,
    /// Configuration managed by an enterprise.
    EnterpriseManaged,
    /// The user's configuration.
    User,
    /// A named profile of the user.
    Profile(String),
    /// The configuration of a workspace.
    Workspace {
        /// Whether the user has trusted the workspace.
        trusted: bool,
    },
    /// Flags of this session.
    SessionFlag,
}

/// The mathematical value of a [`ConfigLayerSource`].
pub enum SourceView {
    Builtin,
    System,
    EnterpriseManaged,
    User,
    Profile(Seq<char>),
    Workspace(bool),
    SessionFlag,
}

impl View for ConfigLayerSource {
    type V = SourceView;

    open spec fn view(&self) -> SourceView {
        match *self {
            ConfigLayerSource::Builtin => SourceView::Builtin,
            ConfigLayerSource::System => SourceView::System,
            ConfigLayerSource::EnterpriseManaged => SourceView::EnterpriseManaged,
            ConfigLayerSource::User => SourceView::User,
            ConfigLayerSource::Profile(n) => SourceView::Profile(n@),
            ConfigLayerSource::Workspace { trusted } => SourceView::Workspace(trusted),
            ConfigLayerSource::SessionFlag => SourceView::SessionFlag,
        }
    }
}

/// How a source is written in messages.
pub open spec fn source_name(s: SourceView) -> Seq<char> {
    match s {
        SourceView::Builtin => "Builtin"@,
        SourceView::System => "System"@,
        SourceView::EnterpriseManaged => "EnterpriseManaged"@,
        SourceView::User => "User"@,
        SourceView::Profile(n) => "Profile("@ + debug_str_of(n) + ")"@,
        SourceView::Workspace(true) => "Workspace { trusted: true }"@,
        SourceView::Workspace(false) => "Workspace { trusted: false }"@,
        SourceView::SessionFlag => "SessionFlag"@,
    }
}

impl ConfigLayerSource {
    /// How the source is written in messages.
    pub fn name(&self) -> (r: String)
        ensures
            r@ == source_name(self@),
    {
        match self {
            ConfigLayerSource::Builtin => owned("Builtin"),
            ConfigLayerSource::System => owned("System"),
            ConfigLayerSource::EnterpriseManaged => owned("EnterpriseManaged"),
            ConfigLayerSource::User => owned("User"),
            ConfigLayerSource::Profile(n) => {
                let mut s = owned("Profile(");
                s.append(debug_str(n.as_str()).as_str());
                s.append(")");
                s
            },
            ConfigLayerSource::Workspace { trusted } => if *trusted {
                owned("Workspace { trusted: true }")
            } else {
                owned("Workspace { trusted: false }")
            },
            ConfigLayerSource::SessionFlag => owned("SessionFlag"),
        }
    }
}

impl Clone for ConfigLayerSource {
    fn clone(&self) -> (r: Self)
        ensures
            r@ == self@,
    {
        match self {
            ConfigLayerSource::Builtin => ConfigLayerSource::Builtin,
            ConfigLayerSource::System => ConfigLayerSource::System,
            ConfigLayerSource::EnterpriseManaged => ConfigLayerSource::EnterpriseManaged,
            ConfigLayerSource::User => ConfigLayerSource::User,
            ConfigLayerSource::Profile(n) => ConfigLayerSource::Profile(n.clone()),
            ConfigLayerSource::Workspace { trusted } => ConfigLayerSource::Workspace {
                trusted: *trusted,
            },
            ConfigLayerSource::SessionFlag => ConfigLayerSource::SessionFlag,
        }
    }
}

/// One layer of the stack.
#[derive(Debug)]
pub struct ConfigLayer {
    /// Where the layer comes from.
    pub source: ConfigLayerSource,
    /// The values that it gives.
    pub values: TomlValue,
    /// A hash of its text.
    pub fingerprint: String,
    /// Why the layer is left out, if it is.
    pub disabled_reason: Option<String>,
}

/// The layer that a value came from.
#[derive(Debug)]
pub struct MergeTrace {
    pub origin: ConfigLayerSource,
    pub source_version: String,
}

/// The mathematical value of a [`MergeTrace`].
pub struct TraceView {
    pub origin: SourceView,
    pub source_version: Seq<char>,
}

impl View for MergeTrace {
    type V = TraceView;

    open spec fn view(&self) -> TraceView {
        TraceView { origin: self.origin@, source_version: self.source_version@ }
    }
}

impl MergeTrace {
    /// A trace to `origin` at `source_version`.
    pub fn new(origin: ConfigLayerSource, source_version: String) -> (r: Self)
        ensures
            r.origin == origin,
            r.source_version == source_version,
    {
        MergeTrace { origin, source_version }
    }
}

impl Clone for MergeTrace {
    fn clone(&self) -> (r: Self)
        ensures
            r@ == self@,
    {
        MergeTrace { origin: self.origin.clone(), source_version: self.source_version.clone() }
    }
}

/// The names of the sources of a configuration.
pub proof fn sources_have_names(n: Seq<char>)
    ensures
        source_name(SourceView::Builtin) == "Builtin"@,
        source_name(SourceView::System) == "System"@,
        source_name(SourceView::EnterpriseManaged) == "EnterpriseManaged"@,
        source_name(SourceView::User) == "User"@,
        source_name(SourceView::Profile(n)) == "Profile("@ + debug_str_of(n) + ")"@,
        source_name(SourceView::Workspace(true)) == "Workspace { trusted: true }"@,
        source_name(SourceView::Workspace(false)) == "Workspace { trusted: false }"@,
        source_name(SourceView::SessionFlag) == "SessionFlag"@,
{
}

} // verus!
