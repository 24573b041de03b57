//! Who provides a capability.

use vstd::prelude::*;

verus! {

/// The source of a capability.
#[derive(Debug, Clone, Copy, PartialEq, Eq, PartialOrd, Ord, Hash, Structural)]
pub enum Authority {
    /// The agent itself.
    Core,
    /// The application around it.
    Host,
    /// An installed plugin.
    Plugin,
    /// An executor that runs code in sandboxes.
    Executor,
    /// Orchestration of several agents.
    Orchestrator,
    /// An MCP server.
    Mcp,
    /// An action of the application that the model never sees.
    App,
}

/// The level of a source: a higher one is a broader source.
pub open spec fn authority_level(a: Authority) -> u8 {
    match a {
        Authority::Core => 0,
        Authority::Host => 10,
        Authority::Plugin => 20,
        Authority::Executor => 30,
        Authority::Orchestrator => 40,
        Authority::Mcp => 50,
        Authority::App => 60,
    }
}

/// The name of a source.
pub open spec fn authority_name(a: Authority) -> Seq<char> {
    match a {
        Authority::Core => "Core"@,
        Authority::Host => "Host"@,
        Authority::Plugin => "Plugin"@,
        Authority::Executor => "Executor"@,
        Authority::Orchestrator => "Orchestrator"@,
        Authority::Mcp => "Mcp"@,
        Authority::App => "App"@,
    }
}

impl Authority {
    /// The level of the source. A ceiling of `n` leaves out every source whose
    /// level is above `n`.
    pub fn level(self) -> (r: u8)
        ensures
            r == authority_level(self),
    {
        match self {
            Authority::Core => 0,
            Authority::Host => 10,
            Authority::Plugin => 20,
            Authority::Executor => 30,
            Authority::Orchestrator => 40,
            Authority::Mcp => 50,
            Authority::App => 60,
        }
    }

    /// The name of the source.
    pub fn name(self) -> (r: &'static str)
        ensures
            r@ == authority_name(self),
    {
        match self {
            Authority::Core => "Core",
            Authority::Host => "Host",
            Authority::Plugin => "Plugin",
            Authority::Executor => "Executor",
            Authority::Orchestrator => "Orchestrator",
            Authority::Mcp => "Mcp",
            Authority::App => "App",
        }
    }
}

/// Different sources have different levels.
pub proof fn levels_are_distinct(a: Authority, b: Authority)
    ensures
        authority_level(a) == authority_level(b) ==> a == b,
{
}

/// The sources from the most to the least trusted, ten levels apart.
pub proof fn sources_have_their_levels(a: Authority)
    ensures
        authority_level(Authority::Core) == 0,
        authority_level(Authority::Core) + 10 == authority_level(Authority::Host),
        authority_level(Authority::Host) + 10 == authority_level(Authority::Plugin),
        authority_level(Authority::Plugin) + 10 == authority_level(Authority::Executor),
        authority_level(Authority::Executor) + 10 == authority_level(Authority::Orchestrator),
        authority_level(Authority::Orchestrator) + 10 == authority_level(Authority::Mcp),
        authority_level(Authority::Mcp) + 10 == authority_level(Authority::App),
        authority_level(a) <= 60,
{
}

/// The names of the sources.
pub proof fn sources_have_names()
    ensures
        authority_name(Authority::Core) == "Core"@,
        authority_name(Authority::Host) == "Host"@,
        authority_name(Authority::Plugin) == "Plugin"@,
        authority_name(Authority::Executor) == "Executor"@,
        authority_name(Authority::Orchestrator) == "Orchestrator"@,
        authority_name(Authority::Mcp) == "Mcp"@,
        authority_name(Authority::App) == "App"@,
{
}

} // verus!
