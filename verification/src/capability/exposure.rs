//! To whom a capability is visible.

use vstd::prelude::*;

verus! {

/// How a tool appears to the model, to sub-agents and to the application.
#[derive(Debug, Clone, Copy, PartialEq, Eq, Hash, Structural)]
pub enum ToolExposure {
    /// In the model's first request.
    Direct,
    /// Found by search only.
    Deferred,
    /// Callable from code-mode sub-agents only.
    CodeMode,
    /// Shown by the application only.
    AppOnly,
    /// Registered but shown to nobody.
    Internal,
    /// As if it did not exist.
    Disabled,
}

/// The name of an exposure.
pub open spec fn exposure_name(e: ToolExposure) -> Seq<char> {
    match e {
        ToolExposure::Direct => "Direct"@,
        ToolExposure::Deferred => "Deferred"@,
        ToolExposure::CodeMode => "CodeMode"@,
        ToolExposure::AppOnly => "AppOnly"@,
        ToolExposure::Internal => "Internal"@,
        ToolExposure::Disabled => "Disabled"@,
    }
}

impl ToolExposure {
    /// The name of the exposure.
    pub fn name(self) -> (r: &'static str)
        ensures
            r@ == exposure_name(self),
    {
        match self {
            ToolExposure::Direct => "Direct",
            ToolExposure::Deferred => "Deferred",
            ToolExposure::CodeMode => "CodeMode",
            ToolExposure::AppOnly => "AppOnly",
            ToolExposure::Internal => "Internal",
            ToolExposure::Disabled => "Disabled",
        }
    }
}

/// The names of the ways to expose a tool.
pub proof fn exposures_have_names()
    ensures
        exposure_name(ToolExposure::Direct) == "Direct"@,
        exposure_name(ToolExposure::Deferred) == "Deferred"@,
        exposure_name(ToolExposure::CodeMode) == "CodeMode"@,
        exposure_name(ToolExposure::AppOnly) == "AppOnly"@,
        exposure_name(ToolExposure::Internal) == "Internal"@,
        exposure_name(ToolExposure::Disabled) == "Disabled"@,
{
}

} // verus!
