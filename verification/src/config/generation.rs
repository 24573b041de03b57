//! Generation counters: one for the whole configuration and one per domain.

use vstd::prelude::*;

use crate::config::layer::ConfigLayer;
use crate::config::loader::ConfigPaths;
use crate::config::requirements::{no_requirements, RequirementBinding};
use crate::config::values::{empty_table, EffectiveConfig};

verus! {

/// Counters that only grow. A change in one domain leaves the others alone.
#[derive(Debug, Clone, Copy, PartialEq, Eq, Structural)]
pub struct ConfigGeneration {
    /// Any change.
    pub root: u64,
    /// Instructions and prompt templates.
    pub prompt: u64,
    /// Tools, skills and MCP servers.
    pub capability: u64,
    /// Permission rules.
    pub policy: u64,
    /// Sandbox profiles.
    pub sandbox: u64,
    /// Providers, models and authentication.
    pub provider: u64,
    /// Memory.
    pub memory: u64,
    /// The user interface.
    pub ui: u64,
}

/// Every counter at `n`.
pub open spec fn generation_of(n: u64) -> ConfigGeneration {
    ConfigGeneration {
        root: n,
        prompt: n,
        capability: n,
        policy: n,
        sandbox: n,
        provider: n,
        memory: n,
        ui: n,
    }
}

/// Whether no counter of `a` is above that of `b`.
pub open spec fn generation_le(a: ConfigGeneration, b: ConfigGeneration) -> bool {
    &&& a.root <= b.root
    &&& a.prompt <= b.prompt
    &&& a.capability <= b.capability
    &&& a.policy <= b.policy
    &&& a.sandbox <= b.sandbox
    &&& a.provider <= b.provider
    &&& a.memory <= b.memory
    &&& a.ui <= b.ui
}

/// Whether every counter is below the limit.
pub open spec fn below_limit(g: ConfigGeneration) -> bool {
    &&& g.root < u64::MAX
    &&& g.prompt < u64::MAX
    &&& g.capability < u64::MAX
    &&& g.policy < u64::MAX
    &&& g.sandbox < u64::MAX
    &&& g.provider < u64::MAX
    &&& g.memory < u64::MAX
    &&& g.ui < u64::MAX
}

/// Every counter raised by one.
pub open spec fn all_bumped(g: ConfigGeneration) -> ConfigGeneration {
    ConfigGeneration {
        root: (g.root + 1) as u64,
        prompt: (g.prompt + 1) as u64,
        capability: (g.capability + 1) as u64,
        policy: (g.policy + 1) as u64,
        sandbox: (g.sandbox + 1) as u64,
        provider: (g.provider + 1) as u64,
        memory: (g.memory + 1) as u64,
        ui: (g.ui + 1) as u64,
    }
}

impl Default for ConfigGeneration {
    fn default() -> (r: Self)
        ensures
            r == generation_of(0),
    {
        ConfigGeneration {
            root: 0,
            prompt: 0,
            capability: 0,
            policy: 0,
            sandbox: 0,
            provider: 0,
            memory: 0,
            ui: 0,
        }
    }
}

impl ConfigGeneration {
    /// The first generation: every counter at 1.
    pub fn initial() -> (r: Self)
        ensures
            r == generation_of(1),
    {
        ConfigGeneration {
            root: 1,
            prompt: 1,
            capability: 1,
            policy: 1,
            sandbox: 1,
            provider: 1,
            memory: 1,
            ui: 1,
        }
    }

    /// Raises every counter.
    pub fn bump_all(&mut self)
        requires
            below_limit(*old(self)),
        ensures
            *final(self) == all_bumped(*old(self)),
    {
        self.root = self.root + 1;
        self.prompt = self.prompt + 1;
        self.capability = self.capability + 1;
        self.policy = self.policy + 1;
        self.sandbox = self.sandbox + 1;
        self.provider = self.provider + 1;
        self.memory = self.memory + 1;
        self.ui = self.ui + 1;
    }

    /// Raises the counters of the whole and of the user interface.
    pub fn bump_ui(&mut self)
        requires
            old(self).root < u64::MAX,
            old(self).ui < u64::MAX,
        ensures
            *final(self) == (ConfigGeneration {
                root: (old(self).root + 1) as u64,
                ui: (old(self).ui + 1) as u64,
                ..*old(self)
            }),
    {
        self.root = self.root + 1;
        self.ui = self.ui + 1;
    }

    /// Raises the counters of the whole and of the permission rules.
    pub fn bump_policy(&mut self)
        requires
            old(self).root < u64::MAX,
            old(self).policy < u64::MAX,
        ensures
            *final(self) == (ConfigGeneration {
                root: (old(self).root + 1) as u64,
                policy: (old(self).policy + 1) as u64,
                ..*old(self)
            }),
    {
        self.root = self.root + 1;
        self.policy = self.policy + 1;
    }
}

/// Everything that was loaded.
#[derive(Debug)]
pub struct LoadedConfig {
    /// The merged values.
    pub effective: EffectiveConfig,
    /// The requirements that they meet.
    pub requirements: RequirementBinding,
    /// The generation counters.
    pub generation: ConfigGeneration,
    /// The layers before merging.
    pub raw_layers: Vec<ConfigLayer>,
    /// The paths that were looked at.
    pub paths: ConfigPaths,
}

impl LoadedConfig {
    /// The configuration without any file.
    pub fn empty(paths: ConfigPaths) -> (r: Self)
        ensures
            r.effective.values@ == empty_table(),
            r.effective.generation == 0,
            r.effective.diagnostics@.len() == 0,
            r.effective.merge_traces.wf(),
            r.effective.merge_traces@.dom() == Set::<Seq<char>>::empty(),
            r.requirements@ == no_requirements(),
            r.generation == generation_of(1),
            r.raw_layers@.len() == 0,
            r.paths == paths,
    {
        let effective = EffectiveConfig::empty();
        assert(effective.merge_traces@.dom() =~= Set::<Seq<char>>::empty());
        LoadedConfig {
            effective,
            requirements: RequirementBinding::default(),
            generation: ConfigGeneration::initial(),
            raw_layers: Vec::new(),
            paths,
        }
    }
}

/// Raising every counter raises each, and raising one domain never lowers
/// another.
pub proof fn bumps_only_grow(g: ConfigGeneration)
    requires
        below_limit(g),
    ensures
        generation_le(g, all_bumped(g)),
        all_bumped(g).root == g.root + 1,
{
}

/// A change of everything takes each generation one further.
pub proof fn everything_goes_one_further(g: ConfigGeneration)
    requires
        below_limit(g),
    ensures
        all_bumped(g).root == g.root + 1,
        all_bumped(g).prompt == g.prompt + 1,
        all_bumped(g).capability == g.capability + 1,
        all_bumped(g).policy == g.policy + 1,
        all_bumped(g).sandbox == g.sandbox + 1,
        all_bumped(g).provider == g.provider + 1,
        all_bumped(g).memory == g.memory + 1,
        all_bumped(g).ui == g.ui + 1,
        generation_le(g, all_bumped(g)),
        !generation_le(all_bumped(g), g),
{
}

} // verus!
