//! Registered capabilities and the snapshot of them that a step runs against.

use vstd::prelude::*;

use crate::capability::exposure::ToolExposure;
use crate::capability::id::{CapabilityId, IdView};
use crate::clock::utc_now_micros;
use crate::domain::id::{StepGeneration, StepSnapshotId};
use crate::domain::tool::{ConcurrencyClass, SideEffectClass};
use crate::json::{JsonValue, JsonView};
use crate::strmap::StrMap;

verus! {

/// The registration of one capability.
#[derive(Debug)]
pub struct CapabilityDescriptor {
    /// The identity.
    pub id: CapabilityId,
    /// The name shown to people.
    pub display_name: String,
    /// What the model is told of it.
    pub description: String,
    /// To whom it is visible.
    pub exposure: ToolExposure,
    /// How far it is trusted, from 0 to 255.
    pub trust_level: u8,
    /// The JSON schema of its arguments.
    pub input_schema: Option<JsonValue>,
    /// Whether it runs beside others, if it is a tool.
    pub concurrency_class: Option<ConcurrencyClass>,
    /// Whether it can be repeated, if it is a tool.
    pub side_effect_class: Option<SideEffectClass>,
    /// Where it comes from, for people.
    pub source_locator: String,
    /// A hash of its definition.
    pub content_hash: String,
    /// The revision of this capability.
    pub capability_revision: u64,
    /// The generation of all capabilities when it was last updated.
    pub generation: u64,
}

/// The mathematical value of a [`CapabilityDescriptor`].
pub struct DescriptorView {
    pub id: IdView,
    pub display_name: Seq<char>,
    pub description: Seq<char>,
    pub exposure: ToolExposure,
    pub trust_level: u8,
    pub input_schema: Option<JsonView>,
    pub concurrency_class: Option<ConcurrencyClass>,
    pub side_effect_class: Option<SideEffectClass>,
    pub source_locator: Seq<char>,
    pub content_hash: Seq<char>,
    pub capability_revision: u64,
    pub generation: u64,
}

impl View for CapabilityDescriptor {
    type V = DescriptorView;

    open spec fn view(&self) -> DescriptorView {
        DescriptorView {
            id: self.id@,
            display_name: self.display_name@,
            description: self.description@,
            exposure: self.exposure,
            trust_level: self.trust_level,
            input_schema: match self.input_schema {
                Some(s) => Some(s@),
                None => None,
            },
            concurrency_class: self.concurrency_class,
            side_effect_class: self.side_effect_class,
            source_locator: self.source_locator@,
            content_hash: self.content_hash@,
            capability_revision: self.capability_revision,
            generation: self.generation,
        }
    }
}

/// The views of a list of descriptors.
pub open spec fn descriptors_view(ds: Seq<CapabilityDescriptor>) -> Seq<DescriptorView> {
    ds.map_values(|d: CapabilityDescriptor| d@)
}

impl Clone for CapabilityDescriptor {
    fn clone(&self) -> (r: Self)
        ensures
            r@ == self@,
    {
        CapabilityDescriptor {
            id: self.id.clone(),
            display_name: self.display_name.clone(),
            description: self.description.clone(),
            exposure: self.exposure,
            trust_level: self.trust_level,
            input_schema: match &self.input_schema {
                Some(s) => Some(s.duplicate()),
                None => None,
            },
            concurrency_class: self.concurrency_class,
            side_effect_class: self.side_effect_class,
            source_locator: self.source_locator.clone(),
            content_hash: self.content_hash.clone(),
            capability_revision: self.capability_revision,
            generation: self.generation,
        }
    }
}

/// The built-in tools that a step sees.
#[derive(Debug)]
pub struct ToolRouterBinding {
    pub tool_capability_ids: Vec<CapabilityId>,
    pub source_generation: u64,
}

impl Default for ToolRouterBinding {
    fn default() -> (r: Self)
        ensures
            r.tool_capability_ids@.len() == 0,
            r.source_generation == 0,
    {
        ToolRouterBinding { tool_capability_ids: Vec::new(), source_generation: 0 }
    }
}

/// The skills that a step sees.
#[derive(Debug)]
pub struct SkillCatalogBinding {
    pub skill_capability_ids: Vec<CapabilityId>,
    pub source_generation: u64,
}

impl Default for SkillCatalogBinding {
    fn default() -> (r: Self)
        ensures
            r.skill_capability_ids@.len() == 0,
            r.source_generation == 0,
    {
        SkillCatalogBinding { skill_capability_ids: Vec::new(), source_generation: 0 }
    }
}

/// The MCP connections that a step sees.
#[derive(Debug)]
pub struct McpBinding {
    pub servers: Vec<McpServerBinding>,
}

impl Default for McpBinding {
    fn default() -> (r: Self)
        ensures
            r.servers@.len() == 0,
    {
        McpBinding { servers: Vec::new() }
    }
}

/// One MCP connection.
#[derive(Debug)]
pub struct McpServerBinding {
    pub server_name: String,
    pub contributed_capability_ids: Vec<CapabilityId>,
    pub connection_generation: u64,
}

/// The permission policy that governs a step.
#[derive(Debug, Clone, Copy, PartialEq, Eq, Structural)]
pub struct PolicyBinding {
    pub revocation_epoch: u64,
    pub rule_count: usize,
}

impl Default for PolicyBinding {
    fn default() -> (r: Self)
        ensures
            r == (PolicyBinding { revocation_epoch: 0, rule_count: 0 }),
    {
        PolicyBinding { revocation_epoch: 0, rule_count: 0 }
    }
}

/// The sandbox profile that a step runs under.
#[derive(Debug)]
pub struct SandboxBindingRef {
    pub profile_name: String,
    pub profile_generation: u64,
}

impl Default for SandboxBindingRef {
    fn default() -> (r: Self)
        ensures
            r.profile_name@ == Seq::<char>::empty(),
            r.profile_generation == 0,
    {
        SandboxBindingRef { profile_name: String::new(), profile_generation: 0 }
    }
}

/// The capabilities of one step, fixed when it was captured.
#[derive(Debug)]
pub struct StepCapabilitySnapshot {
    pub snapshot_id: StepSnapshotId,
    /// The generation of capabilities when the turn began.
    pub turn_base_generation: u64,
    pub step_generation: StepGeneration,
    /// The capabilities that were promoted.
    pub promoted_capability_ids: Vec<CapabilityId>,
    /// The generation of each source.
    pub source_generations: StrMap<u64>,
    pub revocation_epoch_at_capture: u64,
    /// When it was captured, in microseconds since 1970.
    pub created_at: i64,
    pub tool_router: ToolRouterBinding,
    pub skill_catalog: SkillCatalogBinding,
    pub mcp_binding: McpBinding,
    pub policy_binding: PolicyBinding,
    pub sandbox_binding: SandboxBindingRef,
    /// The authority that no agent of the step exceeds.
    pub agent_authority_ceiling: u8,
}

impl StepCapabilitySnapshot {
    /// A builder with empty bindings.
    pub fn builder(snapshot_id: StepSnapshotId, step_generation: StepGeneration) -> (r:
        StepCapabilitySnapshotBuilder)
        ensures
            r.snapshot_id == snapshot_id,
            r.step_generation == step_generation,
            r.turn_base_generation == 0,
            r.promoted_capability_ids@.len() == 0,
            r.source_generations.wf(),
            r.source_generations@ == Map::<Seq<char>, u64>::empty(),
            r.revocation_epoch_at_capture == 0,
            r.tool_router.tool_capability_ids@.len() == 0,
            r.tool_router.source_generation == 0,
            r.skill_catalog.skill_capability_ids@.len() == 0,
            r.skill_catalog.source_generation == 0,
            r.mcp_binding.servers@.len() == 0,
            r.policy_binding == (PolicyBinding { revocation_epoch: 0, rule_count: 0 }),
            r.sandbox_binding.profile_name@ == Seq::<char>::empty(),
            r.sandbox_binding.profile_generation == 0,
            r.agent_authority_ceiling == 0,
    {
        StepCapabilitySnapshotBuilder {
            snapshot_id,
            step_generation,
            turn_base_generation: 0,
            promoted_capability_ids: Vec::new(),
            source_generations: StrMap::new(),
            revocation_epoch_at_capture: 0,
            tool_router: ToolRouterBinding::default(),
            skill_catalog: SkillCatalogBinding::default(),
            mcp_binding: McpBinding::default(),
            policy_binding: PolicyBinding::default(),
            sandbox_binding: SandboxBindingRef::default(),
            agent_authority_ceiling: 0,
        }
    }
}

/// Builds a [`StepCapabilitySnapshot`] binding by binding.
#[derive(Debug)]
pub struct StepCapabilitySnapshotBuilder {
    pub snapshot_id: StepSnapshotId,
    pub step_generation: StepGeneration,
    pub turn_base_generation: u64,
    pub promoted_capability_ids: Vec<CapabilityId>,
    pub source_generations: StrMap<u64>,
    pub revocation_epoch_at_capture: u64,
    pub tool_router: ToolRouterBinding,
    pub skill_catalog: SkillCatalogBinding,
    pub mcp_binding: McpBinding,
    pub policy_binding: PolicyBinding,
    pub sandbox_binding: SandboxBindingRef,
    pub agent_authority_ceiling: u8,
}

/// Whether `s` is the snapshot that a builder describes.
pub open spec fn is_built(s: StepCapabilitySnapshot, b: StepCapabilitySnapshotBuilder) -> bool {
    &&& s.snapshot_id == b.snapshot_id
    &&& s.turn_base_generation == b.turn_base_generation
    &&& s.step_generation == b.step_generation
    &&& s.promoted_capability_ids == b.promoted_capability_ids
    &&& s.source_generations == b.source_generations
    &&& s.revocation_epoch_at_capture == b.revocation_epoch_at_capture
    &&& s.tool_router == b.tool_router
    &&& s.skill_catalog == b.skill_catalog
    &&& s.mcp_binding == b.mcp_binding
    &&& s.policy_binding == b.policy_binding
    &&& s.sandbox_binding == b.sandbox_binding
    &&& s.agent_authority_ceiling == b.agent_authority_ceiling
}

impl StepCapabilitySnapshotBuilder {
    /// Sets the generation at the start of the turn.
    pub fn turn_base_generation(self, g: u64) -> (r: Self)
        ensures
            r == (StepCapabilitySnapshotBuilder { turn_base_generation: g, ..self }),
    {
        StepCapabilitySnapshotBuilder { turn_base_generation: g, ..self }
    }

    /// Sets the promoted capabilities.
    pub fn promoted(self, ids: Vec<CapabilityId>) -> (r: Self)
        ensures
            r == (StepCapabilitySnapshotBuilder { promoted_capability_ids: ids, ..self }),
    {
        StepCapabilitySnapshotBuilder { promoted_capability_ids: ids, ..self }
    }

    /// Sets the revocation epoch, also of the policy.
    pub fn revocation_epoch(self, e: u64) -> (r: Self)
        ensures
            r == (StepCapabilitySnapshotBuilder {
                revocation_epoch_at_capture: e,
                policy_binding: PolicyBinding {
                    revocation_epoch: e,
                    rule_count: self.policy_binding.rule_count,
                },
                ..self
            }),
    {
        let policy = PolicyBinding {
            revocation_epoch: e,
            rule_count: self.policy_binding.rule_count,
        };
        StepCapabilitySnapshotBuilder {
            revocation_epoch_at_capture: e,
            policy_binding: policy,
            ..self
        }
    }

    /// Sets the built-in tools.
    pub fn tool_router(self, b: ToolRouterBinding) -> (r: Self)
        ensures
            r == (StepCapabilitySnapshotBuilder { tool_router: b, ..self }),
    {
        StepCapabilitySnapshotBuilder { tool_router: b, ..self }
    }

    /// Sets the skills.
    pub fn skill_catalog(self, b: SkillCatalogBinding) -> (r: Self)
        ensures
            r == (StepCapabilitySnapshotBuilder { skill_catalog: b, ..self }),
    {
        StepCapabilitySnapshotBuilder { skill_catalog: b, ..self }
    }

    /// Sets the MCP connections.
    pub fn mcp_binding(self, b: McpBinding) -> (r: Self)
        ensures
            r == (StepCapabilitySnapshotBuilder { mcp_binding: b, ..self }),
    {
        StepCapabilitySnapshotBuilder { mcp_binding: b, ..self }
    }

    /// Sets the sandbox profile.
    pub fn sandbox(self, name: String, generation: u64) -> (r: Self)
        ensures
            r == (StepCapabilitySnapshotBuilder {
                sandbox_binding: SandboxBindingRef {
                    profile_name: name,
                    profile_generation: generation,
                },
                ..self
            }),
    {
        let sandbox = SandboxBindingRef { profile_name: name, profile_generation: generation };
        StepCapabilitySnapshotBuilder { sandbox_binding: sandbox, ..self }
    }

    /// Sets the ceiling of authority.
    pub fn authority_ceiling(self, c: u8) -> (r: Self)
        ensures
            r == (StepCapabilitySnapshotBuilder { agent_authority_ceiling: c, ..self }),
    {
        StepCapabilitySnapshotBuilder { agent_authority_ceiling: c, ..self }
    }

    /// The snapshot, captured now.
    pub fn build(self) -> (r: StepCapabilitySnapshot)
        ensures
            is_built(r, self),
    {
        let now: i64 = utc_now_micros();
        self.build_at(now)
    }

    /// The snapshot, captured at `created_at`.
    pub fn build_at(self, created_at: i64) -> (r: StepCapabilitySnapshot)
        ensures
            is_built(r, self),
            r.created_at == created_at,
    {
        StepCapabilitySnapshot {
            snapshot_id: self.snapshot_id,
            turn_base_generation: self.turn_base_generation,
            step_generation: self.step_generation,
            promoted_capability_ids: self.promoted_capability_ids,
            source_generations: self.source_generations,
            revocation_epoch_at_capture: self.revocation_epoch_at_capture,
            created_at,
            tool_router: self.tool_router,
            skill_catalog: self.skill_catalog,
            mcp_binding: self.mcp_binding,
            policy_binding: self.policy_binding,
            sandbox_binding: self.sandbox_binding,
            agent_authority_ceiling: self.agent_authority_ceiling,
        }
    }
}

/// A snapshot holds each part that its builder was given.
pub proof fn snapshots_hold_what_was_given(
    s: StepCapabilitySnapshot,
    b: StepCapabilitySnapshotBuilder,
)
    requires
        is_built(s, b),
    ensures
        s.snapshot_id == b.snapshot_id,
        s.turn_base_generation == b.turn_base_generation,
        s.step_generation == b.step_generation,
        s.promoted_capability_ids == b.promoted_capability_ids,
        s.source_generations == b.source_generations,
        s.revocation_epoch_at_capture == b.revocation_epoch_at_capture,
        s.tool_router == b.tool_router,
        s.skill_catalog == b.skill_catalog,
        s.mcp_binding == b.mcp_binding,
        s.policy_binding == b.policy_binding,
        s.sandbox_binding == b.sandbox_binding,
        s.agent_authority_ceiling == b.agent_authority_ceiling,
{
}

} // verus!
