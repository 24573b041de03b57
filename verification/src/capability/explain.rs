//! Why a capability is visible or not: the first stage, in a fixed order, that
//! keeps it from the model.

use vstd::prelude::*;
use vstd::string::*;

use crate::capability::exposure::{exposure_name, ToolExposure};
use crate::capability::id::CapabilityId;
use crate::text::{decimal, decimal_string, has_suffix, owned};

verus! {

/// The health of a provider.
#[derive(Debug, PartialEq, Eq)]
pub enum ProviderStatus {
    Healthy,
    /// The provider could not be read; this capability is not published.
    Failed(String),
}

/// The state of an MCP connection.
#[derive(Debug, PartialEq, Eq)]
pub enum McpConnStatus {
    Ready,
    AuthRequired,
    ConnectionFailed(String),
}

/// What the policy says of a capability.
#[derive(Debug, PartialEq, Eq)]
pub enum PolicyVisibility {
    Allowed,
    /// Left out by the named rule.
    Filtered(String),
}

/// What the budget for schemas does to a capability.
#[derive(Debug, Clone, Copy, PartialEq, Eq, Structural)]
pub enum BudgetStatus {
    Within,
    /// Found by search only.
    DemotedToDeferred,
    Dropped,
}

/// Whether the step knows the published generation.
#[derive(Debug, Clone, Copy, PartialEq, Eq, Structural)]
pub enum GenerationStatus {
    Current,
    Stale { step_generation: u64, published_generation: u64 },
}

/// Whether a pinned revision is the published one.
#[derive(Debug, Clone, Copy, PartialEq, Eq, Structural)]
pub enum RevisionStatus {
    Current,
    StaleRejected { pinned_revision: u64, current_revision: u64 },
}

/// Everything known of the visibility of a capability in a snapshot.
#[derive(Debug)]
pub struct CapabilityVisibilityFacts {
    pub capability_id: CapabilityId,
    pub snapshot_id: String,
    /// Whether any source named it.
    pub discovered: bool,
    pub config_disabled: bool,
    /// The capability that took its name.
    pub name_conflict_with: Option<CapabilityId>,
    pub provider: ProviderStatus,
    pub mcp_conn: McpConnStatus,
    pub exposure: ToolExposure,
    pub policy: PolicyVisibility,
    pub budget: BudgetStatus,
    pub generation: GenerationStatus,
    pub revision: RevisionStatus,
}

/// The stages, in the order in which they are looked at.
#[derive(Debug, Clone, Copy, PartialEq, Eq, Structural)]
pub enum VisibilityStage {
    Discovery,
    Config,
    NameConflict,
    Provider,
    Exposure,
    Policy,
    Budget,
    McpConnection,
    Generation,
    Revision,
}

/// One stage that was looked at.
#[derive(Debug, PartialEq, Eq)]
pub struct CausalLink {
    pub stage: VisibilityStage,
    /// Whether it lets the capability through.
    pub passed: bool,
    /// `ok`, or why not.
    pub detail: String,
}

/// The outcome.
#[derive(Debug, PartialEq, Eq)]
pub enum VisibilityVerdict {
    /// In the model's first request.
    VisibleDirect,
    /// Found by search.
    VisibleDeferred,
    /// Not visible, for a reason.
    Invisible { decisive: VisibilityStage, reason: String },
}

/// The outcome with the stages that led to it.
#[derive(Debug)]
pub struct CapabilityExplanation {
    pub capability_id: CapabilityId,
    pub snapshot_id: String,
    pub verdict: VisibilityVerdict,
    pub chain: Vec<CausalLink>,
}

/// Explains visibility from given facts.
#[derive(Debug, Clone, Copy)]
pub struct CapabilityExplainer;

/// The mathematical value of a [`VisibilityVerdict`].
pub enum VerdictView {
    VisibleDirect,
    VisibleDeferred,
    Invisible(VisibilityStage, Seq<char>),
}

impl View for VisibilityVerdict {
    type V = VerdictView;

    open spec fn view(&self) -> VerdictView {
        match *self {
            VisibilityVerdict::VisibleDirect => VerdictView::VisibleDirect,
            VisibilityVerdict::VisibleDeferred => VerdictView::VisibleDeferred,
            VisibilityVerdict::Invisible { decisive, reason } => VerdictView::Invisible(
                decisive,
                reason@,
            ),
        }
    }
}

/// The views of the stages that were looked at.
pub open spec fn chain_view(c: Seq<CausalLink>) -> Seq<(VisibilityStage, bool, Seq<char>)> {
    c.map_values(|l: CausalLink| (l.stage, l.passed, l.detail@))
}

/// The stages in order.
pub open spec fn stage_at(i: int) -> VisibilityStage {
    if i == 0 {
        VisibilityStage::Discovery
    } else if i == 1 {
        VisibilityStage::Config
    } else if i == 2 {
        VisibilityStage::NameConflict
    } else if i == 3 {
        VisibilityStage::Provider
    } else if i == 4 {
        VisibilityStage::Exposure
    } else if i == 5 {
        VisibilityStage::Policy
    } else if i == 6 {
        VisibilityStage::Budget
    } else if i == 7 {
        VisibilityStage::McpConnection
    } else if i == 8 {
        VisibilityStage::Generation
    } else {
        VisibilityStage::Revision
    }
}

/// Why a stage keeps a capability from the model, if it does.
pub open spec fn blocked_at(f: CapabilityVisibilityFacts, s: VisibilityStage) -> Option<Seq<char>> {
    let name = f.capability_id@.canonical_name;
    match s {
        VisibilityStage::Discovery => if f.discovered {
            None
        } else {
            Some("capability "@ + name + " was not discovered by any source"@)
        },
        VisibilityStage::Config => if f.config_disabled {
            Some("capability "@ + name + " is disabled by configuration"@)
        } else {
            None
        },
        VisibilityStage::NameConflict => match f.name_conflict_with {
            Some(w) => Some(
                "canonical name "@ + name + " lost conflict resolution to "@ + w@.canonical_name,
            ),
            None => None,
        },
        VisibilityStage::Provider => match f.provider {
            ProviderStatus::Failed(m) => Some("provider failed: "@ + m@),
            ProviderStatus::Healthy => None,
        },
        VisibilityStage::Exposure => if f.exposure == ToolExposure::AppOnly || f.exposure
            == ToolExposure::Internal || f.exposure == ToolExposure::Disabled {
            Some("exposure "@ + exposure_name(f.exposure) + " is not model-visible"@)
        } else if f.exposure == ToolExposure::CodeMode {
            Some("exposure CodeMode is only callable from code-mode sub-agents"@)
        } else {
            None
        },
        VisibilityStage::Policy => match f.policy {
            PolicyVisibility::Filtered(r) => Some("filtered by policy rule: "@ + r@),
            PolicyVisibility::Allowed => None,
        },
        VisibilityStage::Budget => if f.budget == BudgetStatus::Dropped {
            Some(
                "dropped: Direct schema budget exceeded and capability could not be demoted"@,
            )
        } else {
            None
        },
        VisibilityStage::McpConnection => match f.mcp_conn {
            McpConnStatus::AuthRequired => Some("MCP server requires authentication"@),
            McpConnStatus::ConnectionFailed(m) => Some("MCP connection failed: "@ + m@),
            McpConnStatus::Ready => None,
        },
        VisibilityStage::Generation => match f.generation {
            GenerationStatus::Stale { step_generation, published_generation } => Some(
                "step capability generation "@ + decimal(step_generation as nat)
                    + " predates published generation "@ + decimal(published_generation as nat),
            ),
            GenerationStatus::Current => None,
        },
        VisibilityStage::Revision => match f.revision {
            RevisionStatus::StaleRejected { pinned_revision, current_revision } => Some(
                "pinned revision "@ + decimal(pinned_revision as nat)
                    + " rejected: current revision is "@ + decimal(current_revision as nat),
            ),
            RevisionStatus::Current => None,
        },
    }
}

/// The number of the first stage from `i` on that keeps a capability from the
/// model, or 10.
pub open spec fn first_blocking(f: CapabilityVisibilityFacts, i: int) -> int
    decreases 10 - i,
{
    if i < 0 || i >= 10 {
        10
    } else if blocked_at(f, stage_at(i)) is Some {
        i
    } else {
        first_blocking(f, i + 1)
    }
}

/// The first `n` stages, all passed.
pub open spec fn passed_stages(n: nat) -> Seq<(VisibilityStage, bool, Seq<char>)> {
    Seq::new(n, |i: int| (stage_at(i), true, "ok"@))
}

/// The stages up to and including the decisive one.
pub open spec fn explained_chain(f: CapabilityVisibilityFacts) -> Seq<
    (VisibilityStage, bool, Seq<char>),
> {
    let d = first_blocking(f, 0);
    let passed = passed_stages(d as nat);
    if d < 10 {
        passed.push((stage_at(d), false, blocked_at(f, stage_at(d))->0))
    } else {
        passed
    }
}

/// The outcome.
pub open spec fn explained_verdict(f: CapabilityVisibilityFacts) -> VerdictView {
    let d = first_blocking(f, 0);
    if d < 10 {
        VerdictView::Invisible(stage_at(d), blocked_at(f, stage_at(d))->0)
    } else if f.exposure == ToolExposure::Direct && f.budget == BudgetStatus::Within {
        VerdictView::VisibleDirect
    } else {
        VerdictView::VisibleDeferred
    }
}

/// The number `i` stage.
fn nth_stage(i: usize) -> (r: VisibilityStage)
    requires
        i < 10,
    ensures
        r == stage_at(i as int),
{
    if i == 0 {
        VisibilityStage::Discovery
    } else if i == 1 {
        VisibilityStage::Config
    } else if i == 2 {
        VisibilityStage::NameConflict
    } else if i == 3 {
        VisibilityStage::Provider
    } else if i == 4 {
        VisibilityStage::Exposure
    } else if i == 5 {
        VisibilityStage::Policy
    } else if i == 6 {
        VisibilityStage::Budget
    } else if i == 7 {
        VisibilityStage::McpConnection
    } else if i == 8 {
        VisibilityStage::Generation
    } else {
        VisibilityStage::Revision
    }
}

/// Why a stage keeps the capability from the model, if it does.
fn blocking_reason(facts: &CapabilityVisibilityFacts, stage: VisibilityStage) -> (r: Option<String>)
    ensures
        match r {
            Some(m) => blocked_at(*facts, stage) == Some(m@),
            None => blocked_at(*facts, stage) is None,
        },
{
    let name = facts.capability_id.canonical_name.as_str();
    match stage {
        VisibilityStage::Discovery => {
            if facts.discovered {
                return None;
            }
            let mut m = owned("capability ");
            m.append(name);
            m.append(" was not discovered by any source");
            Some(m)
        },
        VisibilityStage::Config => {
            if !facts.config_disabled {
                return None;
            }
            let mut m = owned("capability ");
            m.append(name);
            m.append(" is disabled by configuration");
            Some(m)
        },
        VisibilityStage::NameConflict => match &facts.name_conflict_with {
            Some(winner) => {
                let mut m = owned("canonical name ");
                m.append(name);
                m.append(" lost conflict resolution to ");
                m.append(winner.canonical_name.as_str());
                Some(m)
            },
            None => None,
        },
        VisibilityStage::Provider => match &facts.provider {
            ProviderStatus::Failed(e) => {
                let mut m = owned("provider failed: ");
                m.append(e.as_str());
                Some(m)
            },
            ProviderStatus::Healthy => None,
        },
        VisibilityStage::Exposure => {
            let hidden = match facts.exposure {
                ToolExposure::AppOnly => true,
                ToolExposure::Internal => true,
                ToolExposure::Disabled => true,
                ToolExposure::CodeMode => {
                    return Some(
                        owned("exposure CodeMode is only callable from code-mode sub-agents"),
                    );
                },
                _ => false,
            };
            if !hidden {
                return None;
            }
            let mut m = owned("exposure ");
            m.append(facts.exposure.name());
            m.append(" is not model-visible");
            Some(m)
        },
        VisibilityStage::Policy => match &facts.policy {
            PolicyVisibility::Filtered(rule) => {
                let mut m = owned("filtered by policy rule: ");
                m.append(rule.as_str());
                Some(m)
            },
            PolicyVisibility::Allowed => None,
        },
        VisibilityStage::Budget => match facts.budget {
            BudgetStatus::Dropped => Some(
                owned("dropped: Direct schema budget exceeded and capability could not be demoted"),
            ),
            _ => None,
        },
        VisibilityStage::McpConnection => match &facts.mcp_conn {
            McpConnStatus::AuthRequired => Some(owned("MCP server requires authentication")),
            McpConnStatus::ConnectionFailed(e) => {
                let mut m = owned("MCP connection failed: ");
                m.append(e.as_str());
                Some(m)
            },
            McpConnStatus::Ready => None,
        },
        VisibilityStage::Generation => match facts.generation {
            GenerationStatus::Stale { step_generation, published_generation } => {
                let mut m = owned("step capability generation ");
                m.append(decimal_string(step_generation).as_str());
                m.append(" predates published generation ");
                m.append(decimal_string(published_generation).as_str());
                Some(m)
            },
            GenerationStatus::Current => None,
        },
        VisibilityStage::Revision => match facts.revision {
            RevisionStatus::StaleRejected { pinned_revision, current_revision } => {
                let mut m = owned("pinned revision ");
                m.append(decimal_string(pinned_revision).as_str());
                m.append(" rejected: current revision is ");
                m.append(decimal_string(current_revision).as_str());
                Some(m)
            },
            RevisionStatus::Current => None,
        },
    }
}

impl CapabilityExplainer {
    /// Looks at the stages in order and stops at the first that keeps the
    /// capability from the model. Where none does, exposure and budget decide.
    pub fn explain(facts: &CapabilityVisibilityFacts) -> (r: CapabilityExplanation)
        ensures
            r.capability_id@ == facts.capability_id@,
            r.snapshot_id@ == facts.snapshot_id@,
            r.verdict@ == explained_verdict(*facts),
            chain_view(r.chain@) == explained_chain(*facts),
    {
        let mut chain: Vec<CausalLink> = Vec::new();
        let mut i: usize = 0;
        assert(chain_view(chain@) =~= passed_stages(0));
        while i < 10
            invariant
                i <= 10,
                first_blocking(*facts, i as int) == first_blocking(*facts, 0),
                chain_view(chain@) == passed_stages(i as nat),
            decreases 10 - i,
        {
            let stage = nth_stage(i);
            let ghost before = chain_view(chain@);
            match blocking_reason(facts, stage) {
                Some(reason) => {
                    chain.push(CausalLink { stage, passed: false, detail: reason.clone() });
                    assert(chain_view(chain@) =~= explained_chain(*facts));
                    return CapabilityExplanation {
                        capability_id: facts.capability_id.clone(),
                        snapshot_id: facts.snapshot_id.clone(),
                        verdict: VisibilityVerdict::Invisible { decisive: stage, reason },
                        chain,
                    };
                },
                None => {
                    chain.push(CausalLink { stage, passed: true, detail: owned("ok") });
                    assert(chain_view(chain@) =~= before.push((stage, true, "ok"@)));
                    assert(passed_stages((i + 1) as nat) =~= before.push((stage, true, "ok"@)));
                },
            }
            i = i + 1;
        }
        assert(chain_view(chain@) =~= explained_chain(*facts));
        let verdict = match (facts.exposure, facts.budget) {
            (ToolExposure::Direct, BudgetStatus::Within) => VisibilityVerdict::VisibleDirect,
            _ => VisibilityVerdict::VisibleDeferred,
        };
        CapabilityExplanation {
            capability_id: facts.capability_id.clone(),
            snapshot_id: facts.snapshot_id.clone(),
            verdict,
            chain,
        }
    }
}

proof fn lemma_first_blocking(f: CapabilityVisibilityFacts, i: int)
    requires
        0 <= i <= 10,
    ensures
        i <= first_blocking(f, i) <= 10,
        first_blocking(f, i) < 10 ==> blocked_at(f, stage_at(first_blocking(f, i))) is Some,
        forall|k: int|
            i <= k < first_blocking(f, i) ==> blocked_at(f, #[trigger] stage_at(k)) is None,
    decreases 10 - i,
{
    if i < 10 && blocked_at(f, stage_at(i)) is None {
        lemma_first_blocking(f, i + 1);
    }
}

/// A capability that some stage keeps back is invisible for the first such
/// stage, and the chain ends there.
pub proof fn the_decisive_stage_is_the_first(f: CapabilityVisibilityFacts, d: int)
    requires
        0 <= d < 10,
        blocked_at(f, stage_at(d)) is Some,
        forall|k: int| 0 <= k < d ==> blocked_at(f, #[trigger] stage_at(k)) is None,
    ensures
        explained_verdict(f) == VerdictView::Invisible(
            stage_at(d),
            blocked_at(f, stage_at(d))->0,
        ),
        explained_chain(f).len() == d + 1,
        explained_chain(f)[d] == (stage_at(d), false, blocked_at(f, stage_at(d))->0),
        forall|k: int| 0 <= k < d ==> (#[trigger] explained_chain(f)[k]).1,
{
    lemma_first_blocking(f, 0);
    let b = first_blocking(f, 0);
    if b < d {
        assert(blocked_at(f, stage_at(b)) is None);
    }
    if d < b {
        assert(blocked_at(f, stage_at(d)) is None);
    }
}

/// A deferred capability that nothing holds back can be found, however the
/// budget stands short of dropping it.
pub proof fn deferred_capabilities_can_be_found(f: CapabilityVisibilityFacts)
    requires
        f.exposure == ToolExposure::Deferred,
        forall|k: int| 0 <= k < 10 ==> blocked_at(f, #[trigger] stage_at(k)) is None,
    ensures
        explained_verdict(f) == VerdictView::VisibleDeferred,
        explained_chain(f).len() == 10,
{
    lemma_first_blocking(f, 0);
    let b = first_blocking(f, 0);
    if b < 10 {
        assert(blocked_at(f, stage_at(b)) is None);
    }
}

/// The model sees a capability in its first request exactly when no stage
/// holds it back, it is exposed directly and it is within the budget.
pub proof fn direct_visibility(f: CapabilityVisibilityFacts)
    ensures
        explained_verdict(f) == VerdictView::VisibleDirect <==> (f.exposure == ToolExposure::Direct
            && f.budget == BudgetStatus::Within && forall|k: int|
            0 <= k < 10 ==> blocked_at(f, #[trigger] stage_at(k)) is None),
{
    lemma_first_blocking(f, 0);
    let b = first_blocking(f, 0);
    if b < 10 {
        assert(blocked_at(f, stage_at(b)) is Some);
    }
}

/// The chain ends at the decisive stage: its last link is the only one that did
/// not pass, and it names the stage and the reason of the verdict. Where the
/// capability is visible, every stage passed.
pub proof fn chains_end_at_the_decisive_stage(f: CapabilityVisibilityFacts)
    ensures
        match explained_verdict(f) {
            VerdictView::Invisible(stage, reason) => {
                &&& explained_chain(f).len() > 0
                &&& explained_chain(f).last() == (stage, false, reason)
                &&& forall|k: int|
                    0 <= k < explained_chain(f).len() - 1 ==> (#[trigger] explained_chain(f)[k]).1
            },
            _ => explained_chain(f).len() == 10 && forall|k: int|
                0 <= k < 10 ==> (#[trigger] explained_chain(f)[k]).1,
        },
{
    lemma_first_blocking(f, 0);
}

/// A capability is visible exactly when it was discovered, is enabled, has its
/// name to itself, comes from a healthy provider, is exposed to the model, is
/// allowed, was not dropped, is connected and is up to date.
pub proof fn visible_capabilities_meet_every_condition(f: CapabilityVisibilityFacts)
    ensures
        !(explained_verdict(f) is Invisible) <==> {
            &&& f.discovered
            &&& !f.config_disabled
            &&& f.name_conflict_with is None
            &&& f.provider is Healthy
            &&& f.exposure is Direct || f.exposure is Deferred
            &&& f.policy is Allowed
            &&& !(f.budget is Dropped)
            &&& f.mcp_conn is Ready
            &&& f.generation is Current
            &&& f.revision is Current
        },
        explained_verdict(f) is VisibleDirect ==> f.exposure is Direct && f.budget is Within,
        explained_verdict(f) is VisibleDeferred ==> f.exposure is Deferred || f.budget is DemotedToDeferred,
{
    lemma_first_blocking(f, 0);
    let b = first_blocking(f, 0);
    assert(forall|k: int| 0 <= k < b ==> blocked_at(f, #[trigger] stage_at(k)) is None);
    assert(stage_at(0) is Discovery && stage_at(1) is Config && stage_at(2) is NameConflict && stage_at(3)
        is Provider && stage_at(4) is Exposure && stage_at(5) is Policy && stage_at(6) is Budget
        && stage_at(7) is McpConnection && stage_at(8) is Generation && stage_at(9) is Revision);
}

/// Of several reasons the first in the order of the stages is given.
pub proof fn the_first_reason_is_given(f: CapabilityVisibilityFacts)
    ensures
        explained_verdict(f) matches VerdictView::Invisible(s, reason) ==> {
            if !f.discovered {
                s is Discovery
            } else if f.config_disabled {
                s is Config
            } else if f.name_conflict_with is Some {
                s is NameConflict
            } else if f.provider is Failed {
                s is Provider
            } else if !(f.exposure is Direct || f.exposure is Deferred) {
                s is Exposure
            } else if f.policy is Filtered {
                s is Policy
            } else if f.budget is Dropped {
                s is Budget
            } else if !(f.mcp_conn is Ready) {
                s is McpConnection
            } else if f.generation is Stale {
                s is Generation
            } else {
                s is Revision && f.revision is StaleRejected
            }
        },
{
    lemma_first_blocking(f, 0);
    let b = first_blocking(f, 0);
    assert(forall|k: int| 0 <= k < b ==> blocked_at(f, #[trigger] stage_at(k)) is None);
    assert(stage_at(0) is Discovery && stage_at(1) is Config && stage_at(2) is NameConflict && stage_at(3)
        is Provider && stage_at(4) is Exposure && stage_at(5) is Policy && stage_at(6) is Budget
        && stage_at(7) is McpConnection && stage_at(8) is Generation && stage_at(9) is Revision);
}

/// The reasons of others are handed on: what a provider, a server or a rule says
/// stands at the end of the reason.
pub proof fn reasons_are_handed_on(f: CapabilityVisibilityFacts, m: String)
    ensures
        explained_verdict(f) matches VerdictView::Invisible(s, reason) ==> {
            &&& s is Provider && f.provider == ProviderStatus::Failed(m) ==> has_suffix(reason, m@)
            &&& s is Policy && f.policy == PolicyVisibility::Filtered(m) ==> has_suffix(reason, m@)
            &&& s is McpConnection && f.mcp_conn == McpConnStatus::ConnectionFailed(m) ==> has_suffix(
                reason,
                m@,
            )
            &&& s is NameConflict ==> f.name_conflict_with is Some && has_suffix(
                reason,
                f.name_conflict_with->0@.canonical_name,
            )
            &&& s is Generation ==> (f.generation matches GenerationStatus::Stale {
                step_generation,
                published_generation,
            } && has_suffix(reason, decimal(published_generation as nat)))
            &&& s is Revision ==> (f.revision matches RevisionStatus::StaleRejected {
                pinned_revision,
                current_revision,
            } && has_suffix(reason, decimal(current_revision as nat)))
        },
{
    lemma_first_blocking(f, 0);
    let b = first_blocking(f, 0);
    if let VerdictView::Invisible(s, reason) = explained_verdict(f) {
        let m2 = m@;
        lemma_said_last("provider failed: "@, m2);
        lemma_said_last("filtered by policy rule: "@, m2);
        lemma_said_last("MCP connection failed: "@, m2);
        if let Some(w) = f.name_conflict_with {
            lemma_said_last(
                "canonical name "@ + f.capability_id@.canonical_name + " lost conflict resolution to "@,
                w@.canonical_name,
            );
        }
        if let GenerationStatus::Stale { step_generation, published_generation } = f.generation {
            lemma_said_last(
                "step capability generation "@ + decimal(step_generation as nat)
                    + " predates published generation "@,
                decimal(published_generation as nat),
            );
        }
        if let RevisionStatus::StaleRejected { pinned_revision, current_revision } = f.revision {
            lemma_said_last(
                "pinned revision "@ + decimal(pinned_revision as nat)
                    + " rejected: current revision is "@,
                decimal(current_revision as nat),
            );
        }
    }
}

proof fn lemma_said_last(a: Seq<char>, b: Seq<char>)
    ensures
        has_suffix(a + b, b),
{
    assert((a + b).skip((a + b).len() - b.len()) =~= b);
}

} // verus!
