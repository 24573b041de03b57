use grodex::capability::authority::Authority;
use grodex::capability::descriptor::{
    CapabilityDescriptor, StepCapabilitySnapshot, ToolRouterBinding,
};
use grodex::capability::effective_revision::{EffectiveToolCallRevision, TransformKind};
use grodex::capability::explain::{
    BudgetStatus, CapabilityExplainer, CapabilityVisibilityFacts, GenerationStatus, McpConnStatus,
    PolicyVisibility, ProviderStatus, RevisionStatus, VisibilityStage, VisibilityVerdict,
};
use grodex::capability::exposure::ToolExposure;
use grodex::capability::fence::LiveRevocationFence;
use grodex::capability::id::{CapabilityId, CapabilityKind};
use grodex::capability::idmap::IdMap;
use grodex::capability::manager::{Availability, CapabilityManager, TurnBaseInputs};
use grodex::capability::promotion::{
    DeferredPromotionDecision, DeferredPromotionRecord, DeferredPromotionRequest,
};
use grodex::capability::router::{DefaultToolRouter, ToolRouter};
use grodex::capability::tool_search::{
    CapabilityPromotedEvent, DeferredToolIndex, IndexExclusionReason, PromotionPlanner,
    SearchOutcome, StalePromotion,
};
use grodex::capability::turn::{TurnCapabilityBase, TurnCapabilityOverlay};
use grodex::domain::id::{StepGeneration, StepSnapshotId, ToolCallId};
use grodex::json::{JsonEntry, JsonNumber, JsonValue};

// ── turns and fences ────────────────────────────────────────────────

fn make_cid(s: &str) -> CapabilityId {
    CapabilityId::new(Authority::Core, "test_provider", CapabilityKind::Tool, s)
}

fn make_snap(sid: &str, step_gen: u32) -> StepCapabilitySnapshot {
    let snapshot_id = StepSnapshotId::from_string(sid).unwrap_or_else(|_| StepSnapshotId::new());
    StepCapabilitySnapshot::builder(snapshot_id, StepGeneration::new(step_gen as u64)).build()
}

#[test]
fn turn_base_hash_stable_and_changes_on_content() {
    let snap1 = make_snap("ss_1", 1);
    let snap2 = make_snap("ss_2", 2);
    let ids = vec![make_cid("cap_a"), make_cid("cap_b")];
    let step_ids1: Vec<String> = [&snap1, &snap2]
        .iter()
        .map(|s| s.snapshot_id.to_string())
        .collect();
    let h1 = TurnCapabilityBase::compute_hash("t1", 5, 200, &ids, &step_ids1);
    let h2 = TurnCapabilityBase::compute_hash("t1", 5, 200, &ids, &step_ids1);
    assert_eq!(h1, h2, "hash must be deterministic");

    let step_ids2: Vec<String> = [&snap2, &snap1]
        .iter()
        .map(|s| s.snapshot_id.to_string())
        .collect();
    let h3 = TurnCapabilityBase::compute_hash("t1", 5, 200, &ids, &step_ids2);
    assert_ne!(h1, h3, "step-order change must change hash");
}

fn overlay(
    snap: &StepCapabilitySnapshot,
    promoted: Vec<CapabilityId>,
    deferred: Vec<CapabilityId>,
) -> TurnCapabilityOverlay {
    TurnCapabilityOverlay {
        turn_id: "t_1".into(),
        step_index: 0,
        snapshot_id: snap.snapshot_id.to_string(),
        promoted_ids: promoted,
        deferred_promoted_ids: deferred,
        revocation_fence_epoch: 0,
        reason: None,
    }
}

#[test]
fn overlay_validate_against_base_rejects_unpromotable() {
    let snap = make_snap("00000000-0000-4000-8000-000000000001", 1);
    let base = TurnCapabilityBase::new(
        "t_1",
        3,
        200,
        vec![make_cid("cap_a"), make_cid("cap_b")],
        vec![make_snap("00000000-0000-4000-8000-000000000001", 1)],
        false,
        0,
    );

    let good_overlay = overlay(&snap, vec![make_cid("cap_a")], vec![]);
    assert!(good_overlay.validate_against(&base).is_ok());

    assert!(!good_overlay.is_empty(&base));
    let mut idle = overlay(&snap, vec![], vec![]);
    assert!(idle.is_empty(&base));
    idle.revocation_fence_epoch = 1;
    assert!(!idle.is_empty(&base));

    let bad_overlay = overlay(&snap, vec![make_cid("cap_Z_NOT_IN_BASE")], vec![]);
    let err = bad_overlay
        .validate_against(&base)
        .expect_err("should reject");
    assert!(
        err.contains("not in base.promotable_ids"),
        "unexpected err: {err}"
    );

    let bad_def = overlay(&snap, vec![make_cid("cap_a")], vec![make_cid("cap_b")]);
    let err = bad_def
        .validate_against(&base)
        .expect_err("should reject deferred");
    assert!(
        err.contains("forbids deferred promotion"),
        "unexpected err: {err}"
    );
}

#[test]
fn live_revocation_fence_monotonic() {
    let mut fence = LiveRevocationFence::new();
    assert_eq!(fence.epoch(), 0);

    let n = fence.revoke_ids(&vec![make_cid("a"), make_cid("b")]);
    assert_eq!(n, 2);
    assert_eq!(fence.individually_revoked_count(), 2);
    assert!(fence.was_revoked_before(&make_cid("a"), 0));
    assert!(!fence.was_revoked_before(&make_cid("c"), 0));

    let n2 = fence.revoke_ids(&vec![make_cid("a"), make_cid("c")]);
    assert_eq!(n2, 1);
    assert_eq!(fence.individually_revoked_count(), 3);

    let new_epoch = fence.revoke_all();
    assert_eq!(new_epoch, 1);
    assert_eq!(fence.epoch(), 1);
    assert!(fence.was_revoked_before(&make_cid("a"), 1));

    assert!(!fence.was_revoked_before(&make_cid("a"), 0));

    let survivors = fence.filter_revoked(
        &vec![make_cid("a"), make_cid("b"), make_cid("c"), make_cid("d")],
        1,
    );
    assert_eq!(survivors, vec![make_cid("d")]);
}

// ── revisions of arguments ──────────────────────────────────────────

fn tcid() -> ToolCallId {
    ToolCallId::from_string("00000000-0000-4000-8000-000000000000").unwrap()
}

fn paths(ps: &[&str]) -> JsonValue {
    JsonValue::Array(ps.iter().map(|p| JsonValue::Text(p.to_string())).collect())
}

fn number(n: u64) -> JsonValue {
    JsonValue::Number(JsonNumber::Unsigned(n))
}

#[test]
fn new_revision_populates_fields_and_hash() {
    let requested = JsonValue::object().with("paths", paths(&["/a", "/b", "/c"]));
    let effective = JsonValue::object().with("paths", paths(&["/a"]));
    let rev = EffectiveToolCallRevision::new(
        tcid(),
        1,
        requested.duplicate(),
        effective.duplicate(),
        TransformKind::ArgsConstrained,
        "user-42".into(),
    );
    assert_eq!(rev.tool_call_id, tcid());
    assert_eq!(rev.revision, 1);
    assert_eq!(rev.requested_args, requested);
    assert_eq!(rev.effective_args, effective);
    assert_eq!(rev.transform_kind, TransformKind::ArgsConstrained);
    assert_eq!(rev.approved_by, "user-42");
    assert_eq!(
        rev.effective_args_hash,
        EffectiveToolCallRevision::compute_hash(&effective)
    );
    assert!(!rev.effective_args_hash.is_empty());
}

#[test]
fn hash_is_stable_for_same_args() {
    let a = JsonValue::object()
        .with("paths", paths(&["/a", "/b"]))
        .with("mode", JsonValue::Text("ro".into()));
    let rev1 = EffectiveToolCallRevision::new(
        tcid(),
        1,
        a.duplicate(),
        a.duplicate(),
        TransformKind::ScopeNarrowed,
        "u".into(),
    );
    let rev2 = EffectiveToolCallRevision::new(
        tcid(),
        2,
        a.duplicate(),
        a,
        TransformKind::ScopeNarrowed,
        "u".into(),
    );
    assert_eq!(rev1.effective_args_hash, rev2.effective_args_hash);
}

#[test]
fn hash_is_canonical_regardless_of_key_order() {
    let v1 = JsonValue::object().with("a", number(1)).with("b", number(2));
    let v2 = JsonValue::object().with("b", number(2)).with("a", number(1));
    assert_eq!(
        EffectiveToolCallRevision::compute_hash(&v1),
        EffectiveToolCallRevision::compute_hash(&v2),
    );
}

#[test]
fn hash_ignores_the_order_of_entries_at_every_depth() {
    let entry = |key: &str, value: JsonValue| JsonEntry {
        key: key.into(),
        value,
    };
    let inner = |first: &str, second: &str| {
        JsonValue::Array(vec![JsonValue::Object(vec![
            entry(first, number(1)),
            entry(second, number(1)),
        ])])
    };
    let a = JsonValue::Object(vec![entry("y", inner("p", "q")), entry("x", number(2))]);
    let b = JsonValue::Object(vec![entry("x", number(2)), entry("y", inner("q", "p"))]);
    assert_ne!(a, b);
    assert_eq!(a.sorted(), b.sorted());
    assert_eq!(
        EffectiveToolCallRevision::compute_hash(&a),
        EffectiveToolCallRevision::compute_hash(&b),
    );
}

#[test]
fn hash_differs_for_different_args() {
    let a = JsonValue::object().with("paths", paths(&["/a"]));
    let b = JsonValue::object().with("paths", paths(&["/a", "/b"]));
    assert_ne!(
        EffectiveToolCallRevision::compute_hash(&a),
        EffectiveToolCallRevision::compute_hash(&b),
    );
}

#[test]
fn transform_kind_predicates_are_correct() {
    let scope_rev = EffectiveToolCallRevision::new(
        tcid(),
        1,
        JsonValue::object().with("k", number(1)),
        JsonValue::object().with("k", number(1)),
        TransformKind::ScopeNarrowed,
        "u".into(),
    );
    let args_rev = EffectiveToolCallRevision::new(
        tcid(),
        1,
        JsonValue::object().with("paths", paths(&["/a", "/b"])),
        JsonValue::object().with("paths", paths(&["/a"])),
        TransformKind::ArgsConstrained,
        "u".into(),
    );
    assert!(scope_rev.is_scope_narrowed());
    assert!(!scope_rev.is_args_constrained());
    assert!(args_rev.is_args_constrained());
    assert!(!args_rev.is_scope_narrowed());
}

// ── explanations ────────────────────────────────────────────────────

fn facts() -> CapabilityVisibilityFacts {
    CapabilityVisibilityFacts {
        capability_id: CapabilityId::new(Authority::Mcp, "srv", CapabilityKind::Tool, "mcp.deploy"),
        snapshot_id: "snap-1".into(),
        discovered: true,
        config_disabled: false,
        name_conflict_with: None,
        provider: ProviderStatus::Healthy,
        mcp_conn: McpConnStatus::Ready,
        exposure: ToolExposure::Direct,
        policy: PolicyVisibility::Allowed,
        budget: BudgetStatus::Within,
        generation: GenerationStatus::Current,
        revision: RevisionStatus::Current,
    }
}

#[test]
fn healthy_direct_capability_is_visible_with_full_chain() {
    let ex = CapabilityExplainer::explain(&facts());
    assert_eq!(ex.verdict, VisibilityVerdict::VisibleDirect);
    assert_eq!(ex.chain.len(), 10);
    assert!(ex.chain.iter().all(|l| l.passed));
}

#[test]
fn decisive_factor_is_the_first_blocking_stage() {
    let mut f = facts();
    f.config_disabled = true;
    f.policy = PolicyVisibility::Filtered("deny-*".into());
    let ex = CapabilityExplainer::explain(&f);
    match &ex.verdict {
        VisibilityVerdict::Invisible { decisive, reason } => {
            assert_eq!(*decisive, VisibilityStage::Config);
            assert!(reason.contains("disabled by configuration"));
        }
        other => panic!("expected Invisible, got {other:?}"),
    }
    assert_eq!(ex.chain.len(), 2);
    assert!(ex.chain[0].passed);
    assert!(!ex.chain[1].passed);
}

#[test]
fn each_acceptance9_cause_is_distinguishable() {
    let mut seen = Vec::new();

    let mut f = facts();
    f.provider = ProviderStatus::Failed("timeout".into());
    seen.push(CapabilityExplainer::explain(&f));

    let mut f = facts();
    f.mcp_conn = McpConnStatus::AuthRequired;
    seen.push(CapabilityExplainer::explain(&f));

    let mut f = facts();
    f.config_disabled = true;
    seen.push(CapabilityExplainer::explain(&f));

    let mut f = facts();
    f.exposure = ToolExposure::Internal;
    seen.push(CapabilityExplainer::explain(&f));

    let mut f = facts();
    f.policy = PolicyVisibility::Filtered("rule-x".into());
    seen.push(CapabilityExplainer::explain(&f));

    let mut f = facts();
    f.budget = BudgetStatus::Dropped;
    seen.push(CapabilityExplainer::explain(&f));

    let decisives: Vec<VisibilityStage> = seen
        .iter()
        .map(|ex| match &ex.verdict {
            VisibilityVerdict::Invisible { decisive, .. } => *decisive,
            other => panic!("expected Invisible, got {other:?}"),
        })
        .collect();
    assert_eq!(
        decisives,
        vec![
            VisibilityStage::Provider,
            VisibilityStage::McpConnection,
            VisibilityStage::Config,
            VisibilityStage::Exposure,
            VisibilityStage::Policy,
            VisibilityStage::Budget,
        ]
    );
    match &seen[1].verdict {
        VisibilityVerdict::Invisible { reason, .. } => {
            assert!(reason.contains("authentication"));
        }
        _ => unreachable!(),
    }
}

#[test]
fn deferred_is_searchable_not_invisible() {
    let mut f = facts();
    f.exposure = ToolExposure::Deferred;
    let ex = CapabilityExplainer::explain(&f);
    assert_eq!(ex.verdict, VisibilityVerdict::VisibleDeferred);
}

#[test]
fn budget_demotion_lands_in_deferred() {
    let mut f = facts();
    f.budget = BudgetStatus::DemotedToDeferred;
    let ex = CapabilityExplainer::explain(&f);
    assert_eq!(ex.verdict, VisibilityVerdict::VisibleDeferred);
    let budget_link = ex
        .chain
        .iter()
        .find(|l| l.stage == VisibilityStage::Budget)
        .unwrap();
    assert!(budget_link.passed);
}

#[test]
fn stale_generation_and_stale_revision_are_separate_causes() {
    let mut f = facts();
    f.generation = GenerationStatus::Stale {
        step_generation: 3,
        published_generation: 5,
    };
    let ex = CapabilityExplainer::explain(&f);
    match &ex.verdict {
        VisibilityVerdict::Invisible { decisive, reason } => {
            assert_eq!(*decisive, VisibilityStage::Generation);
            assert!(reason.contains("3") && reason.contains("5"));
        }
        other => panic!("expected Invisible, got {other:?}"),
    }

    let mut f = facts();
    f.revision = RevisionStatus::StaleRejected {
        pinned_revision: 4,
        current_revision: 6,
    };
    let ex = CapabilityExplainer::explain(&f);
    match &ex.verdict {
        VisibilityVerdict::Invisible { decisive, reason } => {
            assert_eq!(*decisive, VisibilityStage::Revision);
            assert!(reason.contains("4") && reason.contains("6"));
        }
        other => panic!("expected Invisible, got {other:?}"),
    }
}

#[test]
fn undiscovered_short_circuits_the_chain() {
    let mut f = facts();
    f.discovered = false;
    let ex = CapabilityExplainer::explain(&f);
    assert_eq!(ex.chain.len(), 1);
    match &ex.verdict {
        VisibilityVerdict::Invisible { decisive, .. } => {
            assert_eq!(*decisive, VisibilityStage::Discovery);
        }
        other => panic!("expected Invisible, got {other:?}"),
    }
}

#[test]
fn name_conflict_is_attributed_to_the_winner() {
    let mut f = facts();
    f.name_conflict_with = Some(CapabilityId::new(
        Authority::Core,
        "builtin",
        CapabilityKind::Tool,
        "deploy",
    ));
    let ex = CapabilityExplainer::explain(&f);
    match &ex.verdict {
        VisibilityVerdict::Invisible { decisive, reason } => {
            assert_eq!(*decisive, VisibilityStage::NameConflict);
            assert!(reason.contains("deploy"));
        }
        other => panic!("expected Invisible, got {other:?}"),
    }
}

// ── search and promotion ────────────────────────────────────────────

fn id(name: &str) -> CapabilityId {
    CapabilityId::new(Authority::Core, "builtin", CapabilityKind::Tool, name)
}

fn base(promotable: Vec<CapabilityId>, deferred_allowed: bool) -> TurnCapabilityBase {
    let snaps: Vec<StepCapabilitySnapshot> = Vec::new();
    TurnCapabilityBase::new("turn-1", 7, 3, promotable, snaps, deferred_allowed, 0)
}

fn candidates() -> Vec<(CapabilityId, ToolExposure, u64, String, String)> {
    vec![
        (
            id("mcp.deploy"),
            ToolExposure::Deferred,
            4,
            "deploy".into(),
            "Deploy the service".into(),
        ),
        (
            id("core.read"),
            ToolExposure::Direct,
            1,
            "read".into(),
            "Read a file".into(),
        ),
        (
            id("internal.diag"),
            ToolExposure::Internal,
            2,
            "diag".into(),
            "Internal diagnostics".into(),
        ),
        (
            id("app.focus"),
            ToolExposure::AppOnly,
            1,
            "focus".into(),
            "UI focus action".into(),
        ),
    ]
}

#[test]
fn index_admits_only_deferred_in_turn_base() {
    let b = base(
        vec![
            id("mcp.deploy"),
            id("core.read"),
            id("internal.diag"),
            id("app.focus"),
        ],
        true,
    );
    let idx = DeferredToolIndex::build(&b, &candidates(), &vec![]);
    assert_eq!(idx.entries.len(), 1);
    assert_eq!(idx.entries[0].capability_id, id("mcp.deploy"));
    let reasons: Vec<IndexExclusionReason> = idx.exclusions.iter().map(|e| e.reason).collect();
    assert_eq!(
        reasons,
        vec![
            IndexExclusionReason::NotDeferred,
            IndexExclusionReason::NotDeferred,
            IndexExclusionReason::NotDeferred,
        ]
    );
}

#[test]
fn policy_excluded_and_outside_turn_base_never_searchable() {
    let b = base(vec![id("mcp.deploy")], true);
    let mut cands = candidates();
    cands.push((
        id("mcp.new"),
        ToolExposure::Deferred,
        1,
        "new".into(),
        "Brand new".into(),
    ));
    let idx = DeferredToolIndex::build(&b, &cands, &vec![id("mcp.deploy")]);
    assert!(idx.entries.is_empty());
    assert!(idx
        .exclusions
        .iter()
        .any(|e| e.reason == IndexExclusionReason::PolicyExcluded));
    assert!(idx
        .exclusions
        .iter()
        .any(|e| e.reason == IndexExclusionReason::NotInTurnBase));
}

#[test]
fn search_fails_closed_when_promotion_not_allowed() {
    let b = base(vec![id("mcp.deploy")], false);
    let idx = DeferredToolIndex::build(&b, &candidates(), &vec![]);
    assert_eq!(idx.search(&b, "deploy"), SearchOutcome::PromotionNotAllowed);
}

#[test]
fn search_pins_revision_and_hash_is_deterministic() {
    let b = base(vec![id("mcp.deploy")], true);
    let idx = DeferredToolIndex::build(&b, &candidates(), &vec![]);
    let hits = match idx.search(&b, "  Deploy  ") {
        SearchOutcome::Hits(h) => h,
        other => panic!("expected hits, got {other:?}"),
    };
    assert_eq!(hits.len(), 1);
    assert_eq!(hits[0].pinned_revision, 4);
    assert_eq!(hits[0].query_hash, DeferredToolIndex::query_hash("deploy"));
    assert_eq!(idx.search(&b, "nonexistent"), SearchOutcome::Hits(vec![]));
}

#[test]
fn planner_pins_revision_and_emits_promoted_event() {
    let b = base(vec![id("mcp.deploy")], true);
    let idx = DeferredToolIndex::build(&b, &candidates(), &vec![]);
    let hits = match idx.search(&b, "deploy") {
        SearchOutcome::Hits(h) => h,
        _ => panic!(),
    };
    let mut planner = PromotionPlanner::new("turn-1");
    planner.record_hits(&hits, 2);
    assert!(planner.pending(&id("mcp.deploy")));

    let mut current = IdMap::new();
    current.insert(id("mcp.deploy"), 4u64);
    let planned = planner.plan_overlay(3, &current);
    assert_eq!(planned.valid_ids, vec![id("mcp.deploy")]);
    assert!(planned.stale.is_empty());
    let ev = &planned.events[0];
    assert_eq!(ev.pinned_revision, 4);
    assert_eq!(ev.source_step_index, 2);
    assert_eq!(ev.target_step_index, 3);
    assert_eq!(ev.query_hash, DeferredToolIndex::query_hash("deploy"));
    assert!(!planner.pending(&id("mcp.deploy")));
}

#[test]
fn changed_revision_is_stale_and_never_impersonated() {
    let b = base(vec![id("mcp.deploy")], true);
    let idx = DeferredToolIndex::build(&b, &candidates(), &vec![]);
    let hits = match idx.search(&b, "deploy") {
        SearchOutcome::Hits(h) => h,
        _ => panic!(),
    };
    let mut planner = PromotionPlanner::new("turn-1");
    planner.record_hits(&hits, 0);

    let mut current = IdMap::new();
    current.insert(id("mcp.deploy"), 5u64);
    let planned = planner.plan_overlay(1, &current);
    assert!(planned.valid_ids.is_empty());
    assert!(planned.events.is_empty());
    assert_eq!(
        planned.stale,
        vec![StalePromotion {
            capability_id: id("mcp.deploy"),
            pinned_revision: 4,
            current_revision: 5,
        }]
    );

    planner.record_hits(&hits, 0);
    let planned = planner.plan_overlay(1, &IdMap::new());
    assert_eq!(planned.stale.len(), 1);
    assert_eq!(planned.stale[0].current_revision, 0);
}

fn deploy_id() -> CapabilityId {
    CapabilityId::new(Authority::Mcp, "srv", CapabilityKind::Tool, "mcp.deploy")
}

fn read_id() -> CapabilityId {
    CapabilityId::new(Authority::Core, "builtin", CapabilityKind::Tool, "read")
}

fn two_step_turn() -> (CapabilityManager, TurnCapabilityBase) {
    let manager = CapabilityManager::new().with_allow_deferred_promotion(true);
    let snaps: Vec<StepCapabilitySnapshot> = (0..2)
        .map(|i| {
            StepCapabilitySnapshot::builder(StepSnapshotId::new(), StepGeneration::new(i as u64))
                .build()
        })
        .collect();
    let inputs = TurnBaseInputs {
        turn_id: "turn-e2e",
        capability_generation: 9,
        requested_authority_ceiling: 60,
        promotable_ids: vec![deploy_id(), read_id()],
        step_snapshots: snaps,
        request_deferred_promotion_allowed: true,
    };
    let base = manager.capture_turn_base(inputs);
    (manager, base)
}

fn turn_candidates() -> Vec<(CapabilityId, ToolExposure, u64, String, String)> {
    vec![
        (
            deploy_id(),
            ToolExposure::Deferred,
            4,
            "deploy".into(),
            "Deploy the service".into(),
        ),
        (
            read_id(),
            ToolExposure::Direct,
            1,
            "read".into(),
            "Read a file".into(),
        ),
    ]
}

#[test]
fn full_promotion_flow_reaches_next_step_overlay() {
    let (manager, base) = two_step_turn();

    let index = DeferredToolIndex::build(&base, &turn_candidates(), &vec![]);
    let hits = match index.search(&base, "deploy") {
        SearchOutcome::Hits(h) => h,
        other => panic!("expected hits, got {other:?}"),
    };
    assert_eq!(hits.len(), 1);
    assert_eq!(hits[0].pinned_revision, 4);

    let mut planner = PromotionPlanner::new(&base.turn_id);
    planner.record_hits(&hits, 0);

    let mut current = IdMap::new();
    current.insert(deploy_id(), 4u64);
    let planned = planner.plan_overlay(1, &current);
    assert_eq!(planned.valid_ids, vec![deploy_id()]);
    assert_eq!(
        planned.events,
        vec![CapabilityPromotedEvent {
            turn_id: "turn-e2e".into(),
            query_hash: DeferredToolIndex::query_hash("deploy"),
            capability_id: deploy_id(),
            pinned_revision: 4,
            source_step_index: 0,
            target_step_index: 1,
        }]
    );

    let overlay = manager
        .suggest_overlay(
            &base,
            1,
            Vec::new(),
            planned.valid_ids,
            Some("tool-search".into()),
        )
        .expect("overlay must validate against the turn base");
    assert_eq!(overlay.deferred_promoted_ids, vec![deploy_id()]);

    let applied = manager
        .apply_overlay(&base, 1, &overlay)
        .expect("overlay applies");
    assert!(applied.effective_promoted_ids.contains(&deploy_id()));

    let overlay0 = manager
        .suggest_overlay(&base, 0, vec![read_id()], Vec::new(), None)
        .expect("step 0 overlay");
    manager
        .validate_turn_consistency(&base, &vec![overlay0, overlay])
        .expect("turn consistent");
}

#[test]
fn stale_revision_never_reaches_the_overlay() {
    let (manager, base) = two_step_turn();
    let index = DeferredToolIndex::build(&base, &turn_candidates(), &vec![]);
    let hits = match index.search(&base, "deploy") {
        SearchOutcome::Hits(h) => h,
        _ => panic!(),
    };
    let mut planner = PromotionPlanner::new(&base.turn_id);
    planner.record_hits(&hits, 0);

    let mut current = IdMap::new();
    current.insert(deploy_id(), 5u64);
    let planned = planner.plan_overlay(1, &current);
    assert!(planned.valid_ids.is_empty());
    assert!(planned.events.is_empty());
    assert_eq!(planned.stale.len(), 1);
    assert_eq!(planned.stale[0].pinned_revision, 4);
    assert_eq!(planned.stale[0].current_revision, 5);

    let overlay = manager
        .suggest_overlay(&base, 1, Vec::new(), planned.valid_ids, None)
        .expect("empty overlay validates");
    assert!(overlay.deferred_promoted_ids.is_empty());
}

#[test]
fn session_gate_blocks_the_whole_flow_fail_closed() {
    let manager = CapabilityManager::new();
    let snaps: Vec<StepCapabilitySnapshot> = (0..1)
        .map(|_| {
            StepCapabilitySnapshot::builder(StepSnapshotId::new(), StepGeneration::new(0)).build()
        })
        .collect();
    let base = manager.capture_turn_base(TurnBaseInputs {
        turn_id: "turn-locked",
        capability_generation: 1,
        requested_authority_ceiling: 60,
        promotable_ids: vec![deploy_id()],
        step_snapshots: snaps,
        request_deferred_promotion_allowed: true,
    });
    assert!(!base.deferred_promotion_allowed);
    let index = DeferredToolIndex::build(&base, &turn_candidates(), &vec![]);
    assert_eq!(
        index.search(&base, "deploy"),
        SearchOutcome::PromotionNotAllowed
    );
}

#[test]
fn steps_without_an_overlay_are_reported() {
    let (manager, base) = two_step_turn();
    let overlay0 = manager
        .suggest_overlay(&base, 0, vec![read_id()], Vec::new(), None)
        .unwrap();
    let err = manager
        .validate_turn_consistency(&base, &vec![overlay0])
        .unwrap_err();
    assert_eq!(err.turn_id, "turn-e2e");
}

#[test]
fn revoked_capabilities_are_not_promoted() {
    let (mut manager, base) = two_step_turn();
    manager.revocation_fence_mut().revoke_ids(&vec![read_id()]);
    let overlay = manager
        .suggest_overlay(&base, 0, vec![read_id()], Vec::new(), None)
        .unwrap();
    assert!(overlay.promoted_ids.is_empty());
}

#[test]
fn sessions_bound_their_turns() {
    let manager = CapabilityManager::new().with_session_authority_ceiling(10);
    let base = manager.capture_turn_base(TurnBaseInputs {
        turn_id: "t",
        capability_generation: 1,
        requested_authority_ceiling: 60,
        promotable_ids: vec![],
        step_snapshots: vec![],
        request_deferred_promotion_allowed: false,
    });
    assert_eq!(base.authority_ceiling, 10);
    let ids = CapabilityManager::compute_promotable_ids(
        255,
        &vec![
            (
                read_id(),
                CapabilityKind::Tool,
                Authority::Core,
                Availability::Available,
            ),
            (
                deploy_id(),
                CapabilityKind::Tool,
                Authority::Mcp,
                Availability::Revoked,
            ),
        ],
    );
    assert_eq!(ids, vec![read_id()]);
}

#[test]
fn requests_for_promotion_apply_once() {
    let (_, base) = two_step_turn();
    let request = DeferredPromotionRequest::new(&base, deploy_id(), "needed".into(), None).unwrap();
    let record =
        DeferredPromotionRecord::decide(request, DeferredPromotionDecision::Approved, None);
    let mut overlay = TurnCapabilityOverlay {
        turn_id: "turn-e2e".into(),
        step_index: 0,
        snapshot_id: base.step_snapshots[0].snapshot_id.to_string(),
        promoted_ids: vec![],
        deferred_promoted_ids: vec![],
        revocation_fence_epoch: 0,
        reason: None,
    };
    record.apply_to_overlay(&mut overlay);
    record.apply_to_overlay(&mut overlay);
    assert_eq!(overlay.deferred_promoted_ids, vec![deploy_id()]);
    assert!(overlay.validate_against(&base).is_ok());
    assert!(DeferredPromotionRequest::new(
        &base,
        CapabilityId::new(Authority::App, "x", CapabilityKind::Tool, "y"),
        "r".into(),
        None
    )
    .is_err());
}

// ── routing ─────────────────────────────────────────────────────────

fn descriptor(id: CapabilityId, exposure: ToolExposure) -> CapabilityDescriptor {
    CapabilityDescriptor {
        display_name: id.canonical_name.clone(),
        id,
        description: String::new(),
        exposure,
        trust_level: 0,
        input_schema: None,
        concurrency_class: None,
        side_effect_class: None,
        source_locator: String::new(),
        content_hash: String::new(),
        capability_revision: 1,
        generation: 1,
    }
}

#[test]
fn routers_resolve_names_and_hide_what_no_model_sees() {
    let router = DefaultToolRouter::new(&vec![
        descriptor(read_id(), ToolExposure::Direct),
        descriptor(deploy_id(), ToolExposure::Deferred),
        descriptor(id("internal.diag"), ToolExposure::Internal),
    ]);
    assert_eq!(router.resolve("read").unwrap().id, read_id());
    assert!(router.resolve("write").is_none());
    assert!(router.contains(&deploy_id()));
    let listed: Vec<&str> = router
        .list_model_visible()
        .iter()
        .map(|d| d.id.canonical_name.as_str())
        .collect();
    assert_eq!(
        listed,
        vec![
            read_id().canonical_name.as_str(),
            deploy_id().canonical_name.as_str()
        ]
    );

    let mut all = IdMap::new();
    all.insert(read_id(), descriptor(read_id(), ToolExposure::Direct));
    let bound = DefaultToolRouter::from_binding(
        &ToolRouterBinding {
            tool_capability_ids: vec![read_id(), deploy_id()],
            source_generation: 1,
        },
        &all,
    );
    assert!(bound.contains(&read_id()));
    assert!(!bound.contains(&deploy_id()));
}

#[test]
fn code_mode_is_kept_back_by_its_exposure() {
    let code_mode = CapabilityVisibilityFacts {
        exposure: ToolExposure::CodeMode,
        ..facts()
    };
    let e = CapabilityExplainer::explain(&code_mode);
    assert_eq!(
        e.verdict,
        VisibilityVerdict::Invisible {
            decisive: VisibilityStage::Exposure,
            reason: "exposure CodeMode is only callable from code-mode sub-agents".into()
        }
    );
    assert_eq!(e.chain.len(), 5);
    assert_eq!(e.chain[4].stage, VisibilityStage::Exposure);
    assert!(!e.chain[4].passed);
    assert!(e.chain[..4].iter().all(|l| l.passed));
}

#[test]
fn identities_have_a_stable_notation() {
    let id = make_cid("read_file");
    let level = Authority::Core.level();
    assert_eq!(
        id.stable_hash_input(),
        format!("{level}|test_provider|{}|read_file", CapabilityKind::Tool.as_str())
    );
    assert_eq!(
        id.debug_text(),
        "CapabilityId { authority: Core, provider_id: \"test_provider\", kind: Tool, canonical_name: \"read_file\" }"
    );
}

#[test]
fn turns_are_summarized_by_key() {
    let base = TurnCapabilityBase::new(
        "t_1",
        3,
        200,
        vec![make_cid("cap_a"), make_cid("cap_b")],
        vec![make_snap("00000000-0000-4000-8000-000000000001", 1)],
        true,
        7,
    );
    assert!(base.is_promotable(&make_cid("cap_a")));
    assert!(!base.is_promotable(&make_cid("cap_c")));
    assert!(base.step_snapshot(0).is_some());
    assert!(base.step_snapshot(1).is_none());
    let summary = CapabilityManager::summarize_turn(&base);
    let said: Vec<(&str, &str)> = summary
        .iter()
        .map(|p| (p.0.as_str(), p.1.as_str()))
        .collect();
    assert_eq!(
        said,
        vec![
            ("authority_ceiling", "200"),
            ("base_hash", base.base_hash.as_str()),
            ("deferred_promotion_allowed", "true"),
            ("policy_epoch_at_start", "7"),
            ("promotable_id_count", "2"),
            ("step_count", "1"),
            ("turn_generation", "3"),
            ("turn_id", "t_1"),
        ]
    );
}
