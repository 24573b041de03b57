//! The rules of a session: capturing the baseline of a turn, suggesting and
//! applying the overlay of a step, and checking a turn as a whole.

use vstd::prelude::*;
use vstd::string::*;

use crate::capability::authority::{authority_level, Authority};
use crate::capability::descriptor::StepCapabilitySnapshot;
use crate::capability::fence::{survivors_were_there, FenceView, LiveRevocationFence};
use crate::capability::id::{
    clone_ids, ids_view, is_listing, listing, listings_have_every_member_once, sorted_ids,
    CapabilityId, CapabilityKind, IdView,
};
use crate::capability::turn::{
    base_view_of, overlay_error, overlay_valid, overlays_keep_to_their_baseline, snapshot_numbers,
    valid_overlays_break_no_rule,
    within, BaseView, OverlayView, TurnCapabilityBase, TurnCapabilityOverlay,
};
use crate::domain::id::uuid_text_of;
use crate::text::{decimal, decimal_string, opt_view, owned};

verus! {

/// A broken rule.
#[derive(Debug, PartialEq, Eq)]
pub struct CapabilityViolation {
    /// The short name of the rule.
    pub code: String,
    /// What went wrong, for people.
    pub message: String,
    /// The capabilities concerned.
    pub capability_ids: Vec<CapabilityId>,
    pub turn_id: String,
    pub step_index: Option<usize>,
}

/// The mathematical value of a [`CapabilityViolation`].
pub struct ViolationView {
    pub code: Seq<char>,
    pub message: Seq<char>,
    pub capability_ids: Seq<IdView>,
    pub turn_id: Seq<char>,
    pub step_index: Option<usize>,
}

impl View for CapabilityViolation {
    type V = ViolationView;

    open spec fn view(&self) -> ViolationView {
        ViolationView {
            code: self.code@,
            message: self.message@,
            capability_ids: ids_view(self.capability_ids@),
            turn_id: self.turn_id@,
            step_index: self.step_index,
        }
    }
}

/// The capability rules of a session.
#[derive(Debug)]
pub struct CapabilityManager {
    revocation_fence: LiveRevocationFence,
    session_authority_ceiling: Option<u8>,
    session_allow_deferred_promotion: bool,
}

/// The mathematical value of a [`CapabilityManager`].
pub struct ManagerView {
    pub fence: FenceView,
    pub authority_ceiling: Option<u8>,
    pub allow_deferred_promotion: bool,
}

impl View for CapabilityManager {
    type V = ManagerView;

    closed spec fn view(&self) -> ManagerView {
        ManagerView {
            fence: self.revocation_fence@,
            authority_ceiling: self.session_authority_ceiling,
            allow_deferred_promotion: self.session_allow_deferred_promotion,
        }
    }
}

/// What is known when a turn begins.
#[derive(Debug)]
pub struct TurnBaseInputs<'a> {
    pub turn_id: &'a str,
    pub capability_generation: u64,
    /// The authority that the turn asks for.
    pub requested_authority_ceiling: u8,
    /// The capabilities that could be promoted.
    pub promotable_ids: Vec<CapabilityId>,
    /// The snapshots of the steps, in order.
    pub step_snapshots: Vec<StepCapabilitySnapshot>,
    /// Whether the turn asks to promote deferred capabilities.
    pub request_deferred_promotion_allowed: bool,
}

/// An overlay that was found valid.
#[derive(Debug)]
pub struct AppliedOverlay<'a> {
    pub step_index: usize,
    pub overlay: &'a TurnCapabilityOverlay,
    /// The capabilities that are promoted and not revoked, in order.
    pub effective_promoted_ids: Vec<CapabilityId>,
}

/// Whether a capability can be promoted.
#[derive(Debug, Clone, Copy, PartialEq, Eq, Structural)]
pub enum Availability {
    Available,
    /// Only where deferred promotion is allowed.
    Deferred,
    Revoked,
    Disabled,
    Hidden,
}

/// The ceiling of a turn: what it asks for, cut to that of the session.
pub open spec fn clamped(requested: u8, session: Option<u8>) -> u8 {
    match session {
        Some(cap) => if cap < requested {
            cap
        } else {
            requested
        },
        None => requested,
    }
}

/// The baseline that a session captures.
pub open spec fn captured_base(
    m: ManagerView,
    turn_id: Seq<char>,
    generation: u64,
    requested_ceiling: u8,
    promotable_ids: Seq<IdView>,
    snapshot_ids: Seq<u128>,
    request_deferred: bool,
) -> BaseView {
    base_view_of(
        turn_id,
        generation,
        clamped(requested_ceiling, m.authority_ceiling),
        listing(promotable_ids),
        snapshot_ids,
        m.allow_deferred_promotion && request_deferred,
        m.fence.epoch,
    )
}

/// The overlay that the current epoch leaves of what a step asks for.
pub open spec fn suggested(
    f: FenceView,
    b: BaseView,
    step_index: usize,
    promoted: Seq<IdView>,
    deferred: Seq<IdView>,
    reason: Option<Seq<char>>,
) -> OverlayView {
    OverlayView {
        turn_id: b.turn_id,
        step_index,
        snapshot_id: uuid_text_of(b.snapshot_ids[step_index as int]),
        promoted_ids: f.survivors(listing(promoted), f.epoch),
        deferred_promoted_ids: f.survivors(listing(deferred), f.epoch),
        revocation_fence_epoch: f.epoch,
        reason,
    }
}

/// The violation of a step that the turn does not have.
pub open spec fn out_of_range(b: BaseView, step_index: usize) -> ViolationView {
    ViolationView {
        code: "step-out-of-range"@,
        message: "step_index "@ + decimal(step_index as nat) + " out of range for turn "@
            + b.turn_id + " with "@ + decimal(b.snapshot_ids.len()) + " steps"@,
        capability_ids: Seq::empty(),
        turn_id: b.turn_id,
        step_index: Some(step_index),
    }
}

/// The violation of a rule of overlays.
pub open spec fn broken_overlay(
    code: Seq<char>,
    message: Seq<char>,
    o: OverlayView,
    b: BaseView,
    step_index: usize,
) -> ViolationView {
    ViolationView {
        code,
        message,
        capability_ids: o.promoted_ids + o.deferred_promoted_ids,
        turn_id: b.turn_id,
        step_index: Some(step_index),
    }
}

/// Why an overlay cannot be applied to a step, if it cannot.
pub open spec fn apply_violation(f: FenceView, b: BaseView, step_index: usize, o: OverlayView) -> Option<
    ViolationView,
> {
    if o.step_index != step_index {
        Some(
            ViolationView {
                code: "overlay-step-mismatch"@,
                message: "apply_overlay called with step_index="@ + decimal(step_index as nat)
                    + " but overlay reports step_index="@ + decimal(o.step_index as nat),
                capability_ids: Seq::empty(),
                turn_id: b.turn_id,
                step_index: Some(step_index),
            },
        )
    } else {
        match overlay_error(o, b) {
            Some(m) => Some(broken_overlay("overlay-invariant"@, m, o, b, step_index)),
            None => if o.revocation_fence_epoch < f.epoch {
                Some(
                    ViolationView {
                        code: "overlay-fence-stale"@,
                        message: "overlay revocation_fence_epoch="@ + decimal(
                            o.revocation_fence_epoch as nat,
                        ) + " predates manager's live epoch="@ + decimal(f.epoch as nat)
                            + "; rebuild suggest_overlay() first"@,
                        capability_ids: Seq::empty(),
                        turn_id: b.turn_id,
                        step_index: Some(step_index),
                    },
                )
            } else {
                None
            },
        }
    }
}

/// The capabilities that an overlay promotes and that are not revoked.
pub open spec fn effective_ids(f: FenceView, o: OverlayView) -> Seq<IdView> {
    listing(f.survivors(o.promoted_ids + o.deferred_promoted_ids, o.revocation_fence_epoch))
}

/// The epoch that the overlay after the first `n` must not fall below.
pub open spec fn epoch_floor(b: BaseView, overlays: Seq<OverlayView>, n: int) -> u64 {
    if n == 0 {
        b.policy_epoch_at_start
    } else {
        overlays[n - 1].revocation_fence_epoch
    }
}

/// What is wrong with the overlay at `i`, if anything is.
pub open spec fn overlay_violation(b: BaseView, overlays: Seq<OverlayView>, i: int) -> Option<
    ViolationView,
> {
    let o = overlays[i];
    let floor = epoch_floor(b, overlays, i);
    if o.revocation_fence_epoch < floor {
        Some(
            ViolationView {
                code: "turn-fence-not-monotonic"@,
                message: "step "@ + decimal(i as nat) + " fence_epoch="@ + decimal(
                    o.revocation_fence_epoch as nat,
                ) + " is older than previous max="@ + decimal(floor as nat),
                capability_ids: Seq::empty(),
                turn_id: b.turn_id,
                step_index: Some(i as usize),
            },
        )
    } else {
        match overlay_error(o, b) {
            Some(m) => Some(
                broken_overlay(
                    "turn-overlay-invariant"@,
                    "step "@ + decimal(i as nat) + ": "@ + m,
                    o,
                    b,
                    i as usize,
                ),
            ),
            None => None,
        }
    }
}

/// The first thing wrong with the overlays from `i` on.
pub open spec fn first_violation(b: BaseView, overlays: Seq<OverlayView>, i: int) -> Option<
    ViolationView,
>
    decreases overlays.len() - i,
{
    if i < 0 || i >= overlays.len() {
        None
    } else {
        match overlay_violation(b, overlays, i) {
            Some(v) => Some(v),
            None => first_violation(b, overlays, i + 1),
        }
    }
}

/// Whether some overlay is for the step `s`.
pub open spec fn has_overlay(overlays: Seq<OverlayView>, s: int) -> bool {
    exists|i: int| 0 <= i < overlays.len() && (#[trigger] overlays[i]).step_index == s
}

/// The first step from `s` on, of `n`, that no overlay is for.
pub open spec fn first_orphan(overlays: Seq<OverlayView>, n: int, s: int) -> int
    decreases n - s,
{
    if s >= n {
        n
    } else if !has_overlay(overlays, s) {
        s
    } else {
        first_orphan(overlays, n, s + 1)
    }
}

/// The first thing wrong with a turn.
pub open spec fn turn_violation(b: BaseView, overlays: Seq<OverlayView>) -> Option<ViolationView> {
    if overlays.len() != b.snapshot_ids.len() {
        Some(
            ViolationView {
                code: "turn-step-arity"@,
                message: "turn "@ + b.turn_id + " has "@ + decimal(b.snapshot_ids.len())
                    + " step snapshots but "@ + decimal(overlays.len()) + " overlays"@,
                capability_ids: Seq::empty(),
                turn_id: b.turn_id,
                step_index: None,
            },
        )
    } else {
        match first_violation(b, overlays, 0) {
            Some(v) => Some(v),
            None => {
                let s = first_orphan(overlays, b.snapshot_ids.len() as int, 0);
                if s < b.snapshot_ids.len() {
                    Some(
                        ViolationView {
                            code: "turn-step-orphan"@,
                            message: "turn "@ + b.turn_id + " step "@ + decimal(s as nat)
                                + " has no overlay"@,
                            capability_ids: Seq::empty(),
                            turn_id: b.turn_id,
                            step_index: Some(s as usize),
                        },
                    )
                } else {
                    None
                }
            },
        }
    }
}

/// The views of a list of overlays.
pub open spec fn overlays_view(o: Seq<TurnCapabilityOverlay>) -> Seq<OverlayView> {
    o.map_values(|x: TurnCapabilityOverlay| x@)
}

/// The capabilities within a ceiling that can be promoted, in order.
pub open spec fn promotable(
    ceiling: u8,
    caps: Seq<(CapabilityId, CapabilityKind, Authority, Availability)>,
) -> Seq<IdView>
    decreases caps.len(),
{
    if caps.len() == 0 {
        Seq::empty()
    } else {
        let below = promotable(ceiling, caps.drop_last());
        let c = caps.last();
        if authority_level(c.2) <= ceiling && (c.3 == Availability::Available || c.3
            == Availability::Deferred) {
            below.push(c.0@)
        } else {
            below
        }
    }
}

/// The word for a flag.
pub open spec fn flag_word(b: bool) -> Seq<char> {
    if b {
        "true"@
    } else {
        "false"@
    }
}

/// The views of a list of names with values.
pub open spec fn pairs_view(p: Seq<(String, String)>) -> Seq<(Seq<char>, Seq<char>)> {
    p.map_values(|x: (String, String)| (x.0@, x.1@))
}

/// The summary of a baseline.
pub open spec fn summary_of(b: BaseView) -> Seq<(Seq<char>, Seq<char>)> {
    seq![
        ("authority_ceiling"@, decimal(b.authority_ceiling as nat)),
        ("base_hash"@, b.base_hash),
        ("deferred_promotion_allowed"@, flag_word(b.deferred_promotion_allowed)),
        ("policy_epoch_at_start"@, decimal(b.policy_epoch_at_start as nat)),
        ("promotable_id_count"@, decimal(b.promotable_ids.len())),
        ("step_count"@, decimal(b.snapshot_ids.len())),
        ("turn_generation"@, decimal(b.turn_generation as nat)),
        ("turn_id"@, b.turn_id),
    ]
}

/// A violation without capabilities.
fn violation(code: &str, message: String, turn_id: &String, step_index: Option<usize>) -> (r:
    CapabilityViolation)
    ensures
        r@ == (ViolationView {
            code: code@,
            message: message@,
            capability_ids: Seq::empty(),
            turn_id: turn_id@,
            step_index,
        }),
{
    let none: Vec<CapabilityId> = Vec::new();
    assert(ids_view(none@) =~= Seq::empty());
    CapabilityViolation {
        code: owned(code),
        message,
        capability_ids: none,
        turn_id: turn_id.clone(),
        step_index,
    }
}

/// The violation of a rule of overlays.
fn overlay_broken(
    code: &str,
    message: String,
    o: &TurnCapabilityOverlay,
    base: &TurnCapabilityBase,
    step_index: usize,
) -> (r: CapabilityViolation)
    ensures
        r@ == broken_overlay(code@, message@, o@, base@, step_index),
{
    let mut all = clone_ids(&o.promoted_ids);
    let mut more = clone_ids(&o.deferred_promoted_ids);
    let ghost a = ids_view(all@);
    let ghost b = ids_view(more@);
    all.append(&mut more);
    assert(ids_view(all@) =~= a + b);
    CapabilityViolation {
        code: owned(code),
        message,
        capability_ids: all,
        turn_id: base.turn_id.clone(),
        step_index: Some(step_index),
    }
}

impl Default for CapabilityManager {
    fn default() -> (r: Self)
        ensures
            r.wf(),
            r@.fence.epoch == 0,
            r@.fence.revoked_at == Map::<IdView, u64>::empty(),
            r@.authority_ceiling is None,
            !r@.allow_deferred_promotion,
    {
        CapabilityManager::new()
    }
}

impl CapabilityManager {
    /// The record of revocations is sound.
    pub closed spec fn wf(&self) -> bool {
        self.revocation_fence.wf()
    }

    /// A session without revocations, without a ceiling, in which deferred
    /// capabilities cannot be promoted.
    pub fn new() -> (r: Self)
        ensures
            r.wf(),
            r@.fence.epoch == 0,
            r@.fence.revoked_at == Map::<IdView, u64>::empty(),
            r@.authority_ceiling is None,
            !r@.allow_deferred_promotion,
    {
        CapabilityManager {
            revocation_fence: LiveRevocationFence::new(),
            session_authority_ceiling: None,
            session_allow_deferred_promotion: false,
        }
    }

    /// Sets the ceiling that cuts that of every turn.
    pub fn with_session_authority_ceiling(self, ceiling: u8) -> (r: Self)
        ensures
            r@ == (ManagerView { authority_ceiling: Some(ceiling), ..self@ }),
            r.wf() == self.wf(),
    {
        CapabilityManager { session_authority_ceiling: Some(ceiling), ..self }
    }

    /// Sets whether turns may ask to promote deferred capabilities.
    pub fn with_allow_deferred_promotion(self, allow: bool) -> (r: Self)
        ensures
            r@ == (ManagerView { allow_deferred_promotion: allow, ..self@ }),
            r.wf() == self.wf(),
    {
        CapabilityManager { session_allow_deferred_promotion: allow, ..self }
    }

    /// The record of revocations.
    pub fn revocation_fence(&self) -> (r: &LiveRevocationFence)
        ensures
            r@ == self@.fence,
            r.wf() == self.wf(),
    {
        &self.revocation_fence
    }

    /// The record of revocations, to revoke with.
    pub fn revocation_fence_mut(&mut self) -> (r: &mut LiveRevocationFence)
        ensures
            r@ == old(self)@.fence,
            r.wf() == old(self).wf(),
            final(self)@ == (ManagerView { fence: final(r)@, ..old(self)@ }),
            final(self).wf() == final(r).wf(),
    {
        &mut self.revocation_fence
    }

    /// Captures the baseline of a turn. The ceiling is cut to that of the
    /// session, deferred promotion needs the session's leave, and every
    /// capability is listed once and in order.
    pub fn capture_turn_base(&self, inputs: TurnBaseInputs<'_>) -> (r: TurnCapabilityBase)
        ensures
            r@ == captured_base(
                self@,
                inputs.turn_id@,
                inputs.capability_generation,
                inputs.requested_authority_ceiling,
                ids_view(inputs.promotable_ids@),
                snapshot_numbers(inputs.step_snapshots@),
                inputs.request_deferred_promotion_allowed,
            ),
            r.step_snapshots == inputs.step_snapshots,
            is_listing(r@.promotable_ids, ids_view(inputs.promotable_ids@)),
    {
        let requested: u8 = inputs.requested_authority_ceiling;
        let authority_ceiling: u8 = match self.session_authority_ceiling {
            Some(cap) => if cap < requested {
                cap
            } else {
                requested
            },
            None => requested,
        };
        let deferred = self.session_allow_deferred_promotion
            && inputs.request_deferred_promotion_allowed;
        let promotable_ids = sorted_ids(&inputs.promotable_ids);
        TurnCapabilityBase::new(
            inputs.turn_id,
            inputs.capability_generation,
            authority_ceiling,
            promotable_ids,
            inputs.step_snapshots,
            deferred,
            self.revocation_fence.epoch(),
        )
    }

    /// The overlay of a step at the current epoch, without what is revoked, or
    /// the rule that it would break.
    pub fn suggest_overlay(
        &self,
        base: &TurnCapabilityBase,
        step_index: usize,
        candidate_promoted_ids: Vec<CapabilityId>,
        candidate_deferred_ids: Vec<CapabilityId>,
        reason: Option<String>,
    ) -> (r: Result<TurnCapabilityOverlay, CapabilityViolation>)
        requires
            self.wf(),
        ensures
            ({
                let o = suggested(
                    self@.fence,
                    base@,
                    step_index,
                    ids_view(candidate_promoted_ids@),
                    ids_view(candidate_deferred_ids@),
                    opt_view(reason),
                );
                if step_index >= base@.snapshot_ids.len() {
                    r matches Err(v) && v@ == out_of_range(base@, step_index)
                } else {
                    match overlay_error(o, base@) {
                        Some(m) => r matches Err(v) && v@ == broken_overlay(
                            "overlay-invalid"@,
                            m,
                            o,
                            base@,
                            step_index,
                        ),
                        None => r matches Ok(x) && x@ == o,
                    }
                }
            }),
    {
        let snap = match base.step_snapshot(step_index) {
            Some(s) => s,
            None => {
                let mut m = owned("step_index ");
                m.append(decimal_string(step_index as u64).as_str());
                m.append(" out of range for turn ");
                m.append(base.turn_id.as_str());
                m.append(" with ");
                m.append(decimal_string(base.step_snapshots.len() as u64).as_str());
                m.append(" steps");
                return Err(violation("step-out-of-range", m, &base.turn_id, Some(step_index)));
            },
        };
        let epoch: u64 = self.revocation_fence.epoch();
        let promoted = self.revocation_fence.filter_revoked(
            &sorted_ids(&candidate_promoted_ids),
            epoch,
        );
        let deferred = self.revocation_fence.filter_revoked(
            &sorted_ids(&candidate_deferred_ids),
            epoch,
        );
        let overlay = TurnCapabilityOverlay {
            turn_id: base.turn_id.clone(),
            step_index,
            snapshot_id: snap.snapshot_id.to_string(),
            promoted_ids: promoted,
            deferred_promoted_ids: deferred,
            revocation_fence_epoch: epoch,
            reason,
        };
        match overlay.validate_against(base) {
            Ok(_) => Ok(overlay),
            Err(m) => Err(overlay_broken("overlay-invalid", m, &overlay, base, step_index)),
        }
    }

    /// Applies the overlay of a step: it must keep to the baseline and must
    /// not be older than the last revocation of everything.
    pub fn apply_overlay<'a>(
        &'a self,
        base: &'a TurnCapabilityBase,
        step_index: usize,
        overlay: &'a TurnCapabilityOverlay,
    ) -> (r: Result<AppliedOverlay<'a>, CapabilityViolation>)
        requires
            self.wf(),
        ensures
            match apply_violation(self@.fence, base@, step_index, overlay@) {
                Some(v) => r matches Err(x) && x@ == v,
                None => r matches Ok(a) && a.step_index == step_index && a.overlay@ == overlay@
                    && ids_view(a.effective_promoted_ids@) == effective_ids(
                    self@.fence,
                    overlay@,
                ),
            },
    {
        if overlay.step_index != step_index {
            let mut m = owned("apply_overlay called with step_index=");
            m.append(decimal_string(step_index as u64).as_str());
            m.append(" but overlay reports step_index=");
            m.append(decimal_string(overlay.step_index as u64).as_str());
            return Err(violation("overlay-step-mismatch", m, &base.turn_id, Some(step_index)));
        }
        if let Err(m) = overlay.validate_against(base) {
            return Err(overlay_broken("overlay-invariant", m, overlay, base, step_index));
        }
        let live: u64 = self.revocation_fence.epoch();
        if overlay.revocation_fence_epoch < live {
            let mut m = owned("overlay revocation_fence_epoch=");
            m.append(decimal_string(overlay.revocation_fence_epoch).as_str());
            m.append(" predates manager's live epoch=");
            m.append(decimal_string(live).as_str());
            m.append("; rebuild suggest_overlay() first");
            return Err(violation("overlay-fence-stale", m, &base.turn_id, Some(step_index)));
        }
        let mut all = clone_ids(&overlay.promoted_ids);
        let mut more = clone_ids(&overlay.deferred_promoted_ids);
        let ghost a = ids_view(all@);
        let ghost b = ids_view(more@);
        all.append(&mut more);
        assert(ids_view(all@) =~= a + b);
        let alive = self.revocation_fence.filter_revoked(&all, overlay.revocation_fence_epoch);
        let effective = sorted_ids(&alive);
        Ok(AppliedOverlay { step_index, overlay, effective_promoted_ids: effective })
    }

    /// Checks a turn as a whole: as many overlays as steps, epochs that never
    /// fall, every overlay within the baseline, and no step without overlay.
    pub fn validate_turn_consistency(
        &self,
        base: &TurnCapabilityBase,
        overlays: &Vec<TurnCapabilityOverlay>,
    ) -> (r: Result<(), CapabilityViolation>)
        ensures
            match r {
                Ok(_) => turn_violation(base@, overlays_view(overlays@)) is None,
                Err(v) => turn_violation(base@, overlays_view(overlays@)) == Some(v@),
            },
    {
        let ghost os = overlays_view(overlays@);
        if overlays.len() != base.step_snapshots.len() {
            let mut m = owned("turn ");
            m.append(base.turn_id.as_str());
            m.append(" has ");
            m.append(decimal_string(base.step_snapshots.len() as u64).as_str());
            m.append(" step snapshots but ");
            m.append(decimal_string(overlays.len() as u64).as_str());
            m.append(" overlays");
            return Err(violation("turn-step-arity", m, &base.turn_id, None));
        }
        let mut floor: u64 = base.policy_epoch_at_start;
        let mut i: usize = 0;
        while i < overlays.len()
            invariant
                i <= overlays@.len(),
                os == overlays_view(overlays@),
                os.len() == base@.snapshot_ids.len(),
                floor == epoch_floor(base@, os, i as int),
                first_violation(base@, os, 0) == first_violation(base@, os, i as int),
            decreases overlays@.len() - i,
        {
            let o = &overlays[i];
            assert(os[i as int] == o@);
            if o.revocation_fence_epoch < floor {
                let mut m = owned("step ");
                m.append(decimal_string(i as u64).as_str());
                m.append(" fence_epoch=");
                m.append(decimal_string(o.revocation_fence_epoch).as_str());
                m.append(" is older than previous max=");
                m.append(decimal_string(floor).as_str());
                return Err(violation("turn-fence-not-monotonic", m, &base.turn_id, Some(i)));
            }
            floor = o.revocation_fence_epoch;
            if let Err(e) = o.validate_against(base) {
                let mut m = owned("step ");
                m.append(decimal_string(i as u64).as_str());
                m.append(": ");
                m.append(e.as_str());
                return Err(overlay_broken("turn-overlay-invariant", m, o, base, i));
            }
            i = i + 1;
        }
        let n: usize = base.step_snapshots.len();
        let mut s: usize = 0;
        while s < n
            invariant
                s <= n == base@.snapshot_ids.len(),
                n == os.len(),
                os == overlays_view(overlays@),
                first_violation(base@, os, 0) is None,
                first_orphan(os, n as int, 0) == first_orphan(os, n as int, s as int),
            decreases n - s,
        {
            if !covers(overlays, s) {
                let mut m = owned("turn ");
                m.append(base.turn_id.as_str());
                m.append(" step ");
                m.append(decimal_string(s as u64).as_str());
                m.append(" has no overlay");
                return Err(violation("turn-step-orphan", m, &base.turn_id, Some(s)));
            }
            s = s + 1;
        }
        Ok(())
    }

    /// The capabilities whose source is within the ceiling and that are
    /// available or deferred, in order.
    pub fn compute_promotable_ids(
        turn_authority_ceiling: u8,
        caps: &Vec<(CapabilityId, CapabilityKind, Authority, Availability)>,
    ) -> (r: Vec<CapabilityId>)
        ensures
            ids_view(r@) == promotable(turn_authority_ceiling, caps@),
    {
        let mut out: Vec<CapabilityId> = Vec::new();
        let mut i: usize = 0;
        assert(ids_view(out@) =~= promotable(turn_authority_ceiling, caps@.take(0)));
        while i < caps.len()
            invariant
                i <= caps@.len(),
                ids_view(out@) == promotable(turn_authority_ceiling, caps@.take(i as int)),
            decreases caps@.len() - i,
        {
            proof {
                assert(caps@.take(i as int + 1).drop_last() =~= caps@.take(i as int));
                assert(caps@.take(i as int + 1).last() == caps@[i as int]);
            }
            let c = &caps[i];
            let open = match c.3 {
                Availability::Available => true,
                Availability::Deferred => true,
                _ => false,
            };
            if c.2.level() <= turn_authority_ceiling && open {
                let ghost before = out@;
                let id = c.0.clone();
                out.push(id);
                assert(ids_view(out@) =~= ids_view(before).push(id@));
            }
            i = i + 1;
        }
        assert(caps@.take(caps@.len() as int) =~= caps@);
        out
    }

    /// The summary of a baseline, by name.
    pub fn summarize_turn(base: &TurnCapabilityBase) -> (r: Vec<(String, String)>)
        ensures
            pairs_view(r@) == summary_of(base@),
    {
        let deferred = if base.deferred_promotion_allowed {
            owned("true")
        } else {
            owned("false")
        };
        let mut out: Vec<(String, String)> = Vec::new();
        out.push((owned("authority_ceiling"), decimal_string(base.authority_ceiling as u64)));
        out.push((owned("base_hash"), base.base_hash.clone()));
        out.push((owned("deferred_promotion_allowed"), deferred));
        out.push((owned("policy_epoch_at_start"), decimal_string(base.policy_epoch_at_start)));
        out.push((owned("promotable_id_count"), decimal_string(base.promotable_ids.len() as u64)));
        out.push((owned("step_count"), decimal_string(base.step_snapshots.len() as u64)));
        out.push((owned("turn_generation"), decimal_string(base.turn_generation)));
        out.push((owned("turn_id"), base.turn_id.clone()));
        assert(pairs_view(out@) =~= summary_of(base@));
        out
    }
}

/// Whether some overlay is for the step `s`.
fn covers(overlays: &Vec<TurnCapabilityOverlay>, s: usize) -> (r: bool)
    ensures
        r == has_overlay(overlays_view(overlays@), s as int),
{
    let mut i: usize = 0;
    while i < overlays.len()
        invariant
            i <= overlays@.len(),
            forall|k: int|
                0 <= k < i ==> (#[trigger] overlays_view(overlays@)[k]).step_index != s,
        decreases overlays@.len() - i,
    {
        if overlays[i].step_index == s {
            assert(overlays_view(overlays@)[i as int].step_index == s);
            return true;
        }
        assert(overlays_view(overlays@)[i as int].step_index != s);
        i = i + 1;
    }
    false
}

proof fn lemma_no_violation(b: BaseView, overlays: Seq<OverlayView>, from: int, i: int)
    requires
        first_violation(b, overlays, from) is None,
        0 <= from <= i < overlays.len(),
    ensures
        overlay_violation(b, overlays, i) is None,
    decreases i - from,
{
    if from < i {
        lemma_no_violation(b, overlays, from + 1, i);
    }
}

proof fn lemma_no_orphan(overlays: Seq<OverlayView>, n: int, from: int, s: int)
    requires
        first_orphan(overlays, n, from) >= n,
        0 <= from <= s < n,
    ensures
        has_overlay(overlays, s),
    decreases s - from,
{
    if from < s {
        lemma_no_orphan(overlays, n, from + 1, s);
    }
}

/// In a turn that was found consistent, every overlay keeps to the baseline,
/// no epoch lies before an earlier one, and every step has an overlay.
pub proof fn consistent_turns_keep_the_rules(
    b: BaseView,
    overlays: Seq<OverlayView>,
    i: int,
)
    requires
        turn_violation(b, overlays) is None,
        0 <= i < overlays.len(),
    ensures
        overlays.len() == b.snapshot_ids.len(),
        overlay_valid(overlays[i], b),
        within(overlays[i].promoted_ids, b.promotable_ids),
        within(overlays[i].deferred_promoted_ids, b.promotable_ids),
        i > 0 ==> overlays[i - 1].revocation_fence_epoch <= overlays[i].revocation_fence_epoch,
        has_overlay(overlays, i),
{
    lemma_no_violation(b, overlays, 0, i);
    valid_overlays_break_no_rule(overlays[i], b);
    lemma_no_orphan(overlays, b.snapshot_ids.len() as int, 0, i);
}

/// A turn of a session never has more authority than the session, and never
/// promotes deferred capabilities where the session does not allow it.
pub proof fn sessions_bound_their_turns(
    m: ManagerView,
    turn_id: Seq<char>,
    generation: u64,
    requested_ceiling: u8,
    promotable_ids: Seq<IdView>,
    snapshot_ids: Seq<u128>,
    request_deferred: bool,
)
    ensures
        ({
            let b = captured_base(
                m,
                turn_id,
                generation,
                requested_ceiling,
                promotable_ids,
                snapshot_ids,
                request_deferred,
            );
            &&& b.authority_ceiling <= requested_ceiling
            &&& m.authority_ceiling matches Some(cap) ==> b.authority_ceiling <= cap
            &&& !m.allow_deferred_promotion ==> !b.deferred_promotion_allowed
            &&& b.policy_epoch_at_start == m.fence.epoch
        }),
{
}

/// What a capability manager suggests it can apply, as long as nothing is
/// revoked in between.
pub proof fn suggestions_can_be_applied(
    f: FenceView,
    b: BaseView,
    step_index: usize,
    promoted: Seq<IdView>,
    deferred: Seq<IdView>,
    reason: Option<Seq<char>>,
)
    requires
        step_index < b.snapshot_ids.len(),
        overlay_error(suggested(f, b, step_index, promoted, deferred, reason), b) is None,
    ensures
        apply_violation(
            f,
            b,
            step_index,
            suggested(f, b, step_index, promoted, deferred, reason),
        ) is None,
{
}

/// Once everything was revoked, no overlay from before can be applied.
pub proof fn stale_overlays_are_refused(f: FenceView, b: BaseView, step_index: usize, o: OverlayView)
    requires
        f.epoch < u64::MAX,
        o.revocation_fence_epoch <= f.epoch,
    ensures
        apply_violation(f.after_revoke_all(), b, step_index, o) is Some,
{
}

/// A turn has the authority that was asked for, within that of the session, and
/// may promote what it was given.
pub proof fn turns_have_what_they_ask_for(
    m: ManagerView,
    turn_id: Seq<char>,
    generation: u64,
    requested_ceiling: u8,
    promotable_ids: Seq<IdView>,
    snapshot_ids: Seq<u128>,
    request_deferred: bool,
    id: IdView,
)
    ensures
        ({
            let b = captured_base(
                m,
                turn_id,
                generation,
                requested_ceiling,
                promotable_ids,
                snapshot_ids,
                request_deferred,
            );
            &&& b.turn_id == turn_id
            &&& b.turn_generation == generation
            &&& b.snapshot_ids == snapshot_ids
            &&& b.promotable_ids.contains(id) <==> promotable_ids.contains(id)
            &&& b.authority_ceiling == requested_ceiling || m.authority_ceiling == Some(b.authority_ceiling)
            &&& m.authority_ceiling is None ==> b.authority_ceiling == requested_ceiling
            &&& b.authority_ceiling <= requested_ceiling
            &&& m.authority_ceiling matches Some(cap) ==> b.authority_ceiling <= cap
            &&& b.deferred_promotion_allowed <==> m.allow_deferred_promotion && request_deferred
        }),
{
    listings_have_every_member_once(promotable_ids, id, 0, 0);
}

/// What is suggested for a step is what was found for it and is not revoked.
pub proof fn suggestions_leave_out_what_is_revoked(
    f: FenceView,
    b: BaseView,
    step_index: usize,
    promoted: Seq<IdView>,
    deferred: Seq<IdView>,
    reason: Option<Seq<char>>,
    id: IdView,
)
    ensures
        ({
            let o = suggested(f, b, step_index, promoted, deferred, reason);
            let revoked = f.revoked_at.dom().contains(id) && f.revoked_at[id] <= f.epoch;
            &&& o.promoted_ids.contains(id) <==> promoted.contains(id) && !revoked
            &&& o.deferred_promoted_ids.contains(id) <==> deferred.contains(id) && !revoked
            &&& o.turn_id == b.turn_id
            &&& o.step_index == step_index
            &&& o.snapshot_id == uuid_text_of(b.snapshot_ids[step_index as int])
            &&& o.revocation_fence_epoch == f.epoch
            &&& o.reason == reason
        }),
{
    listings_have_every_member_once(promoted, id, 0, 0);
    listings_have_every_member_once(deferred, id, 0, 0);
    survivors_were_there(f, listing(promoted), id, f.epoch);
    survivors_were_there(f, listing(deferred), id, f.epoch);
}

/// What counts in a step is what its overlay promotes, in either way, and was not
/// revoked up to its epoch.
pub proof fn promoted_capabilities_count(f: FenceView, o: OverlayView, id: IdView)
    ensures
        effective_ids(f, o).contains(id) <==> (o.promoted_ids.contains(id)
            || o.deferred_promoted_ids.contains(id)) && !(f.revoked_at.dom().contains(id)
            && f.revoked_at[id] <= o.revocation_fence_epoch),
{
    let both = o.promoted_ids + o.deferred_promoted_ids;
    let left = f.survivors(both, o.revocation_fence_epoch);
    listings_have_every_member_once(left, id, 0, 0);
    survivors_were_there(f, both, id, o.revocation_fence_epoch);
    if o.promoted_ids.contains(id) {
        let k = choose|k: int| 0 <= k < o.promoted_ids.len() && o.promoted_ids[k] == id;
        assert(both[k] == id);
    }
    if o.deferred_promoted_ids.contains(id) {
        let k = choose|k: int|
            0 <= k < o.deferred_promoted_ids.len() && o.deferred_promoted_ids[k] == id;
        assert(both[o.promoted_ids.len() + k] == id);
    }
}

/// Why an overlay is not applied: it is of another step, it does not keep to the
/// baseline, or it is older than the last revocation, in this order.
pub proof fn overlays_are_refused(f: FenceView, b: BaseView, step_index: usize, o: OverlayView)
    ensures
        ({
            let v = apply_violation(f, b, step_index, o);
            let other = o.step_index != step_index;
            let broken = overlay_error(o, b) is Some;
            let stale = o.revocation_fence_epoch < f.epoch;
            &&& v is None <==> !other && !broken && !stale
            &&& v is Some ==> v->0.turn_id == b.turn_id && v->0.step_index == Some(step_index)
            &&& other ==> v->0.code == "overlay-step-mismatch"@ && v->0.capability_ids.len() == 0
            &&& !other && broken ==> v->0.code == "overlay-invariant"@ && v->0.message == overlay_error(
                o,
                b,
            )->0 && v->0.capability_ids == o.promoted_ids + o.deferred_promoted_ids
            &&& !other && !broken && stale ==> v->0.code == "overlay-fence-stale"@
                && v->0.capability_ids.len() == 0
        }),
{
}

/// A turn without any of these faults is consistent: a number of overlays other
/// than that of its steps, an overlay that does not keep to the baseline, an
/// epoch that lies before an earlier one, and a step without an overlay.
pub proof fn faultless_turns_are_consistent(b: BaseView, overlays: Seq<OverlayView>)
    requires
        overlays.len() == b.snapshot_ids.len(),
        forall|i: int| 0 <= i < overlays.len() ==> overlay_error(#[trigger] overlays[i], b) is None,
        forall|i: int|
            0 < i < overlays.len() ==> overlays[i - 1].revocation_fence_epoch
                <= (#[trigger] overlays[i]).revocation_fence_epoch,
        forall|s: int| 0 <= s < overlays.len() ==> has_overlay(overlays, s),
    ensures
        turn_violation(b, overlays) is None,
{
    lemma_faultless(b, overlays, 0);
    lemma_no_step_left(overlays, overlays.len() as int, 0);
}

proof fn lemma_faultless(b: BaseView, overlays: Seq<OverlayView>, i: int)
    requires
        0 <= i,
        forall|k: int| 0 <= k < overlays.len() ==> overlay_error(#[trigger] overlays[k], b) is None,
        forall|k: int|
            0 < k < overlays.len() ==> overlays[k - 1].revocation_fence_epoch
                <= (#[trigger] overlays[k]).revocation_fence_epoch,
    ensures
        first_violation(b, overlays, i) is None,
    decreases overlays.len() - i,
{
    if i < overlays.len() {
        lemma_faultless(b, overlays, i + 1);
        overlays_keep_to_their_baseline(overlays[i], b);
    }
}

proof fn lemma_no_step_left(overlays: Seq<OverlayView>, n: int, s: int)
    requires
        0 <= s,
        forall|k: int| 0 <= k < n ==> has_overlay(overlays, k),
    ensures
        s <= n ==> first_orphan(overlays, n, s) == n,
    decreases n - s,
{
    if s < n {
        lemma_no_step_left(overlays, n, s + 1);
    }
}

/// The first fault of a turn is the one that is told.
pub proof fn the_first_fault_is_told(b: BaseView, overlays: Seq<OverlayView>, i: int)
    ensures
        overlays.len() != b.snapshot_ids.len() ==> (turn_violation(b, overlays) matches Some(v) && v.code
            == "turn-step-arity"@ && v.turn_id == b.turn_id && v.step_index is None),
        overlays.len() == b.snapshot_ids.len() && 0 <= i < overlays.len() && (forall|k: int|
            0 <= k < i ==> #[trigger] overlay_violation(b, overlays, k) is None) && overlay_violation(
            b,
            overlays,
            i,
        ) is Some ==> turn_violation(b, overlays) == overlay_violation(b, overlays, i),
        0 < i < overlays.len() && overlays[i].revocation_fence_epoch < overlays[i - 1].revocation_fence_epoch
            ==> (overlay_violation(b, overlays, i) matches Some(v) && v.code == "turn-fence-not-monotonic"@),
        0 <= i < overlays.len() && (i > 0 ==> overlays[i - 1].revocation_fence_epoch
            <= overlays[i].revocation_fence_epoch) && overlays[i].revocation_fence_epoch
            >= b.policy_epoch_at_start && overlay_error(overlays[i], b) is Some ==> (overlay_violation(
            b,
            overlays,
            i,
        ) matches Some(v) && v.code == "turn-overlay-invariant"@ && v.capability_ids
            == overlays[i].promoted_ids + overlays[i].deferred_promoted_ids),
{
    if 0 <= i < overlays.len() && (forall|k: int|
        0 <= k < i ==> #[trigger] overlay_violation(b, overlays, k) is None) && overlay_violation(
        b,
        overlays,
        i,
    ) is Some {
        lemma_first_fault(b, overlays, 0, i);
    }
}

proof fn lemma_first_fault(b: BaseView, overlays: Seq<OverlayView>, from: int, i: int)
    requires
        0 <= from <= i < overlays.len(),
        forall|k: int| 0 <= k < i ==> #[trigger] overlay_violation(b, overlays, k) is None,
        overlay_violation(b, overlays, i) is Some,
    ensures
        first_violation(b, overlays, from) == overlay_violation(b, overlays, i),
    decreases i - from,
{
    if from < i {
        lemma_first_fault(b, overlays, from + 1, i);
    }
}

/// What may be promoted: what is there, at once or after a search, and not above
/// the authority of the turn.
pub proof fn promotable_capabilities_are_there(
    ceiling: u8,
    caps: Seq<(CapabilityId, CapabilityKind, Authority, Availability)>,
    c: (CapabilityId, CapabilityKind, Authority, Availability),
)
    ensures
        authority_level(c.2) <= ceiling && (c.3 is Available || c.3 is Deferred) ==> promotable(
            ceiling,
            caps.push(c),
        ) == promotable(ceiling, caps).push(c.0@),
        authority_level(c.2) > ceiling || !(c.3 is Available || c.3 is Deferred) ==> promotable(
            ceiling,
            caps.push(c),
        ) == promotable(ceiling, caps),
        promotable(ceiling, Seq::empty()).len() == 0,
{
    assert(caps.push(c).drop_last() =~= caps);
}

/// A summary says each thing of a baseline under its name, in the order of the
/// names.
pub proof fn summaries_say_everything(b: BaseView)
    ensures
        ({
            let s = summary_of(b);
            &&& s.len() == 8
            &&& s.contains(("turn_id"@, b.turn_id))
            &&& s.contains(("turn_generation"@, decimal(b.turn_generation as nat)))
            &&& s.contains(("authority_ceiling"@, decimal(b.authority_ceiling as nat)))
            &&& s.contains(("base_hash"@, b.base_hash))
            &&& s.contains(("step_count"@, decimal(b.snapshot_ids.len())))
            &&& s.contains(("promotable_id_count"@, decimal(b.promotable_ids.len())))
            &&& s.contains(("policy_epoch_at_start"@, decimal(b.policy_epoch_at_start as nat)))
            &&& b.deferred_promotion_allowed ==> s.contains(("deferred_promotion_allowed"@, "true"@))
            &&& !b.deferred_promotion_allowed ==> s.contains(("deferred_promotion_allowed"@, "false"@))
        }),
{
    let s = summary_of(b);
    assert(s[0].0 == "authority_ceiling"@ && s[1].0 == "base_hash"@ && s[2].0
        == "deferred_promotion_allowed"@ && s[3].0 == "policy_epoch_at_start"@ && s[4].0
        == "promotable_id_count"@ && s[5].0 == "step_count"@ && s[6].0 == "turn_generation"@ && s[7].0
        == "turn_id"@);
}

/// A step that a turn has not is told with its number and that of the steps.
pub proof fn missing_steps_are_told(b: BaseView, step_index: usize)
    ensures
        ({
            let v = out_of_range(b, step_index);
            &&& v.code == "step-out-of-range"@
            &&& v.turn_id == b.turn_id
            &&& v.step_index == Some(step_index)
            &&& v.capability_ids.len() == 0
            &&& crate::text::has_prefix(v.message, "step_index "@ + decimal(step_index as nat) + " "@)
            &&& crate::text::has_suffix(v.message, " with "@ + decimal(b.snapshot_ids.len()) + " steps"@)
        }),
{
    let m = out_of_range(b, step_index).message;
    assert(" out of range for turn "@ =~= " "@ + "out of range for turn "@) by {
        reveal_strlit(" out of range for turn ");
        reveal_strlit(" ");
        reveal_strlit("out of range for turn ");
    }
    let a = "step_index "@ + decimal(step_index as nat) + " "@;
    assert(m.take(a.len() as int) =~= a);
    let t = " with "@ + decimal(b.snapshot_ids.len()) + " steps"@;
    assert(m.skip(m.len() - t.len()) =~= t);
}

} // verus!
