//! Requests to promote a deferred capability, and what is decided on them.

use vstd::prelude::*;
use vstd::string::*;

use crate::capability::id::{contains_id, ids_view, stable_input, CapabilityId, IdView};
use crate::capability::turn::{BaseView, OverlayView, TurnCapabilityBase, TurnCapabilityOverlay};
use crate::clock::utc_now_micros;
use crate::hash::{fingerprint_bytes, fingerprint_of};
use crate::random::{alphanumeric, random_alphanumeric};
use crate::text::{chars_of, owned, string_of};

verus! {

/// What is decided on a request.
#[derive(Debug, PartialEq, Eq)]
pub enum DeferredPromotionDecision {
    Approved,
    Rejected { reason: String },
    TimedOut,
}

/// A request to promote a capability in a turn.
#[derive(Debug)]
pub struct DeferredPromotionRequest {
    pub request_id: String,
    pub turn_id: String,
    pub capability_id: CapabilityId,
    pub reason: String,
    /// When, in microseconds since 1970.
    pub requested_at: i64,
    pub requester: Option<String>,
}

/// A request with what was decided on it.
#[derive(Debug)]
pub struct DeferredPromotionRecord {
    pub request: DeferredPromotionRequest,
    pub decision: DeferredPromotionDecision,
    pub approver: Option<String>,
    /// When, in microseconds since 1970.
    pub decided_at: i64,
}

/// Why a capability cannot be requested in a turn, if it cannot.
pub open spec fn request_error(b: BaseView, id: IdView) -> Option<Seq<char>> {
    if !b.deferred_promotion_allowed {
        Some(
            "cannot request promotion for "@ + id.canonical_name
                + ": deferred_promotion not allowed in turn "@ + b.turn_id,
        )
    } else if !b.promotable_ids.contains(id) {
        Some(
            "capability "@ + id.canonical_name + " is not in turn "@ + b.turn_id
                + "'s promotable_ids list"@,
        )
    } else {
        None
    }
}

/// The identifier of a request: the first 16 hexadecimal digits of the SHA-256
/// digest over the capability, the turn and a nonce.
pub open spec fn request_id_of(id: IdView, turn_id: Seq<char>, nonce: Seq<char>) -> Seq<char> {
    fingerprint_of(vstd::utf8::encode_utf8(stable_input(id) + turn_id + nonce)).take(16)
}

/// Whether a text can be the nonce of a request: eight letters and digits.
pub open spec fn is_nonce(s: Seq<char>) -> bool {
    s.len() == 8 && forall|i: int| 0 <= i < s.len() ==> alphanumeric(#[trigger] s[i])
}

impl DeferredPromotionRequest {
    /// Requests a capability now, with a random nonce.
    pub fn new(
        base: &TurnCapabilityBase,
        capability_id: CapabilityId,
        reason: String,
        requester: Option<String>,
    ) -> (r: Result<Self, String>)
        ensures
            match request_error(base@, capability_id@) {
                Some(m) => r matches Err(e) && e@ == m,
                None => r matches Ok(q) && q.request_id@.len() == 16 && (exists|nonce: Seq<char>|
                    is_nonce(nonce) && q.request_id@ == #[trigger] request_id_of(
                        capability_id@,
                        base@.turn_id,
                        nonce,
                    )) && q.turn_id@ == base@.turn_id && q.capability_id == capability_id
                    && q.reason == reason && q.requester == requester,
            },
    {
        let nonce = random_alphanumeric(8);
        assert(is_nonce(nonce@));
        let now: i64 = utc_now_micros();
        Self::with_nonce(base, capability_id, reason, requester, nonce.as_str(), now)
    }

    /// Requests a capability at a given time, with a given nonce.
    pub fn with_nonce(
        base: &TurnCapabilityBase,
        capability_id: CapabilityId,
        reason: String,
        requester: Option<String>,
        nonce: &str,
        requested_at: i64,
    ) -> (r: Result<Self, String>)
        ensures
            match request_error(base@, capability_id@) {
                Some(m) => r matches Err(e) && e@ == m,
                None => r matches Ok(q) && q.request_id@ == request_id_of(
                    capability_id@,
                    base@.turn_id,
                    nonce@,
                ) && q.request_id@.len() == 16 && q.turn_id@ == base@.turn_id && q.capability_id
                    == capability_id && q.reason == reason && q.requested_at == requested_at
                    && q.requester == requester,
            },
    {
        if !base.deferred_promotion_allowed {
            let mut m = owned("cannot request promotion for ");
            m.append(capability_id.canonical_name.as_str());
            m.append(": deferred_promotion not allowed in turn ");
            m.append(base.turn_id.as_str());
            return Err(m);
        }
        if !base.is_promotable(&capability_id) {
            let mut m = owned("capability ");
            m.append(capability_id.canonical_name.as_str());
            m.append(" is not in turn ");
            m.append(base.turn_id.as_str());
            m.append("'s promotable_ids list");
            return Err(m);
        }
        let mut input = capability_id.stable_hash_input();
        input.append(base.turn_id.as_str());
        input.append(nonce);
        let full = fingerprint_bytes(input.as_str().as_bytes());
        let digits = chars_of(full.as_str());
        let request_id = string_of(&digits, 0, 16);
        assert(request_id@ =~= full@.take(16));
        Ok(
            DeferredPromotionRequest {
                request_id,
                turn_id: base.turn_id.clone(),
                capability_id,
                reason,
                requested_at,
                requester,
            },
        )
    }
}

/// The overlay after a decision about `id`.
pub open spec fn overlay_after(o: OverlayView, id: IdView, approved: bool) -> OverlayView {
    if approved && !o.deferred_promoted_ids.contains(id) {
        OverlayView { deferred_promoted_ids: o.deferred_promoted_ids.push(id), ..o }
    } else {
        o
    }
}

impl DeferredPromotionRecord {
    /// Records a decision made now.
    pub fn decide(
        request: DeferredPromotionRequest,
        decision: DeferredPromotionDecision,
        approver: Option<String>,
    ) -> (r: Self)
        ensures
            r.request == request,
            r.decision == decision,
            r.approver == approver,
    {
        let decided_at: i64 = utc_now_micros();
        DeferredPromotionRecord { request, decision, approver, decided_at }
    }

    /// Adds an approved capability to the deferred ones of an overlay, once.
    pub fn apply_to_overlay(&self, overlay: &mut TurnCapabilityOverlay)
        ensures
            final(overlay)@ == overlay_after(
                old(overlay)@,
                self.request.capability_id@,
                self.decision is Approved,
            ),
    {
        let ghost before = overlay.deferred_promoted_ids@;
        if let DeferredPromotionDecision::Approved = self.decision {
            let id = self.request.capability_id.clone();
            if !contains_id(&overlay.deferred_promoted_ids, &id) {
                let ghost v = id@;
                overlay.deferred_promoted_ids.push(id);
                assert(ids_view(overlay.deferred_promoted_ids@) =~= ids_view(before).push(v));
            }
        }
    }
}

/// Applying a decision twice is the same as applying it once.
pub proof fn decisions_apply_once(o: OverlayView, id: IdView, approved: bool)
    ensures
        overlay_after(overlay_after(o, id, approved), id, approved) == overlay_after(
            o,
            id,
            approved,
        ),
{
    if approved && !o.deferred_promoted_ids.contains(id) {
        let p = o.deferred_promoted_ids.push(id);
        assert(p[p.len() - 1] == id);
    }
}

/// An approved request can be applied without breaking a rule of overlays
/// that held before.
pub proof fn approved_requests_keep_overlays_valid(o: OverlayView, b: BaseView, id: IdView)
    requires
        crate::capability::turn::overlay_valid(o, b),
        request_error(b, id) is None,
    ensures
        crate::capability::turn::overlay_valid(overlay_after(o, id, true), b),
{
    let o2 = overlay_after(o, id, true);
    assert forall|i: int| 0 <= i < o2.deferred_promoted_ids.len() implies b.promotable_ids.contains(
        #[trigger] o2.deferred_promoted_ids[i],
    ) by {
        if i < o.deferred_promoted_ids.len() {
            assert(o2.deferred_promoted_ids[i] == o.deferred_promoted_ids[i]);
        }
    }
}

/// A promotion may be asked for exactly when the turn allows it at all and the
/// capability is among those that it may promote.
pub proof fn promotions_may_be_asked_for(b: BaseView, id: IdView)
    ensures
        request_error(b, id) is None <==> b.deferred_promotion_allowed && b.promotable_ids.contains(id),
{
}

/// An approved capability is promoted, behind those that are already. A refused
/// one is not, and nothing else changes.
pub proof fn approved_capabilities_are_promoted(o: OverlayView, id: IdView, other: IdView)
    ensures
        ({
            let r = overlay_after(o, id, true);
            &&& r.deferred_promoted_ids.contains(id)
            &&& other != id ==> (r.deferred_promoted_ids.contains(other)
                <==> o.deferred_promoted_ids.contains(other))
            &&& o.deferred_promoted_ids.len() <= r.deferred_promoted_ids.len()
            &&& r.deferred_promoted_ids.take(o.deferred_promoted_ids.len() as int) == o.deferred_promoted_ids
            &&& r.promoted_ids == o.promoted_ids
            &&& r.turn_id == o.turn_id
            &&& r.step_index == o.step_index
            &&& r.snapshot_id == o.snapshot_id
            &&& r.revocation_fence_epoch == o.revocation_fence_epoch
            &&& r.reason == o.reason
        }),
        overlay_after(o, id, false) == o,
{
    let a = o.deferred_promoted_ids;
    let b = overlay_after(o, id, true).deferred_promoted_ids;
    assert(b.take(a.len() as int) =~= a);
    if a.contains(other) {
        let k = choose|k: int| 0 <= k < a.len() && a[k] == other;
        assert(b[k] == other);
    }
    if !a.contains(id) {
        assert(b[a.len() as int] == id);
    }
}

/// The name of a request begins the fingerprint of what is asked for, in which
/// turn, and of a word made up for it.
pub proof fn requests_are_named_by_their_parts(id: IdView, turn_id: Seq<char>, nonce: Seq<char>)
    ensures
        ({
            let f = fingerprint_of(vstd::utf8::encode_utf8(stable_input(id) + turn_id + nonce));
            f.len() >= 16 ==> request_id_of(id, turn_id, nonce).len() == 16 && crate::text::has_prefix(
                f,
                request_id_of(id, turn_id, nonce),
            )
        }),
        is_nonce(nonce) ==> nonce.len() == 8,
{
}

} // verus!
