//! What a turn may do: the baseline captured when it begins, and the change
//! that each step makes to it.

use vstd::prelude::*;
use vstd::string::*;

use crate::capability::descriptor::StepCapabilitySnapshot;
use crate::capability::id::{contains_id, id_debug, ids_view, CapabilityId, IdView};
use crate::domain::id::uuid_text_of;
use crate::hash::{fnv1a, fnv1a_of, hex_digits, hex_number};
use crate::text::{
    decimal, decimal_string, middles_of_equal_texts_are_equal, opt_view, owned, same, views,
};

verus! {

/// The baseline of a turn. It never changes while the turn lasts.
#[derive(Debug)]
pub struct TurnCapabilityBase {
    pub turn_id: String,
    /// The generation of capabilities at the start.
    pub turn_generation: u64,
    /// The authority that no step exceeds.
    pub authority_ceiling: u8,
    /// The capabilities that a step may promote.
    pub promotable_ids: Vec<CapabilityId>,
    /// The snapshots of the steps, in order.
    pub step_snapshots: Vec<StepCapabilitySnapshot>,
    /// A hash over all of this.
    pub base_hash: String,
    /// Whether steps may promote deferred capabilities.
    pub deferred_promotion_allowed: bool,
    /// The revocation epoch at the start.
    pub policy_epoch_at_start: u64,
}

/// The mathematical value of a [`TurnCapabilityBase`]; of each snapshot it
/// holds the number of its identifier.
pub struct BaseView {
    pub turn_id: Seq<char>,
    pub turn_generation: u64,
    pub authority_ceiling: u8,
    pub promotable_ids: Seq<IdView>,
    pub snapshot_ids: Seq<u128>,
    pub base_hash: Seq<char>,
    pub deferred_promotion_allowed: bool,
    pub policy_epoch_at_start: u64,
}

/// The numbers of the identifiers of snapshots.
pub open spec fn snapshot_numbers(s: Seq<StepCapabilitySnapshot>) -> Seq<u128> {
    s.map_values(|x: StepCapabilitySnapshot| x.snapshot_id.value())
}

impl View for TurnCapabilityBase {
    type V = BaseView;

    open spec fn view(&self) -> BaseView {
        BaseView {
            turn_id: self.turn_id@,
            turn_generation: self.turn_generation,
            authority_ceiling: self.authority_ceiling,
            promotable_ids: ids_view(self.promotable_ids@),
            snapshot_ids: snapshot_numbers(self.step_snapshots@),
            base_hash: self.base_hash@,
            deferred_promotion_allowed: self.deferred_promotion_allowed,
            policy_epoch_at_start: self.policy_epoch_at_start,
        }
    }
}

/// The parts, each followed by a comma.
pub open spec fn comma_list(parts: Seq<Seq<char>>) -> Seq<char>
    decreases parts.len(),
{
    if parts.len() == 0 {
        Seq::empty()
    } else {
        comma_list(parts.drop_last()) + parts.last() + ","@
    }
}

/// The text that the hash of a baseline is taken over.
pub open spec fn base_hash_input(
    turn_id: Seq<char>,
    turn_generation: u64,
    authority_ceiling: u8,
    promotable_ids: Seq<IdView>,
    snapshot_ids: Seq<Seq<char>>,
) -> Seq<char> {
    "turn="@ + turn_id + "|gen="@ + decimal(turn_generation as nat) + "|auth="@ + decimal(
        authority_ceiling as nat,
    ) + "|promo="@ + comma_list(promotable_ids.map_values(|id: IdView| id_debug(id))) + "|steps="@
        + comma_list(snapshot_ids)
}

/// The hash of a baseline: 16 hexadecimal digits.
pub open spec fn base_hash_of(
    turn_id: Seq<char>,
    turn_generation: u64,
    authority_ceiling: u8,
    promotable_ids: Seq<IdView>,
    snapshot_ids: Seq<Seq<char>>,
) -> Seq<char> {
    hex_digits(
        fnv1a_of(
            vstd::utf8::encode_utf8(
                base_hash_input(
                    turn_id,
                    turn_generation,
                    authority_ceiling,
                    promotable_ids,
                    snapshot_ids,
                ),
            ),
        ) as nat,
        16,
    )
}

/// Appends the parts, each followed by a comma.
fn append_comma_list(s: &mut String, parts: &Vec<String>)
    ensures
        final(s)@ == old(s)@ + comma_list(views(parts@)),
{
    let ghost s0 = s@;
    let ghost vs = views(parts@);
    let mut i: usize = 0;
    assert(s@ =~= s0 + comma_list(vs.take(0)));
    while i < parts.len()
        invariant
            i <= parts@.len(),
            vs == views(parts@),
            s@ == s0 + comma_list(vs.take(i as int)),
        decreases parts@.len() - i,
    {
        proof {
            assert(vs.take(i as int + 1).drop_last() =~= vs.take(i as int));
            assert(vs.take(i as int + 1).last() == parts@[i as int]@);
        }
        s.append(parts[i].as_str());
        s.append(",");
        assert(s@ =~= s0 + comma_list(vs.take(i as int + 1)));
        i = i + 1;
    }
    assert(vs.take(parts@.len() as int) =~= vs);
}

impl TurnCapabilityBase {
    /// The hash of a baseline. It depends on the order of its parts.
    pub fn compute_hash(
        turn_id: &str,
        turn_generation: u64,
        authority_ceiling: u8,
        promotable_ids: &Vec<CapabilityId>,
        step_snapshot_ids: &Vec<String>,
    ) -> (r: String)
        ensures
            r@ == base_hash_of(
                turn_id@,
                turn_generation,
                authority_ceiling,
                ids_view(promotable_ids@),
                views(step_snapshot_ids@),
            ),
    {
        let mut names: Vec<String> = Vec::new();
        let mut i: usize = 0;
        while i < promotable_ids.len()
            invariant
                i <= promotable_ids@.len(),
                names@.len() == i,
                forall|k: int| 0 <= k < i ==> names@[k]@ == id_debug(promotable_ids@[k]@),
            decreases promotable_ids@.len() - i,
        {
            names.push(promotable_ids[i].debug_text());
            i = i + 1;
        }
        assert(views(names@) =~= ids_view(promotable_ids@).map_values(|id: IdView| id_debug(id)));
        let mut s = owned("turn=");
        s.append(turn_id);
        s.append("|gen=");
        s.append(decimal_string(turn_generation).as_str());
        s.append("|auth=");
        s.append(decimal_string(authority_ceiling as u64).as_str());
        s.append("|promo=");
        append_comma_list(&mut s, &names);
        s.append("|steps=");
        append_comma_list(&mut s, step_snapshot_ids);
        let h: u64 = fnv1a(s.as_str().as_bytes());
        hex_number(h, 16)
    }

    /// The baseline with the given parts and its hash.
    pub fn new(
        turn_id: &str,
        turn_generation: u64,
        authority_ceiling: u8,
        promotable_ids: Vec<CapabilityId>,
        step_snapshots: Vec<StepCapabilitySnapshot>,
        deferred_promotion_allowed: bool,
        policy_epoch_at_start: u64,
    ) -> (r: Self)
        ensures
            r@ == base_view_of(
                turn_id@,
                turn_generation,
                authority_ceiling,
                ids_view(promotable_ids@),
                snapshot_numbers(step_snapshots@),
                deferred_promotion_allowed,
                policy_epoch_at_start,
            ),
            r.step_snapshots == step_snapshots,
            r.promotable_ids == promotable_ids,
    {
        let mut step_ids: Vec<String> = Vec::new();
        let mut i: usize = 0;
        while i < step_snapshots.len()
            invariant
                i <= step_snapshots@.len(),
                step_ids@.len() == i,
                forall|k: int|
                    0 <= k < i ==> step_ids@[k]@ == uuid_text_of(
                        step_snapshots@[k].snapshot_id.value(),
                    ),
            decreases step_snapshots@.len() - i,
        {
            step_ids.push(step_snapshots[i].snapshot_id.to_string());
            i = i + 1;
        }
        assert(views(step_ids@) =~= snapshot_texts(snapshot_numbers(step_snapshots@)));
        let base_hash = Self::compute_hash(
            turn_id,
            turn_generation,
            authority_ceiling,
            &promotable_ids,
            &step_ids,
        );
        TurnCapabilityBase {
            turn_id: owned(turn_id),
            turn_generation,
            authority_ceiling,
            promotable_ids,
            step_snapshots,
            base_hash,
            deferred_promotion_allowed,
            policy_epoch_at_start,
        }
    }

    /// Whether a step may promote `id`.
    pub fn is_promotable(&self, id: &CapabilityId) -> (r: bool)
        ensures
            r == self@.promotable_ids.contains(id@),
    {
        contains_id(&self.promotable_ids, id)
    }

    /// The snapshot of a step, counted from 0.
    pub fn step_snapshot(&self, step_index: usize) -> (r: Option<&StepCapabilitySnapshot>)
        ensures
            match r {
                Some(s) => step_index < self.step_snapshots@.len() && *s
                    == self.step_snapshots@[step_index as int],
                None => step_index >= self.step_snapshots@.len(),
            },
    {
        if step_index < self.step_snapshots.len() {
            Some(&self.step_snapshots[step_index])
        } else {
            None
        }
    }
}

/// The texts of the identifiers of snapshots.
pub open spec fn snapshot_texts(ids: Seq<u128>) -> Seq<Seq<char>> {
    ids.map_values(|n: u128| uuid_text_of(n))
}

/// The baseline with the given parts and its hash.
pub open spec fn base_view_of(
    turn_id: Seq<char>,
    turn_generation: u64,
    authority_ceiling: u8,
    promotable_ids: Seq<IdView>,
    snapshot_ids: Seq<u128>,
    deferred_promotion_allowed: bool,
    policy_epoch_at_start: u64,
) -> BaseView {
    BaseView {
        turn_id,
        turn_generation,
        authority_ceiling,
        promotable_ids,
        snapshot_ids,
        base_hash: base_hash_of(
            turn_id,
            turn_generation,
            authority_ceiling,
            promotable_ids,
            snapshot_texts(snapshot_ids),
        ),
        deferred_promotion_allowed,
        policy_epoch_at_start,
    }
}

/// What one step changes of the baseline.
#[derive(Debug)]
pub struct TurnCapabilityOverlay {
    pub turn_id: String,
    /// The step, counted from 0.
    pub step_index: usize,
    /// The identifier of the snapshot of the step.
    pub snapshot_id: String,
    /// The capabilities that the step promoted.
    pub promoted_ids: Vec<CapabilityId>,
    /// The deferred capabilities among them.
    pub deferred_promoted_ids: Vec<CapabilityId>,
    /// The revocation epoch when the step ran.
    pub revocation_fence_epoch: u64,
    /// Why the step deviates, for people.
    pub reason: Option<String>,
}

/// The mathematical value of a [`TurnCapabilityOverlay`].
pub struct OverlayView {
    pub turn_id: Seq<char>,
    pub step_index: usize,
    pub snapshot_id: Seq<char>,
    pub promoted_ids: Seq<IdView>,
    pub deferred_promoted_ids: Seq<IdView>,
    pub revocation_fence_epoch: u64,
    pub reason: Option<Seq<char>>,
}

impl View for TurnCapabilityOverlay {
    type V = OverlayView;

    open spec fn view(&self) -> OverlayView {
        OverlayView {
            turn_id: self.turn_id@,
            step_index: self.step_index,
            snapshot_id: self.snapshot_id@,
            promoted_ids: ids_view(self.promoted_ids@),
            deferred_promoted_ids: ids_view(self.deferred_promoted_ids@),
            revocation_fence_epoch: self.revocation_fence_epoch,
            reason: opt_view(self.reason),
        }
    }
}

/// The first position at or after `from` whose member `among` does not hold.
pub open spec fn first_outside(ids: Seq<IdView>, among: Seq<IdView>, from: int) -> int
    decreases ids.len() - from,
{
    if from < 0 || from >= ids.len() {
        ids.len() as int
    } else if !among.contains(ids[from]) {
        from
    } else {
        first_outside(ids, among, from + 1)
    }
}

proof fn lemma_first_outside(ids: Seq<IdView>, among: Seq<IdView>, from: int)
    requires
        0 <= from <= ids.len(),
    ensures
        from <= first_outside(ids, among, from) <= ids.len(),
        first_outside(ids, among, from) < ids.len() ==> !among.contains(
            ids[first_outside(ids, among, from)],
        ),
        forall|k: int| from <= k < first_outside(ids, among, from) ==> among.contains(
            #[trigger] ids[k],
        ),
    decreases ids.len() - from,
{
    if from < ids.len() && among.contains(ids[from]) {
        lemma_first_outside(ids, among, from + 1);
    }
}

/// Whether `among` holds every member of `ids`.
pub open spec fn within(ids: Seq<IdView>, among: Seq<IdView>) -> bool {
    forall|i: int| 0 <= i < ids.len() ==> among.contains(#[trigger] ids[i])
}

/// Whether an overlay keeps to its baseline.
pub open spec fn overlay_valid(o: OverlayView, b: BaseView) -> bool {
    &&& o.turn_id == b.turn_id
    &&& o.step_index < b.snapshot_ids.len()
    &&& o.snapshot_id == uuid_text_of(b.snapshot_ids[o.step_index as int])
    &&& within(o.deferred_promoted_ids, b.promotable_ids)
    &&& b.deferred_promotion_allowed || o.deferred_promoted_ids.len() == 0
    &&& within(o.promoted_ids, b.promotable_ids)
    &&& b.policy_epoch_at_start <= o.revocation_fence_epoch
}

/// The first rule that an overlay breaks, in words.
pub open spec fn overlay_error(o: OverlayView, b: BaseView) -> Option<Seq<char>> {
    let d = first_outside(o.deferred_promoted_ids, b.promotable_ids, 0);
    let p = first_outside(o.promoted_ids, b.promotable_ids, 0);
    if o.turn_id != b.turn_id {
        Some("overlay turn_id="@ + o.turn_id + " mismatches base turn_id="@ + b.turn_id)
    } else if o.step_index >= b.snapshot_ids.len() {
        Some(
            "overlay step_index="@ + decimal(o.step_index as nat) + " out of range for base with "@
                + decimal(b.snapshot_ids.len()) + " steps"@,
        )
    } else if o.snapshot_id != uuid_text_of(b.snapshot_ids[o.step_index as int]) {
        Some(
            "overlay snapshot_id="@ + o.snapshot_id + " mismatches step "@ + decimal(
                o.step_index as nat,
            ) + "'s snapshot_id="@ + uuid_text_of(b.snapshot_ids[o.step_index as int]),
        )
    } else if d < o.deferred_promoted_ids.len() {
        Some(
            "deferred-promoted id "@ + id_debug(o.deferred_promoted_ids[d])
                + " not in base.promotable_ids"@,
        )
    } else if !b.deferred_promotion_allowed && o.deferred_promoted_ids.len() > 0 {
        Some(
            "base forbids deferred promotion but overlay promoted "@ + decimal(
                o.deferred_promoted_ids.len(),
            ) + " ids"@,
        )
    } else if p < o.promoted_ids.len() {
        Some(
            "overlay promoted_id "@ + id_debug(o.promoted_ids[p]) + " not in base.promotable_ids"@,
        )
    } else if o.revocation_fence_epoch < b.policy_epoch_at_start {
        Some(
            "overlay revocation_fence_epoch="@ + decimal(o.revocation_fence_epoch as nat)
                + " predates base.policy_epoch_at_start="@ + decimal(
                b.policy_epoch_at_start as nat,
            ),
        )
    } else {
        None
    }
}

/// An overlay is valid exactly when it breaks no rule.
pub proof fn valid_overlays_break_no_rule(o: OverlayView, b: BaseView)
    ensures
        overlay_valid(o, b) <==> overlay_error(o, b) is None,
{
    lemma_first_outside(o.deferred_promoted_ids, b.promotable_ids, 0);
    lemma_first_outside(o.promoted_ids, b.promotable_ids, 0);
}

/// The first position whose member the baseline does not let a step promote.
fn first_unpromotable(ids: &Vec<CapabilityId>, base: &TurnCapabilityBase) -> (r: usize)
    ensures
        r == first_outside(ids_view(ids@), base@.promotable_ids, 0),
        r <= ids@.len(),
{
    let ghost all = ids_view(ids@);
    let mut i: usize = 0;
    while i < ids.len() && base.is_promotable(&ids[i])
        invariant
            i <= ids@.len(),
            all == ids_view(ids@),
            first_outside(all, base@.promotable_ids, i as int) == first_outside(
                all,
                base@.promotable_ids,
                0,
            ),
        decreases ids@.len() - i,
    {
        assert(all[i as int] == ids@[i as int]@);
        i = i + 1;
    }
    if i < ids.len() {
        assert(all[i as int] == ids@[i as int]@);
    }
    i
}

impl TurnCapabilityOverlay {
    /// Whether a step with this overlay runs as the turn began: nothing is
    /// promoted, no reason is given, and nothing was revoked since.
    pub fn is_empty(&self, base: &TurnCapabilityBase) -> (r: bool)
        ensures
            r == (self@.promoted_ids.len() == 0 && self@.deferred_promoted_ids.len() == 0
                && self@.reason is None && self@.revocation_fence_epoch
                == base@.policy_epoch_at_start),
    {
        self.promoted_ids.len() == 0 && self.deferred_promoted_ids.len() == 0
            && self.reason.is_none() && self.revocation_fence_epoch == base.policy_epoch_at_start
    }

    /// Whether the overlay keeps to its baseline; if not, the first rule that
    /// it breaks.
    pub fn validate_against(&self, base: &TurnCapabilityBase) -> (r: Result<(), String>)
        ensures
            match r {
                Ok(_) => overlay_error(self@, base@) is None,
                Err(m) => overlay_error(self@, base@) == Some(m@),
            },
            r is Ok <==> overlay_valid(self@, base@),
    {
        proof {
            valid_overlays_break_no_rule(self@, base@);
        }
        if !same(self.turn_id.as_str(), base.turn_id.as_str()) {
            let mut m = owned("overlay turn_id=");
            m.append(self.turn_id.as_str());
            m.append(" mismatches base turn_id=");
            m.append(base.turn_id.as_str());
            return Err(m);
        }
        let snap = match base.step_snapshot(self.step_index) {
            Some(s) => s,
            None => {
                let mut m = owned("overlay step_index=");
                m.append(decimal_string(self.step_index as u64).as_str());
                m.append(" out of range for base with ");
                m.append(decimal_string(base.step_snapshots.len() as u64).as_str());
                m.append(" steps");
                return Err(m);
            },
        };
        let expected = snap.snapshot_id.to_string();
        if !same(expected.as_str(), self.snapshot_id.as_str()) {
            let mut m = owned("overlay snapshot_id=");
            m.append(self.snapshot_id.as_str());
            m.append(" mismatches step ");
            m.append(decimal_string(self.step_index as u64).as_str());
            m.append("'s snapshot_id=");
            m.append(expected.as_str());
            return Err(m);
        }
        let d: usize = first_unpromotable(&self.deferred_promoted_ids, base);
        if d < self.deferred_promoted_ids.len() {
            let mut m = owned("deferred-promoted id ");
            m.append(self.deferred_promoted_ids[d].debug_text().as_str());
            m.append(" not in base.promotable_ids");
            return Err(m);
        }
        if !base.deferred_promotion_allowed && self.deferred_promoted_ids.len() > 0 {
            let mut m = owned("base forbids deferred promotion but overlay promoted ");
            m.append(decimal_string(self.deferred_promoted_ids.len() as u64).as_str());
            m.append(" ids");
            return Err(m);
        }
        let p: usize = first_unpromotable(&self.promoted_ids, base);
        if p < self.promoted_ids.len() {
            let mut m = owned("overlay promoted_id ");
            m.append(self.promoted_ids[p].debug_text().as_str());
            m.append(" not in base.promotable_ids");
            return Err(m);
        }
        if self.revocation_fence_epoch < base.policy_epoch_at_start {
            let mut m = owned("overlay revocation_fence_epoch=");
            m.append(decimal_string(self.revocation_fence_epoch).as_str());
            m.append(" predates base.policy_epoch_at_start=");
            m.append(decimal_string(base.policy_epoch_at_start).as_str());
            return Err(m);
        }
        Ok(())
    }
}

/// An overlay keeps to its baseline exactly when it is of the turn, of one of
/// its steps and of that step's snapshot, promotes nothing that the baseline
/// does not let it promote, and knows every revocation since the turn began.
pub proof fn overlays_keep_to_their_baseline(o: OverlayView, b: BaseView)
    ensures
        overlay_error(o, b) is None <==> {
            &&& o.turn_id == b.turn_id
            &&& o.step_index < b.snapshot_ids.len()
            &&& o.snapshot_id == uuid_text_of(b.snapshot_ids[o.step_index as int])
            &&& forall|i: int|
                0 <= i < o.promoted_ids.len() ==> b.promotable_ids.contains(#[trigger] o.promoted_ids[i])
            &&& forall|i: int|
                0 <= i < o.deferred_promoted_ids.len() ==> b.promotable_ids.contains(
                    #[trigger] o.deferred_promoted_ids[i],
                )
            &&& b.deferred_promotion_allowed || o.deferred_promoted_ids.len() == 0
            &&& o.revocation_fence_epoch >= b.policy_epoch_at_start
        },
{
    lemma_first_outside(o.deferred_promoted_ids, b.promotable_ids, 0);
    lemma_first_outside(o.promoted_ids, b.promotable_ids, 0);
}

/// The hash of a baseline is taken of all its parts: where one of them differs
/// and the others do not, so does what is hashed.
pub proof fn hashes_are_taken_of_every_part(
    t1: Seq<char>,
    t2: Seq<char>,
    g1: u64,
    g2: u64,
    a1: u8,
    a2: u8,
    p: Seq<IdView>,
    s: Seq<Seq<char>>,
)
    ensures
        base_hash_input(t1, g1, a1, p, s) == base_hash_input(t2, g1, a1, p, s) ==> t1 == t2,
        base_hash_input(t1, g1, a1, p, s) == base_hash_input(t1, g2, a1, p, s) ==> g1 == g2,
        base_hash_input(t1, g1, a1, p, s) == base_hash_input(t1, g1, a2, p, s) ==> a1 == a2,
{
    let p4 = comma_list(p.map_values(|id: IdView| id_debug(id)));
    let s5 = comma_list(s);
    lemma_input_shape(t1, decimal(g1 as nat), decimal(a1 as nat), p4, s5);
    if base_hash_input(t1, g1, a1, p, s) == base_hash_input(t2, g1, a1, p, s) {
        lemma_input_shape(t2, decimal(g1 as nat), decimal(a1 as nat), p4, s5);
        middles_of_equal_texts_are_equal(
            "turn="@,
            t1,
            t2,
            "|gen="@ + decimal(g1 as nat) + "|auth="@ + decimal(a1 as nat) + "|promo="@ + p4 + "|steps="@
                + s5,
        );
    }
    if base_hash_input(t1, g1, a1, p, s) == base_hash_input(t1, g2, a1, p, s) {
        lemma_input_shape(t1, decimal(g2 as nat), decimal(a1 as nat), p4, s5);
        middles_of_equal_texts_are_equal(
            "turn="@ + t1 + "|gen="@,
            decimal(g1 as nat),
            decimal(g2 as nat),
            "|auth="@ + decimal(a1 as nat) + "|promo="@ + p4 + "|steps="@ + s5,
        );
        crate::text::numbers_read_back(g1);
        crate::text::numbers_read_back(g2);
    }
    if base_hash_input(t1, g1, a1, p, s) == base_hash_input(t1, g1, a2, p, s) {
        lemma_input_shape(t1, decimal(g1 as nat), decimal(a2 as nat), p4, s5);
        middles_of_equal_texts_are_equal(
            "turn="@ + t1 + "|gen="@ + decimal(g1 as nat) + "|auth="@,
            decimal(a1 as nat),
            decimal(a2 as nat),
            "|promo="@ + p4 + "|steps="@ + s5,
        );
        crate::text::numbers_read_back(a1 as u64);
        crate::text::numbers_read_back(a2 as u64);
    }
}

proof fn lemma_input_shape(
    t: Seq<char>,
    g: Seq<char>,
    a: Seq<char>,
    p: Seq<char>,
    s: Seq<char>,
)
    ensures
        ({
            let l = "turn="@ + t + "|gen="@ + g + "|auth="@ + a + "|promo="@ + p + "|steps="@ + s;
            &&& l == "turn="@ + t + ("|gen="@ + g + "|auth="@ + a + "|promo="@ + p + "|steps="@ + s)
            &&& l == ("turn="@ + t + "|gen="@) + g + ("|auth="@ + a + "|promo="@ + p + "|steps="@ + s)
            &&& l == ("turn="@ + t + "|gen="@ + g + "|auth="@) + a + ("|promo="@ + p + "|steps="@ + s)
        }),
{
    let l = "turn="@ + t + "|gen="@ + g + "|auth="@ + a + "|promo="@ + p + "|steps="@ + s;
    assert(l =~= "turn="@ + t + ("|gen="@ + g + "|auth="@ + a + "|promo="@ + p + "|steps="@ + s));
    assert(l =~= ("turn="@ + t + "|gen="@) + g + ("|auth="@ + a + "|promo="@ + p + "|steps="@ + s));
    assert(l =~= ("turn="@ + t + "|gen="@ + g + "|auth="@) + a + ("|promo="@ + p + "|steps="@ + s));
}

/// The hash of a baseline is taken of the identities that it lets a step promote
/// and of its snapshots too.
pub proof fn hashes_are_taken_of_identities_and_snapshots(
    t: Seq<char>,
    g: u64,
    a: u8,
    p1: Seq<IdView>,
    p2: Seq<IdView>,
    s1: Seq<Seq<char>>,
    s2: Seq<Seq<char>>,
)
    ensures
        base_hash_input(t, g, a, p1, s1) == base_hash_input(t, g, a, p2, s1) ==> comma_list(
            p1.map_values(|id: IdView| id_debug(id)),
        ) == comma_list(p2.map_values(|id: IdView| id_debug(id))),
        base_hash_input(t, g, a, p1, s1) == base_hash_input(t, g, a, p1, s2) ==> comma_list(s1)
            == comma_list(s2),
{
    let f = |id: IdView| id_debug(id);
    let head = "turn="@ + t + "|gen="@ + decimal(g as nat) + "|auth="@ + decimal(a as nat) + "|promo="@;
    let c1 = comma_list(p1.map_values(f));
    let c2 = comma_list(p2.map_values(f));
    if base_hash_input(t, g, a, p1, s1) == base_hash_input(t, g, a, p2, s1) {
        let tail = "|steps="@ + comma_list(s1);
        assert(base_hash_input(t, g, a, p1, s1) =~= head + c1 + tail);
        assert(base_hash_input(t, g, a, p2, s1) =~= head + c2 + tail);
        middles_of_equal_texts_are_equal(head, c1, c2, tail);
    }
    if base_hash_input(t, g, a, p1, s1) == base_hash_input(t, g, a, p1, s2) {
        let e = Seq::<char>::empty();
        let longer = head + c1 + "|steps="@;
        assert(base_hash_input(t, g, a, p1, s1) =~= longer + comma_list(s1) + e);
        assert(base_hash_input(t, g, a, p1, s2) =~= longer + comma_list(s2) + e);
        middles_of_equal_texts_are_equal(longer, comma_list(s1), comma_list(s2), e);
    }
}

/// Each part of a list is followed by a comma.
pub proof fn parts_are_followed_by_commas(a: Seq<Seq<char>>, x: Seq<char>)
    ensures
        comma_list(a.push(x)) == comma_list(a) + (x + ","@),
        comma_list(Seq::empty()).len() == 0,
{
    assert(a.push(x).drop_last() =~= a);
    assert(comma_list(a.push(x)) =~= comma_list(a) + (x + ","@));
}

/// A baseline holds what it was made of.
pub proof fn baselines_hold_what_they_were_made_of(
    turn_id: Seq<char>,
    generation: u64,
    ceiling: u8,
    promotable_ids: Seq<IdView>,
    snapshot_ids: Seq<u128>,
    allowed: bool,
    epoch: u64,
)
    ensures
        ({
            let b = base_view_of(
                turn_id,
                generation,
                ceiling,
                promotable_ids,
                snapshot_ids,
                allowed,
                epoch,
            );
            &&& b.turn_id == turn_id
            &&& b.turn_generation == generation
            &&& b.authority_ceiling == ceiling
            &&& b.promotable_ids == promotable_ids
            &&& b.snapshot_ids == snapshot_ids
            &&& b.deferred_promotion_allowed == allowed
            &&& b.policy_epoch_at_start == epoch
        }),
{
}

} // verus!
