//! The record of revocations.

use vstd::prelude::*;

use crate::capability::id::{ids_view, CapabilityId, IdView};
use crate::capability::idmap::IdMap;

verus! {

/// A record of revocations that only grows: an epoch, and for each revoked
/// capability the epoch of its revocation.
#[derive(Debug)]
pub struct LiveRevocationFence {
    epoch: u64,
    revoked_at: IdMap<u64>,
}

/// The mathematical value of a [`LiveRevocationFence`].
pub struct FenceView {
    pub epoch: u64,
    pub revoked_at: Map<IdView, u64>,
}

impl FenceView {
    /// Whether `id` was revoked at `query_epoch` or before.
    pub open spec fn revoked_by(self, id: IdView, query_epoch: u64) -> bool {
        self.revoked_at.dom().contains(id) && self.revoked_at[id] <= query_epoch
    }

    /// No revocation lies in the future.
    pub open spec fn valid(self) -> bool {
        forall|id: IdView| #[trigger]
            self.revoked_at.dom().contains(id) ==> self.revoked_at[id] <= self.epoch
    }

    /// The record after everything was revoked.
    pub open spec fn after_revoke_all(self) -> FenceView {
        FenceView {
            epoch: (self.epoch + 1) as u64,
            revoked_at: Map::new(
                |id: IdView| self.revoked_at.dom().contains(id),
                |id: IdView| (self.epoch + 1) as u64,
            ),
        }
    }

    /// The record after `ids` were revoked.
    pub open spec fn after_revoke(self, ids: Seq<IdView>) -> FenceView {
        FenceView {
            epoch: self.epoch,
            revoked_at: Map::new(
                |id: IdView| self.revoked_at.dom().contains(id) || ids.contains(id),
                |id: IdView|
                    if self.revoked_at.dom().contains(id) {
                        self.revoked_at[id]
                    } else {
                        self.epoch
                    },
            ),
        }
    }

    /// The members of `ids` that are not revoked at `query_epoch`, in order.
    pub open spec fn survivors(self, ids: Seq<IdView>, query_epoch: u64) -> Seq<IdView>
        decreases ids.len(),
    {
        if ids.len() == 0 {
            Seq::empty()
        } else {
            let below = self.survivors(ids.drop_last(), query_epoch);
            if self.revoked_by(ids.last(), query_epoch) {
                below
            } else {
                below.push(ids.last())
            }
        }
    }
}

impl View for LiveRevocationFence {
    type V = FenceView;

    closed spec fn view(&self) -> FenceView {
        FenceView { epoch: self.epoch, revoked_at: self.revoked_at@ }
    }
}

impl Default for LiveRevocationFence {
    fn default() -> (r: Self)
        ensures
            r.wf(),
            r@.epoch == 0,
            r@.revoked_at == Map::<IdView, u64>::empty(),
    {
        LiveRevocationFence::new()
    }
}

impl LiveRevocationFence {
    /// The record is sound, and no revocation lies in the future.
    pub closed spec fn wf(&self) -> bool {
        self.revoked_at.wf() && self@.valid()
    }

    /// What `wf` says of the model.
    pub proof fn wf_is_valid(&self)
        requires
            self.wf(),
        ensures
            self@.valid(),
            self@.revoked_at.dom().finite(),
    {
        self.revoked_at.order_is_domain();
    }

    /// A record without revocations, at epoch 0.
    pub fn new() -> (r: Self)
        ensures
            r.wf(),
            r@.epoch == 0,
            r@.revoked_at == Map::<IdView, u64>::empty(),
    {
        LiveRevocationFence { epoch: 0, revoked_at: IdMap::new() }
    }

    /// The current epoch.
    pub fn epoch(&self) -> (r: u64)
        ensures
            r == self@.epoch,
    {
        self.epoch
    }

    /// Revokes everything: the epoch rises, and every earlier revocation moves
    /// to it. Gives the new epoch.
    pub fn revoke_all(&mut self) -> (r: u64)
        requires
            old(self).wf(),
            old(self)@.epoch < u64::MAX,
        ensures
            final(self).wf(),
            final(self)@ == old(self)@.after_revoke_all(),
            r == final(self)@.epoch,
    {
        let ghost before = self@;
        let ghost order = self.revoked_at.order();
        self.epoch = self.epoch + 1;
        let now: u64 = self.epoch;
        let n: usize = self.revoked_at.len();
        let mut i: usize = 0;
        while i < n
            invariant
                i <= n == order.len(),
                self.epoch == now,
                now == before.epoch + 1,
                self.revoked_at.wf(),
                self.revoked_at.order() == order,
                self.revoked_at@.dom() == before.revoked_at.dom(),
                forall|k: int| 0 <= k < i ==> self.revoked_at@[#[trigger] order[k]] == now,
            decreases n - i,
        {
            let ghost m0 = self.revoked_at@;
            proof {
                self.revoked_at.order_is_domain();
                assert(order.contains(order[i as int]));
            }
            self.revoked_at.set_value_at(i, now);
            proof {
                assert(self.revoked_at@.dom() =~= before.revoked_at.dom());
                assert forall|k: int| 0 <= k < i + 1 implies self.revoked_at@[#[trigger] order[k]]
                    == now by {
                    if order[k] != order[i as int] {
                        assert(self.revoked_at@[order[k]] == m0[order[k]]);
                        assert(k != i);
                    }
                }
            }
            i = i + 1;
        }
        proof {
            self.revoked_at.order_is_domain();
            assert forall|id: IdView| #[trigger]
                self.revoked_at@.dom().contains(id) implies self.revoked_at@[id] == now by {
                assert(order.contains(id));
                let k = choose|k: int| 0 <= k < order.len() && order[k] == id;
                assert(self.revoked_at@[order[k]] == now);
            }
            assert(self@.revoked_at =~= before.after_revoke_all().revoked_at);
        }
        self.epoch
    }

    /// Revokes capabilities at the current epoch. Those revoked before keep
    /// their epoch. Gives the number of those that were not.
    pub fn revoke_ids(&mut self, ids: &Vec<CapabilityId>) -> (r: usize)
        requires
            old(self).wf(),
        ensures
            final(self).wf(),
            final(self)@ == old(self)@.after_revoke(ids_view(ids@)),
            r == final(self)@.revoked_at.dom().len() - old(self)@.revoked_at.dom().len(),
    {
        let ghost before = self@;
        let ghost all = ids_view(ids@);
        proof {
            self.revoked_at.order_is_domain();
        }
        let mut newly: usize = 0;
        let mut i: usize = 0;
        assert(self@.revoked_at =~= before.after_revoke(all.take(0)).revoked_at);
        while i < ids.len()
            invariant
                i <= ids@.len(),
                newly <= i,
                all == ids_view(ids@),
                self.revoked_at.wf(),
                self.epoch == before.epoch,
                before.valid(),
                self@ == before.after_revoke(all.take(i as int)),
                newly == self@.revoked_at.dom().len() - before.revoked_at.dom().len(),
            decreases ids@.len() - i,
        {
            let ghost mid = self@;
            proof {
                self.revoked_at.order_is_domain();
                let t0 = all.take(i as int);
                let t1 = all.take(i as int + 1);
                assert(t1 =~= t0.push(all[i as int]));
                assert forall|k: IdView| #[trigger] t1.contains(k) <==> (t0.contains(k) || k
                    == all[i as int]) by {
                    if t1.contains(k) {
                        let x = choose|x: int| 0 <= x < t1.len() && t1[x] == k;
                        if x < i {
                            assert(t0[x] == k);
                        }
                    }
                    if t0.contains(k) {
                        let x = choose|x: int| 0 <= x < t0.len() && t0[x] == k;
                        assert(t1[x] == k);
                    }
                    assert(t1[i as int] == all[i as int]);
                }
            }
            if !self.revoked_at.contains(&ids[i]) {
                let now: u64 = self.epoch;
                self.revoked_at.insert(ids[i].clone(), now);
                newly = newly + 1;
            }
            assert(self@.revoked_at =~= before.after_revoke(all.take(i as int + 1)).revoked_at);
            i = i + 1;
        }
        assert(all.take(ids@.len() as int) =~= all);
        newly
    }

    /// Whether `id` was revoked at `query_epoch` or before.
    pub fn was_revoked_before(&self, id: &CapabilityId, query_epoch: u64) -> (r: bool)
        requires
            self.wf(),
        ensures
            r == self@.revoked_by(id@, query_epoch),
    {
        match self.revoked_at.get(id) {
            Some(at) => *at <= query_epoch,
            None => false,
        }
    }

    /// The members of `ids` that are not revoked at `query_epoch`, in order.
    pub fn filter_revoked(&self, ids: &Vec<CapabilityId>, query_epoch: u64) -> (r: Vec<
        CapabilityId,
    >)
        requires
            self.wf(),
        ensures
            ids_view(r@) == self@.survivors(ids_view(ids@), query_epoch),
    {
        let ghost all = ids_view(ids@);
        let mut out: Vec<CapabilityId> = Vec::new();
        let mut i: usize = 0;
        assert(ids_view(out@) =~= self@.survivors(all.take(0), query_epoch));
        while i < ids.len()
            invariant
                i <= ids@.len(),
                all == ids_view(ids@),
                self.wf(),
                ids_view(out@) == self@.survivors(all.take(i as int), query_epoch),
            decreases ids@.len() - i,
        {
            proof {
                assert(all.take(i as int + 1).drop_last() =~= all.take(i as int));
                assert(all.take(i as int + 1).last() == ids@[i as int]@);
            }
            if !self.was_revoked_before(&ids[i], query_epoch) {
                let ghost before = out@;
                let c = ids[i].clone();
                out.push(c);
                assert(ids_view(out@) =~= ids_view(before).push(c@));
            }
            i = i + 1;
        }
        assert(all.take(ids@.len() as int) =~= all);
        out
    }

    /// The number of capabilities that were ever revoked by name.
    pub fn individually_revoked_count(&self) -> (r: usize)
        requires
            self.wf(),
        ensures
            r == self@.revoked_at.dom().len(),
    {
        self.revoked_at.len()
    }
}

/// A capability that is revoked at the current epoch stays revoked, whatever
/// is revoked later.
pub proof fn revocations_are_never_undone(f: FenceView, id: IdView, ids: Seq<IdView>)
    requires
        f.valid(),
        f.epoch < u64::MAX,
        f.revoked_by(id, f.epoch),
    ensures
        f.after_revoke_all().revoked_by(id, f.after_revoke_all().epoch),
        f.after_revoke(ids).revoked_by(id, f.after_revoke(ids).epoch),
{
}

/// The epoch never falls, and no operation puts a revocation in the future.
pub proof fn epochs_only_rise(f: FenceView, ids: Seq<IdView>)
    requires
        f.valid(),
        f.epoch < u64::MAX,
    ensures
        f.after_revoke_all().epoch == f.epoch + 1,
        f.after_revoke(ids).epoch == f.epoch,
        f.after_revoke_all().valid(),
        f.after_revoke(ids).valid(),
{
}

/// Whatever was just revoked does not survive a filter at the current epoch.
pub proof fn revoked_ids_do_not_survive(f: FenceView, ids: Seq<IdView>, among: Seq<IdView>)
    requires
        f.valid(),
    ensures
        forall|i: int|
            0 <= i < f.after_revoke(ids).survivors(among, f.epoch).len() ==> {
                let s = #[trigger] f.after_revoke(ids).survivors(among, f.epoch)[i];
                !ids.contains(s) && among.contains(s)
            },
    decreases among.len(),
{
    let g = f.after_revoke(ids);
    if among.len() > 0 {
        let rest = among.drop_last();
        revoked_ids_do_not_survive(f, ids, rest);
        let below = g.survivors(rest, f.epoch);
        let all = g.survivors(among, f.epoch);
        assert forall|i: int| 0 <= i < all.len() implies {
            let s = #[trigger] all[i];
            !ids.contains(s) && among.contains(s)
        } by {
            if i < below.len() {
                assert(all[i] == below[i]);
                let k = choose|k: int| 0 <= k < rest.len() && rest[k] == below[i];
                assert(among[k] == below[i]);
            } else {
                assert(all[i] == among.last());
                assert(among[among.len() - 1] == among.last());
            }
        }
    }
}

/// What is revoked is revoked from the current epoch on, what was revoked before
/// stays so from where it was, and nothing else is revoked.
pub proof fn revocations_begin_now(f: FenceView, ids: Seq<IdView>, id: IdView, at: u64)
    ensures
        ({
            let g = f.after_revoke(ids);
            &&& f.revoked_at.dom().contains(id) ==> (g.revoked_by(id, at) <==> f.revoked_at[id] <= at)
            &&& !f.revoked_at.dom().contains(id) && ids.contains(id) ==> (g.revoked_by(id, at) <==> f.epoch
                <= at)
            &&& !f.revoked_at.dom().contains(id) && !ids.contains(id) ==> !g.revoked_by(id, at)
        }),
{
}

/// A new epoch counts all revocations from itself on and revokes nothing more.
pub proof fn new_epochs_revoke_nothing_more(f: FenceView, id: IdView, at: u64)
    requires
        f.epoch < u64::MAX,
    ensures
        f.after_revoke_all().revoked_by(id, at) <==> f.revoked_at.dom().contains(id) && f.epoch + 1 <= at,
{
}

/// What survives is what is not revoked, in its order.
pub proof fn everything_else_survives(f: FenceView, ids: Seq<IdView>, id: IdView, at: u64)
    ensures
        f.revoked_at.dom().contains(id) && f.revoked_at[id] <= at ==> f.survivors(ids.push(id), at)
            == f.survivors(ids, at),
        !(f.revoked_at.dom().contains(id) && f.revoked_at[id] <= at) ==> f.survivors(ids.push(id), at)
            == f.survivors(ids, at).push(id),
        f.survivors(Seq::empty(), at).len() == 0,
{
    assert(ids.push(id).drop_last() =~= ids);
}

/// An identity survives exactly when it was there and is not revoked.
pub proof fn survivors_were_there(f: FenceView, ids: Seq<IdView>, id: IdView, at: u64)
    ensures
        f.survivors(ids, at).contains(id) <==> ids.contains(id) && !(f.revoked_at.dom().contains(id)
            && f.revoked_at[id] <= at),
    decreases ids.len(),
{
    if ids.len() > 0 {
        let d = ids.drop_last();
        let below = f.survivors(d, at);
        let all = f.survivors(ids, at);
        survivors_were_there(f, d, id, at);
        if d.contains(id) {
            let k = choose|k: int| 0 <= k < d.len() && d[k] == id;
            assert(ids[k] == id);
        }
        if below.contains(id) {
            let k = choose|k: int| 0 <= k < below.len() && below[k] == id;
            assert(all[k] == id);
        }
        assert(ids[ids.len() - 1] == ids.last());
        if !f.revoked_by(ids.last(), at) {
            assert(all[below.len() as int] == ids.last());
        }
        if ids.contains(id) && !d.contains(id) {
            let k = choose|k: int| 0 <= k < ids.len() && ids[k] == id;
            if k < d.len() {
                assert(d[k] == id);
            }
        }
    }
}

} // verus!
