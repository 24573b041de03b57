//! A map from capability identities to values, in the order of identities.

use vstd::prelude::*;

use crate::capability::id::{
    id_lt, id_order_is_total, id_order_is_transitive, ids_view, in_id_order, CapabilityId, IdView,
};

verus! {

/// A map keyed by capability identities. Its view is the mathematical map;
/// `order` lists the keys in their order.
#[derive(Debug)]
pub struct IdMap<V> {
    keys: Vec<CapabilityId>,
    vals: Vec<V>,
}

/// Whether `key` stands at `at` in `keys`.
spec fn stands_at(keys: Seq<IdView>, key: IdView, at: int) -> bool {
    0 <= at < keys.len() && keys[at] == key
}

proof fn lemma_unique(keys: Seq<IdView>, i: int, j: int)
    requires
        in_id_order(keys),
        0 <= i < keys.len(),
        0 <= j < keys.len(),
        keys[i] == keys[j],
    ensures
        i == j,
{
    id_order_is_total(keys[i], keys[i]);
    if i < j {
        assert(id_lt(keys[i], keys[j]));
    } else if j < i {
        assert(id_lt(keys[j], keys[i]));
    }
}

impl<V> IdMap<V> {
    /// The keys in their order.
    pub closed spec fn order(&self) -> Seq<IdView> {
        ids_view(self.keys@)
    }

    /// The keys stand in strict order, and each has a value.
    pub closed spec fn wf(&self) -> bool {
        &&& self.keys@.len() == self.vals@.len()
        &&& in_id_order(ids_view(self.keys@))
    }

    spec fn at(&self, key: IdView) -> int {
        choose|i: int| stands_at(ids_view(self.keys@), key, i)
    }

    /// The map from keys to values.
    pub closed spec fn view(&self) -> Map<IdView, V> {
        Map::new(
            |k: IdView| exists|i: int| stands_at(ids_view(self.keys@), k, i),
            |k: IdView| self.vals@[self.at(k)],
        )
    }

    proof fn lemma_at(&self, i: int)
        requires
            self.wf(),
            0 <= i < self.keys@.len(),
        ensures
            self@.dom().contains(ids_view(self.keys@)[i]),
            self@[ids_view(self.keys@)[i]] == self.vals@[i],
    {
        let ks = ids_view(self.keys@);
        assert(stands_at(ks, ks[i], i));
        let j = self.at(ks[i]);
        lemma_unique(ks, i, j);
    }

    /// An empty map.
    pub fn new() -> (r: IdMap<V>)
        ensures
            r.wf(),
            r@ == Map::<IdView, V>::empty(),
            r.order() == Seq::<IdView>::empty(),
    {
        let r = IdMap { keys: Vec::new(), vals: Vec::new() };
        assert(r@ =~= Map::<IdView, V>::empty());
        assert(r.order() =~= Seq::<IdView>::empty());
        r
    }

    /// The keys in `order` are those of the map, each once and in order.
    pub proof fn order_is_domain(&self)
        requires
            self.wf(),
        ensures
            in_id_order(self.order()),
            self.order().no_duplicates(),
            forall|k: IdView| #[trigger] self.order().contains(k) <==> self@.dom().contains(k),
            self@.dom() == self.order().to_set(),
            self@.dom().finite(),
            self@.dom().len() == self.order().len(),
    {
        let ks = ids_view(self.keys@);
        assert forall|k: IdView| #[trigger] self.order().contains(k) <==> self@.dom().contains(
            k,
        ) by {
            if ks.contains(k) {
                let i = choose|i: int| 0 <= i < ks.len() && ks[i] == k;
                assert(stands_at(ks, k, i));
            }
        }
        assert forall|i: int, j: int|
            0 <= i < ks.len() && 0 <= j < ks.len() && i != j implies ks[i] != ks[j] by {
            if ks[i] == ks[j] {
                lemma_unique(ks, i, j);
            }
        }
        assert(self@.dom() =~= self.order().to_set());
        ks.unique_seq_to_set();
    }

    /// The first position whose key does not come before `key`.
    fn locate(&self, key: &CapabilityId) -> (r: usize)
        requires
            self.wf(),
        ensures
            r <= self.keys@.len(),
            forall|k: int| 0 <= k < r ==> id_lt(#[trigger] self.order()[k], key@),
            r < self.keys@.len() ==> !id_lt(self.order()[r as int], key@),
            self@.dom().contains(key@) == (r < self.keys@.len() && self.order()[r as int] == key@),
            self@.dom().contains(key@) ==> self@[key@] == self.vals@[r as int],
    {
        let ghost ks = ids_view(self.keys@);
        let mut i: usize = 0;
        while i < self.keys.len() && self.keys[i].precedes(key)
            invariant
                i <= self.keys@.len(),
                ks == ids_view(self.keys@),
                forall|k: int| 0 <= k < i ==> id_lt(#[trigger] ks[k], key@),
            decreases self.keys@.len() - i,
        {
            assert(ks[i as int] == self.keys@[i as int]@);
            i = i + 1;
        }
        proof {
            id_order_is_total(key@, key@);
            if i < ks.len() {
                assert(ks[i as int] == self.keys@[i as int]@);
                if ks[i as int] == key@ {
                    self.lemma_at(i as int);
                }
            }
            if self@.dom().contains(key@) {
                let j = self.at(key@);
                assert(stands_at(ks, key@, j));
                if j < i {
                    assert(id_lt(ks[j], key@));
                } else if j > i {
                    id_order_is_total(ks[i as int], key@);
                    assert(id_lt(ks[i as int], ks[j]));
                }
            }
        }
        i
    }

    /// The number of keys.
    pub fn len(&self) -> (r: usize)
        requires
            self.wf(),
        ensures
            r == self.order().len(),
            r == self@.dom().len(),
    {
        proof {
            self.order_is_domain();
        }
        self.keys.len()
    }

    /// Whether `key` is in the map.
    pub fn contains(&self, key: &CapabilityId) -> (r: bool)
        requires
            self.wf(),
        ensures
            r == self@.dom().contains(key@),
    {
        let i: usize = self.locate(key);
        i < self.keys.len() && self.keys[i].is(key)
    }

    /// The value of `key`.
    pub fn get(&self, key: &CapabilityId) -> (r: Option<&V>)
        requires
            self.wf(),
        ensures
            match r {
                Some(v) => self@.dom().contains(key@) && self@[key@] == *v,
                None => !self@.dom().contains(key@),
            },
    {
        let i: usize = self.locate(key);
        if i < self.keys.len() && self.keys[i].is(key) {
            Some(&self.vals[i])
        } else {
            None
        }
    }

    /// Gives `key` the value `value`.
    pub fn insert(&mut self, key: CapabilityId, value: V)
        requires
            old(self).wf(),
        ensures
            final(self).wf(),
            final(self)@ == old(self)@.insert(key@, value),
    {
        let ghost ks = ids_view(self.keys@);
        let ghost before = *self;
        let i: usize = self.locate(&key);
        let ghost k0 = key@;
        if i < self.keys.len() && self.keys[i].is(&key) {
            self.vals[i] = value;
            proof {
                let want = before@.insert(k0, value);
                assert forall|k: IdView| #[trigger] self@.dom().contains(k) <==> want.dom().contains(
                    k,
                ) by {
                    assert(ids_view(self.keys@) == ks);
                    if k == k0 {
                        assert(stands_at(ks, k, i as int));
                    }
                }
                assert(self@.dom() =~= want.dom());
                assert forall|k: IdView| #[trigger] self@.dom().contains(k) implies self@[k]
                    == want[k] by {
                    let j = self.at(k);
                    assert(stands_at(ids_view(self.keys@), k, j));
                    self.lemma_at(j);
                    before.lemma_at(j);
                    if k == k0 {
                        lemma_unique(ks, i as int, j);
                    } else {
                        assert(j != i);
                    }
                }
                assert(self@ =~= want);
            }
        } else {
            self.keys.insert(i, key);
            self.vals.insert(i, value);
            proof {
                let ks2 = ids_view(self.keys@);
                assert(ks2 =~= ks.insert(i as int, k0));
                if i < ks.len() {
                    id_order_is_total(ks[i as int], k0);
                }
                assert forall|x: int, y: int| 0 <= x < y < ks2.len() implies id_lt(
                    #[trigger] ks2[x],
                    #[trigger] ks2[y],
                ) by {
                    if y == i {
                        assert(ks2[x] == ks[x]);
                    } else if x == i {
                        assert(ks2[y] == ks[y - 1]);
                        if y - 1 > i {
                            id_order_is_transitive(k0, ks[i as int], ks[y - 1]);
                        }
                    } else {
                        let x2 = if x < i { x } else { x - 1 };
                        let y2 = if y < i { y } else { y - 1 };
                        assert(ks2[x] == ks[x2] && ks2[y] == ks[y2]);
                    }
                }
                assert(self.wf());
                let want = before@.insert(k0, value);
                assert forall|k: IdView| #[trigger] self@.dom().contains(k) <==> want.dom().contains(
                    k,
                ) by {
                    if self@.dom().contains(k) {
                        let j = self.at(k);
                        assert(stands_at(ks2, k, j));
                        if j < i {
                            assert(stands_at(ks, k, j));
                        } else if j > i {
                            assert(stands_at(ks, k, j - 1));
                        }
                    }
                    if want.dom().contains(k) {
                        if k == k0 {
                            assert(stands_at(ks2, k, i as int));
                        } else {
                            let j = before.at(k);
                            assert(stands_at(ks, k, j));
                            assert(stands_at(ks2, k, if j < i { j } else { j + 1 }));
                        }
                    }
                }
                assert(self@.dom() =~= want.dom());
                assert forall|k: IdView| #[trigger] self@.dom().contains(k) implies self@[k]
                    == want[k] by {
                    let j = self.at(k);
                    assert(stands_at(ks2, k, j));
                    self.lemma_at(j);
                    if k == k0 {
                        lemma_unique(ks2, i as int, j);
                    } else {
                        assert(j != i);
                        let j0 = if j < i { j } else { j - 1 };
                        assert(ks[j0] == k);
                        before.lemma_at(j0);
                    }
                }
                assert(self@ =~= want);
            }
        }
    }

    /// The `i`-th key.
    pub fn key_at(&self, i: usize) -> (r: &CapabilityId)
        requires
            self.wf(),
            i < self.order().len(),
        ensures
            r@ == self.order()[i as int],
    {
        &self.keys[i]
    }

    /// The value of the `i`-th key.
    pub fn value_at(&self, i: usize) -> (r: &V)
        requires
            self.wf(),
            i < self.order().len(),
        ensures
            self@.dom().contains(self.order()[i as int]),
            self@[self.order()[i as int]] == *r,
    {
        proof {
            self.lemma_at(i as int);
        }
        &self.vals[i]
    }

    /// Gives the `i`-th key the value `value`.
    pub fn set_value_at(&mut self, i: usize, value: V)
        requires
            old(self).wf(),
            i < old(self).order().len(),
        ensures
            final(self).wf(),
            final(self).order() == old(self).order(),
            final(self)@ == old(self)@.insert(old(self).order()[i as int], value),
    {
        let ghost before = *self;
        let ghost ks = ids_view(self.keys@);
        self.vals[i] = value;
        proof {
            let k0 = ks[i as int];
            let want = before@.insert(k0, value);
            before.lemma_at(i as int);
            assert(self@.dom() =~= want.dom());
            assert forall|k: IdView| #[trigger] self@.dom().contains(k) implies self@[k]
                == want[k] by {
                let j = self.at(k);
                assert(stands_at(ids_view(self.keys@), k, j));
                self.lemma_at(j);
                before.lemma_at(j);
                if k == k0 {
                    lemma_unique(ks, i as int, j);
                } else {
                    assert(j != i);
                }
            }
            assert(self@ =~= want);
        }
    }
}

} // verus!
