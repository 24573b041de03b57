//! A map from strings to values, in the order in which its keys came.

use vstd::prelude::*;

use crate::text::{same, views};

verus! {

/// A map keyed by strings. Its view is the mathematical map; `order` lists the
/// keys from the oldest to the newest.
#[derive(Debug)]
pub struct StrMap<V> {
    keys: Vec<String>,
    vals: Vec<V>,
}

/// The first position of `key` in `keys` at or after `from`, or the length.
pub open spec fn place(keys: Seq<Seq<char>>, key: Seq<char>, from: int) -> int
    decreases keys.len() - from,
{
    if from < 0 || from >= keys.len() {
        keys.len() as int
    } else if keys[from] == key {
        from
    } else {
        place(keys, key, from + 1)
    }
}

proof fn lemma_place(keys: Seq<Seq<char>>, key: Seq<char>, from: int)
    requires
        0 <= from <= keys.len(),
    ensures
        from <= place(keys, key, from) <= keys.len(),
        place(keys, key, from) < keys.len() ==> keys[place(keys, key, from)] == key,
        forall|k: int| from <= k < place(keys, key, from) ==> keys[k] != key,
    decreases keys.len() - from,
{
    if from < keys.len() && keys[from] != key {
        lemma_place(keys, key, from + 1);
    }
}

proof fn lemma_place_is(keys: Seq<Seq<char>>, key: Seq<char>, at: int)
    requires
        0 <= at <= keys.len(),
        at < keys.len() ==> keys[at] == key,
        forall|k: int| 0 <= k < at ==> keys[k] != key,
    ensures
        place(keys, key, 0) == at,
{
    lemma_place(keys, key, 0);
    let i = place(keys, key, 0);
    if i < at {
        assert(keys[i] == key);
    }
}

impl<V> StrMap<V> {
    /// The keys, oldest first.
    pub closed spec fn order(&self) -> Seq<Seq<char>> {
        views(self.keys@)
    }

    /// No key occurs twice, and each has a value.
    pub closed spec fn wf(&self) -> bool {
        &&& self.keys@.len() == self.vals@.len()
        &&& views(self.keys@).no_duplicates()
    }

    /// The map from keys to values.
    pub closed spec fn view(&self) -> Map<Seq<char>, V> {
        Map::new(
            |k: Seq<char>| place(views(self.keys@), k, 0) < self.keys@.len(),
            |k: Seq<char>| self.vals@[place(views(self.keys@), k, 0)],
        )
    }

    /// An empty map.
    pub fn new() -> (r: StrMap<V>)
        ensures
            r.wf(),
            r@ == Map::<Seq<char>, V>::empty(),
            r.order() == Seq::<Seq<char>>::empty(),
    {
        let r = StrMap { keys: Vec::new(), vals: Vec::new() };
        assert(r@ =~= Map::<Seq<char>, V>::empty());
        assert(r.order() =~= Seq::<Seq<char>>::empty());
        r
    }

    /// The keys in `order` are those of the map, each once.
    pub proof fn order_is_domain(&self)
        requires
            self.wf(),
        ensures
            self.order().no_duplicates(),
            forall|k: Seq<char>| #[trigger] self.order().contains(k) <==> self@.dom().contains(k),
            self@.dom() == self.order().to_set(),
            self@.dom().finite(),
            self@.dom().len() == self.order().len(),
    {
        let ks = views(self.keys@);
        assert forall|k: Seq<char>| #[trigger] self.order().contains(k) <==> self@.dom().contains(
            k,
        ) by {
            lemma_place(ks, k, 0);
            if ks.contains(k) {
                let i = choose|i: int| 0 <= i < ks.len() && ks[i] == k;
                assert(ks[i] == k);
            }
        }
        assert(self@.dom() =~= self.order().to_set());
        ks.unique_seq_to_set();
    }

    fn locate(&self, key: &str) -> (r: usize)
        requires
            self.wf(),
        ensures
            r == place(self.order(), key@, 0),
            r <= self.keys@.len(),
            r < self.keys@.len() ==> self.keys@[r as int]@ == key@,
            self@.dom().contains(key@) == (r < self.keys@.len()),
            r < self.keys@.len() ==> self@[key@] == self.vals@[r as int],
    {
        let ghost ks = views(self.keys@);
        let mut i: usize = 0;
        while i < self.keys.len()
            invariant_except_break
                i <= self.keys@.len(),
                ks == views(self.keys@),
                forall|k: int| 0 <= k < i ==> ks[k] != key@,
            ensures
                i <= self.keys@.len(),
                i < self.keys@.len() ==> ks[i as int] == key@,
                forall|k: int| 0 <= k < i ==> ks[k] != key@,
            decreases self.keys@.len() - i,
        {
            if same(self.keys[i].as_str(), key) {
                break;
            }
            i = i + 1;
        }
        proof {
            lemma_place_is(ks, key@, i as int);
        }
        i
    }

    /// The number of keys.
    pub fn len(&self) -> (r: usize)
        requires
            self.wf(),
        ensures
            r == self.order().len(),
            r == self@.dom().len(),
    {
        proof {
            self.order_is_domain();
        }
        self.keys.len()
    }

    /// Whether `key` is in the map.
    pub fn contains(&self, key: &str) -> (r: bool)
        requires
            self.wf(),
        ensures
            r == self@.dom().contains(key@),
    {
        self.locate(key) < self.keys.len()
    }

    /// The value of `key`.
    pub fn get(&self, key: &str) -> (r: Option<&V>)
        requires
            self.wf(),
        ensures
            match r {
                Some(v) => self@.dom().contains(key@) && self@[key@] == *v,
                None => !self@.dom().contains(key@),
            },
    {
        let i: usize = self.locate(key);
        if i < self.keys.len() {
            Some(&self.vals[i])
        } else {
            None
        }
    }

    /// Gives `key` the value `value` and gives back what it had.
    pub fn insert(&mut self, key: String, value: V) -> (r: Option<V>)
        requires
            old(self).wf(),
        ensures
            final(self).wf(),
            final(self)@ == old(self)@.insert(key@, value),
            final(self).order() == (if old(self)@.dom().contains(key@) {
                old(self).order()
            } else {
                old(self).order().push(key@)
            }),
            r == (if old(self)@.dom().contains(key@) {
                Some(old(self)@[key@])
            } else {
                None
            }),
    {
        let ghost ks = views(self.keys@);
        let ghost before = self@;
        let i: usize = self.locate(key.as_str());
        if i < self.keys.len() {
            let mut v = value;
            core::mem::swap(&mut self.vals[i], &mut v);
            proof {
                assert(self@ =~= before.insert(key@, value)) by {
                    assert forall|k: Seq<char>| #[trigger]
                        before.insert(key@, value).dom().contains(k) implies self@[k]
                        == before.insert(key@, value)[k] by {
                        lemma_place(ks, k, 0);
                    }
                    assert(self@.dom() =~= before.insert(key@, value).dom());
                }
            }
            Some(v)
        } else {
            let ghost k0 = key@;
            let ghost v0 = value;
            self.keys.push(key);
            self.vals.push(value);
            proof {
                let ks2 = views(self.keys@);
                assert(ks2 =~= ks.push(k0));
                lemma_place(ks, k0, 0);
                assert forall|k: int| 0 <= k < ks.len() implies ks2[k] != k0 by {
                    assert(ks2[k] == ks[k]);
                }
                lemma_place_is(ks2, k0, ks.len() as int);
                assert forall|k: Seq<char>| k != k0 implies #[trigger] place(ks2, k, 0) == (if place(
                    ks,
                    k,
                    0,
                ) < ks.len() {
                    place(ks, k, 0)
                } else {
                    ks2.len() as int
                }) by {
                    lemma_place(ks, k, 0);
                    if place(ks, k, 0) < ks.len() {
                        lemma_place_is(ks2, k, place(ks, k, 0));
                    } else {
                        lemma_place_is(ks2, k, ks2.len() as int);
                    }
                }
                assert forall|k: Seq<char>| k != k0 implies 0 <= #[trigger] place(ks, k, 0) by {
                    lemma_place(ks, k, 0);
                }
                assert(self@ =~= before.insert(k0, v0));
                lemma_place(ks, k0, 0);
            }
            None
        }
    }

    /// Deletes `key` and gives back its value.
    pub fn remove(&mut self, key: &str) -> (r: Option<V>)
        requires
            old(self).wf(),
        ensures
            final(self).wf(),
            final(self)@ == old(self)@.remove(key@),
            final(self).order() == (if old(self)@.dom().contains(key@) {
                old(self).order().remove(place(old(self).order(), key@, 0))
            } else {
                old(self).order()
            }),
            r == (if old(self)@.dom().contains(key@) {
                Some(old(self)@[key@])
            } else {
                None
            }),
    {
        let ghost ks = views(self.keys@);
        let ghost before = self@;
        let i: usize = self.locate(key);
        if i < self.keys.len() {
            let _k = self.keys.remove(i);
            let v = self.vals.remove(i);
            proof {
                let ks2 = views(self.keys@);
                assert(ks2 =~= ks.remove(i as int));
                assert forall|a: int, b: int|
                    0 <= a < ks2.len() && 0 <= b < ks2.len() && a != b implies ks2[a] != ks2[b] by {
                    let a2 = if a < i { a } else { a + 1 };
                    let b2 = if b < i { b } else { b + 1 };
                    assert(ks2[a] == ks[a2] && ks2[b] == ks[b2]);
                }
                assert forall|k: Seq<char>| #[trigger] place(ks2, k, 0) == (if k == key@ {
                    ks2.len() as int
                } else if place(ks, k, 0) < i {
                    place(ks, k, 0)
                } else {
                    place(ks, k, 0) - 1
                }) && place(ks, k, 0) >= 0 && (k != key@ ==> place(ks, k, 0) != i) by {
                    lemma_place(ks, k, 0);
                    if k == key@ {
                        lemma_place_is(ks2, k, ks2.len() as int);
                    } else {
                        let p = place(ks, k, 0);
                        let q = if p < i { p } else { p - 1 };
                        assert forall|j: int| 0 <= j < q implies ks2[j] != k by {
                            assert(ks2[j] == if j < i { ks[j] } else { ks[j + 1] });
                        }
                        if q < ks2.len() {
                            assert(ks2[q] == ks[p]);
                        }
                        lemma_place_is(ks2, k, q);
                    }
                }
                assert(self@.dom() =~= before.remove(key@).dom());
                assert(self@ =~= before.remove(key@));
            }
            Some(v)
        } else {
            assert(self@ =~= before.remove(key@));
            None
        }
    }

    /// The `i`-th key, oldest first.
    pub fn key_at(&self, i: usize) -> (r: &String)
        requires
            self.wf(),
            i < self.order().len(),
        ensures
            r@ == self.order()[i as int],
            self@.dom().contains(r@),
    {
        proof {
            self.order_is_domain();
            assert(self.order().contains(self.order()[i as int]));
        }
        &self.keys[i]
    }

    /// The value of the `i`-th key, oldest first.
    pub fn value_at(&self, i: usize) -> (r: &V)
        requires
            self.wf(),
            i < self.order().len(),
        ensures
            self@.dom().contains(self.order()[i as int]),
            self@[self.order()[i as int]] == *r,
    {
        proof {
            self.order_is_domain();
            assert(self.order().contains(self.order()[i as int]));
            lemma_place_is(self.order(), self.order()[i as int], i as int);
        }
        &self.vals[i]
    }

    /// The keys, oldest first, copied.
    pub fn key_list(&self) -> (r: Vec<String>)
        requires
            self.wf(),
        ensures
            views(r@) == self.order(),
    {
        let mut out: Vec<String> = Vec::new();
        let mut i: usize = 0;
        while i < self.keys.len()
            invariant
                i <= self.keys@.len(),
                out@.len() == i,
                forall|k: int| 0 <= k < i ==> out@[k]@ == self.keys@[k]@,
            decreases self.keys@.len() - i,
        {
            out.push(self.keys[i].clone());
            i = i + 1;
        }
        assert(views(out@) =~= self.order());
        out
    }
}

} // verus!
