//! The keys of commands that were handled already.
//!
//! Points in time and the lifetime of a key are nanoseconds on a monotonic
//! clock.

use vstd::prelude::*;

use crate::text::same;

verus! {

/// The most keys that one look-up forgets.
pub const RECLAIM_LIMIT: usize = 256;

/// Keys with the time at which each was inserted, bounded in number and age.
#[derive(Debug)]
pub struct IdempotencyCache {
    entries: Vec<CacheEntry>,
    capacity: usize,
    ttl: u64,
}

#[derive(Debug)]
struct CacheEntry {
    key: String,
    at: u64,
}

/// How long ago `at` was.
pub open spec fn age(at: u64, now: u64) -> int {
    if now < at {
        0
    } else {
        now - at
    }
}

/// Whether the lifetime of a key that was inserted at `at` is over.
pub open spec fn expired(at: u64, now: u64, ttl: u64) -> bool {
    age(at, now) >= ttl
}

/// The position of a key at or after `from`, or the number of entries.
pub open spec fn entry_index(es: Seq<(Seq<char>, u64)>, key: Seq<char>, from: int) -> int
    decreases es.len() - from,
{
    if from < 0 || from >= es.len() {
        es.len() as int
    } else if es[from].0 == key {
        from
    } else {
        entry_index(es, key, from + 1)
    }
}

/// Whether a key is there.
pub open spec fn has_key(es: Seq<(Seq<char>, u64)>, key: Seq<char>) -> bool {
    exists|i: int| 0 <= i < es.len() && (#[trigger] es[i]).0 == key
}

/// Whether a key is there and its lifetime is not over.
pub open spec fn is_live(es: Seq<(Seq<char>, u64)>, key: Seq<char>, now: u64, ttl: u64) -> bool {
    exists|i: int|
        0 <= i < es.len() && (#[trigger] es[i]).0 == key && !expired(es[i].1, now, ttl)
}

/// The entries without the first `budget` of those whose lifetime is over.
pub open spec fn reclaimed(es: Seq<(Seq<char>, u64)>, now: u64, ttl: u64, budget: nat) -> Seq<
    (Seq<char>, u64),
>
    decreases es.len(),
{
    if es.len() == 0 {
        es
    } else if budget > 0 && expired(es[0].1, now, ttl) {
        reclaimed(es.skip(1), now, ttl, (budget - 1) as nat)
    } else {
        seq![es[0]] + reclaimed(es.skip(1), now, ttl, budget)
    }
}

/// The entries after a look-up: without old ones, and without `key` where its
/// lifetime is over.
pub open spec fn after_lookup(es: Seq<(Seq<char>, u64)>, key: Seq<char>, now: u64, ttl: u64) -> Seq<
    (Seq<char>, u64),
> {
    let r = reclaimed(es, now, ttl, RECLAIM_LIMIT as nat);
    let i = entry_index(r, key, 0);
    if 0 <= i < r.len() && expired(r[i].1, now, ttl) {
        r.remove(i)
    } else {
        r
    }
}

/// The first of the entries with the earliest time.
pub open spec fn oldest(es: Seq<(Seq<char>, u64)>) -> int
    decreases es.len(),
{
    if es.len() <= 1 {
        0
    } else {
        let o = oldest(es.drop_last());
        if es.last().1 < es[o].1 {
            es.len() - 1
        } else {
            o
        }
    }
}

/// The entries without the `n` oldest.
pub open spec fn drained(es: Seq<(Seq<char>, u64)>, n: nat) -> Seq<(Seq<char>, u64)>
    decreases n,
{
    if n == 0 || es.len() == 0 {
        es
    } else {
        drained(es.remove(oldest(es)), (n - 1) as nat)
    }
}

/// How many entries make room for one: an eighth of the capacity, at least one.
pub open spec fn drain_count(capacity: usize) -> nat {
    if capacity / 8 < 1 {
        1
    } else {
        (capacity / 8) as nat
    }
}

/// The entries after an insertion.
pub open spec fn after_insert(
    es: Seq<(Seq<char>, u64)>,
    capacity: usize,
    key: Seq<char>,
    at: u64,
) -> Seq<(Seq<char>, u64)> {
    if has_key(es, key) {
        es
    } else if es.len() >= capacity {
        drained(es, drain_count(capacity)).push((key, at))
    } else {
        es.push((key, at))
    }
}

/// Whether no key is there twice.
pub open spec fn keys_unique(es: Seq<(Seq<char>, u64)>) -> bool {
    forall|i: int, j: int|
        0 <= i < j < es.len() ==> (#[trigger] es[i]).0 != (#[trigger] es[j]).0
}

proof fn lemma_entry_index(es: Seq<(Seq<char>, u64)>, key: Seq<char>, from: int)
    requires
        0 <= from <= es.len(),
    ensures
        from <= entry_index(es, key, from) <= es.len(),
        entry_index(es, key, from) < es.len() ==> es[entry_index(es, key, from)].0 == key,
        forall|k: int| from <= k < entry_index(es, key, from) ==> (#[trigger] es[k]).0 != key,
    decreases es.len() - from,
{
    if from < es.len() && es[from].0 != key {
        lemma_entry_index(es, key, from + 1);
    }
}

proof fn lemma_oldest(es: Seq<(Seq<char>, u64)>)
    requires
        es.len() > 0,
    ensures
        0 <= oldest(es) < es.len(),
        forall|i: int| 0 <= i < es.len() ==> es[oldest(es)].1 <= (#[trigger] es[i]).1,
    decreases es.len(),
{
    if es.len() > 1 {
        let d = es.drop_last();
        lemma_oldest(d);
        assert forall|i: int| 0 <= i < es.len() implies es[oldest(es)].1 <= (#[trigger] es[i]).1 by {
            if i < d.len() {
                assert(d[i] == es[i]);
            }
            assert(d[oldest(d)] == es[oldest(d)]);
        }
    }
}

proof fn lemma_reclaimed(es: Seq<(Seq<char>, u64)>, now: u64, ttl: u64, budget: nat)
    requires
        keys_unique(es),
    ensures
        keys_unique(reclaimed(es, now, ttl, budget)),
        reclaimed(es, now, ttl, budget).len() <= es.len(),
        forall|i: int|
            0 <= i < reclaimed(es, now, ttl, budget).len() ==> es.contains(
                #[trigger] reclaimed(es, now, ttl, budget)[i],
            ),
        forall|i: int|
            0 <= i < es.len() && !expired((#[trigger] es[i]).1, now, ttl) ==> reclaimed(
                es,
                now,
                ttl,
                budget,
            ).contains(es[i]),
    decreases es.len(),
{
    if es.len() > 0 {
        let t = es.skip(1);
        assert forall|i: int, j: int| 0 <= i < j < t.len() implies (#[trigger] t[i]).0 != (
        #[trigger] t[j]).0 by {
            assert(t[i] == es[i + 1] && t[j] == es[j + 1]);
        }
        let r = reclaimed(es, now, ttl, budget);
        if budget > 0 && expired(es[0].1, now, ttl) {
            lemma_reclaimed(t, now, ttl, (budget - 1) as nat);
            assert forall|i: int| 0 <= i < r.len() implies es.contains(#[trigger] r[i]) by {
                let k = choose|k: int| 0 <= k < t.len() && t[k] == r[i];
                assert(es[k + 1] == r[i]);
            }
            assert forall|i: int|
                0 <= i < es.len() && !expired((#[trigger] es[i]).1, now, ttl) implies r.contains(
                es[i],
            ) by {
                assert(t[i - 1] == es[i]);
            }
        } else {
            lemma_reclaimed(t, now, ttl, budget);
            let s = reclaimed(t, now, ttl, budget);
            assert(r == seq![es[0]] + s);
            assert forall|i: int| 0 <= i < r.len() implies es.contains(#[trigger] r[i]) by {
                if i == 0 {
                    assert(es[0] == r[0]);
                } else {
                    assert(r[i] == s[i - 1]);
                    let k = choose|k: int| 0 <= k < t.len() && t[k] == s[i - 1];
                    assert(es[k + 1] == r[i]);
                }
            }
            assert forall|i: int|
                0 <= i < es.len() && !expired((#[trigger] es[i]).1, now, ttl) implies r.contains(
                es[i],
            ) by {
                if i == 0 {
                    assert(r[0] == es[0]);
                } else {
                    assert(t[i - 1] == es[i]);
                    let k = choose|k: int| 0 <= k < s.len() && s[k] == t[i - 1];
                    assert(r[k + 1] == es[i]);
                }
            }
            assert forall|i: int, j: int| 0 <= i < j < r.len() implies (#[trigger] r[i]).0 != (
            #[trigger] r[j]).0 by {
                assert(r[j] == s[j - 1]);
                if i == 0 {
                    let k = choose|k: int| 0 <= k < t.len() && t[k] == s[j - 1];
                    assert(es[k + 1] == r[j]);
                    assert(es[0].0 != es[k + 1].0);
                } else {
                    assert(r[i] == s[i - 1]);
                }
            }
        }
    }
}

proof fn lemma_remove_unique(es: Seq<(Seq<char>, u64)>, at: int)
    requires
        keys_unique(es),
        0 <= at < es.len(),
    ensures
        keys_unique(es.remove(at)),
{
    let r = es.remove(at);
    assert forall|i: int, j: int| 0 <= i < j < r.len() implies (#[trigger] r[i]).0 != (
    #[trigger] r[j]).0 by {
        let i2 = if i < at { i } else { i + 1 };
        let j2 = if j < at { j } else { j + 1 };
        assert(r[i] == es[i2] && r[j] == es[j2]);
    }
}

proof fn lemma_drained(es: Seq<(Seq<char>, u64)>, n: nat)
    requires
        keys_unique(es),
    ensures
        keys_unique(drained(es, n)),
        drained(es, n).len() == (if es.len() <= n {
            0
        } else {
            es.len() - n
        }),
        forall|i: int|
            0 <= i < drained(es, n).len() ==> es.contains(#[trigger] drained(es, n)[i]),
    decreases n,
{
    if n > 0 && es.len() > 0 {
        let o = oldest(es);
        lemma_oldest(es);
        lemma_remove_unique(es, o);
        lemma_drained(es.remove(o), (n - 1) as nat);
        let d = drained(es, n);
        assert forall|i: int| 0 <= i < d.len() implies es.contains(#[trigger] d[i]) by {
            let k = choose|k: int| 0 <= k < es.remove(o).len() && es.remove(o)[k] == d[i];
            let k2 = if k < o { k } else { k + 1 };
            assert(es[k2] == d[i]);
        }
    } else {
        assert forall|i: int| 0 <= i < es.len() implies es.contains(#[trigger] es[i]) by {}
    }
}

/// A look-up finds a key exactly when it is there and its lifetime is not over,
/// however many old keys the look-up forgets.
pub proof fn lookups_see_live_keys(es: Seq<(Seq<char>, u64)>, key: Seq<char>, now: u64, ttl: u64)
    requires
        keys_unique(es),
    ensures
        ({
            let r = reclaimed(es, now, ttl, RECLAIM_LIMIT as nat);
            let i = entry_index(r, key, 0);
            (0 <= i < r.len() && !expired(r[i].1, now, ttl)) <==> is_live(es, key, now, ttl)
        }),
        keys_unique(after_lookup(es, key, now, ttl)),
        after_lookup(es, key, now, ttl).len() <= es.len(),
{
    let r = reclaimed(es, now, ttl, RECLAIM_LIMIT as nat);
    let i = entry_index(r, key, 0);
    lemma_reclaimed(es, now, ttl, RECLAIM_LIMIT as nat);
    lemma_entry_index(r, key, 0);
    if i < r.len() {
        assert(es.contains(r[i]));
        let k = choose|k: int| 0 <= k < es.len() && es[k] == r[i];
        assert(es[k].0 == key);
        if expired(r[i].1, now, ttl) {
            lemma_remove_unique(r, i);
        }
        if is_live(es, key, now, ttl) {
            let m = choose|m: int|
                0 <= m < es.len() && (#[trigger] es[m]).0 == key && !expired(es[m].1, now, ttl);
            if m < k {
                assert(es[m].0 != es[k].0);
            } else if k < m {
                assert(es[k].0 != es[m].0);
            }
        }
    } else if is_live(es, key, now, ttl) {
        let m = choose|m: int|
            0 <= m < es.len() && (#[trigger] es[m]).0 == key && !expired(es[m].1, now, ttl);
        assert(r.contains(es[m]));
        let k = choose|k: int| 0 <= k < r.len() && r[k] == es[m];
        assert(r[k].0 != key);
    }
}

/// The number of keys stays within the capacity, or one where that is zero.
pub proof fn insertions_keep_the_bound(
    es: Seq<(Seq<char>, u64)>,
    capacity: usize,
    key: Seq<char>,
    at: u64,
)
    requires
        keys_unique(es),
        es.len() <= capacity || es.len() <= 1,
    ensures
        after_insert(es, capacity, key, at).len() <= capacity || after_insert(
            es,
            capacity,
            key,
            at,
        ).len() <= 1,
        keys_unique(after_insert(es, capacity, key, at)),
        has_key(after_insert(es, capacity, key, at), key),
{
    let a = after_insert(es, capacity, key, at);
    if !has_key(es, key) {
        lemma_drained(es, drain_count(capacity));
        let kept = if es.len() >= capacity { drained(es, drain_count(capacity)) } else { es };
        assert(a == kept.push((key, at)));
        assert(a[a.len() - 1].0 == key);
        assert forall|i: int, j: int| 0 <= i < j < a.len() implies (#[trigger] a[i]).0 != (
        #[trigger] a[j]).0 by {
            if j == a.len() - 1 {
                assert(a[i] == kept[i]);
                assert(es.contains(kept[i]));
                let k = choose|k: int| 0 <= k < es.len() && es[k] == kept[i];
                assert(es[k].0 == a[i].0);
            } else {
                assert(a[i] == kept[i] && a[j] == kept[j]);
            }
        }
    }
}

/// What makes room is at least as old as what stays.
pub proof fn the_oldest_make_room(es: Seq<(Seq<char>, u64)>)
    requires
        es.len() > 0,
    ensures
        0 <= oldest(es) < es.len(),
        forall|i: int| 0 <= i < es.len() ==> es[oldest(es)].1 <= (#[trigger] es[i]).1,
        drained(es, 1) == es.remove(oldest(es)),
{
    lemma_oldest(es);
    assert(drained(es.remove(oldest(es)), 0) == es.remove(oldest(es)));
}

spec fn raw_view(es: Seq<CacheEntry>) -> Seq<(Seq<char>, u64)> {
    es.map_values(|e: CacheEntry| (e.key@, e.at))
}

impl IdempotencyCache {
    /// The keys with their times, in the order of insertion.
    pub closed spec fn view(&self) -> Seq<(Seq<char>, u64)> {
        raw_view(self.entries@)
    }

    /// The most keys that are kept.
    pub closed spec fn limit(&self) -> usize {
        self.capacity
    }

    /// The lifetime of a key.
    pub closed spec fn lifetime(&self) -> u64 {
        self.ttl
    }

    /// No key is there twice.
    pub open spec fn wf(&self) -> bool {
        keys_unique(self.view())
    }

    /// A cache without keys.
    pub fn new(capacity: usize, ttl: u64) -> (r: Self)
        ensures
            r.wf(),
            r.view() == Seq::<(Seq<char>, u64)>::empty(),
            r.limit() == capacity,
            r.lifetime() == ttl,
    {
        let r = IdempotencyCache { entries: Vec::new(), capacity, ttl };
        assert(r.view() =~= Seq::<(Seq<char>, u64)>::empty());
        r
    }

    /// The number of keys.
    pub fn len(&self) -> (r: usize)
        ensures
            r == self.view().len(),
    {
        self.entries.len()
    }

    /// Whether there is no key.
    pub fn is_empty(&self) -> (r: bool)
        ensures
            r == (self.view().len() == 0),
    {
        self.entries.len() == 0
    }

    fn find(&self, key: &str) -> (r: usize)
        ensures
            r == entry_index(self.view(), key@, 0),
            r <= self.entries@.len(),
            r < self.entries@.len() ==> self.entries@[r as int].key@ == key@,
            (r < self.entries@.len()) == has_key(self.view(), key@),
    {
        let ghost es = self.view();
        let mut i: usize = 0;
        while i < self.entries.len() && !same(self.entries[i].key.as_str(), key)
            invariant
                i <= self.entries@.len(),
                es == self.view(),
                entry_index(es, key@, i as int) == entry_index(es, key@, 0),
                forall|k: int| 0 <= k < i ==> (#[trigger] es[k]).0 != key@,
            decreases self.entries@.len() - i,
        {
            assert(es[i as int].0 == self.entries@[i as int].key@);
            i = i + 1;
        }
        if i < self.entries.len() {
            assert(es[i as int].0 == key@);
        }
        i
    }

    fn reclaim(&mut self, now: u64)
        ensures
            final(self).view() == reclaimed(
                old(self).view(),
                now,
                old(self).lifetime(),
                RECLAIM_LIMIT as nat,
            ),
            final(self).limit() == old(self).limit(),
            final(self).lifetime() == old(self).lifetime(),
    {
        let ghost es = self.view();
        let mut kept: Vec<CacheEntry> = Vec::new();
        let mut budget: usize = RECLAIM_LIMIT;
        let mut i: usize = 0;
        assert(es.skip(0) =~= es);
        assert(raw_view(kept@) + reclaimed(es, now, self.ttl, budget as nat) =~= reclaimed(
            es,
            now,
            self.ttl,
            RECLAIM_LIMIT as nat,
        ));
        while i < self.entries.len()
            invariant
                i <= self.entries@.len(),
                es == raw_view(self.entries@),
                budget <= RECLAIM_LIMIT,
                raw_view(kept@) + reclaimed(es.skip(i as int), now, self.ttl, budget as nat)
                    == reclaimed(es, now, self.ttl, RECLAIM_LIMIT as nat),
            decreases self.entries@.len() - i,
        {
            let e = &self.entries[i];
            let ghost rest = es.skip(i as int);
            let ghost k0 = raw_view(kept@);
            assert(rest[0] == (e.key@, e.at));
            assert(rest.skip(1) =~= es.skip(i as int + 1));
            let old: u64 = if now < e.at {
                0
            } else {
                now - e.at
            };
            if budget > 0 && old >= self.ttl {
                budget = budget - 1;
            } else {
                kept.push(CacheEntry { key: e.key.clone(), at: e.at });
                proof {
                    assert(raw_view(kept@) =~= k0.push(rest[0]));
                    assert(k0.push(rest[0]) + reclaimed(rest.skip(1), now, self.ttl, budget as nat)
                        =~= k0 + (seq![rest[0]] + reclaimed(
                        rest.skip(1),
                        now,
                        self.ttl,
                        budget as nat,
                    )));
                }
            }
            i = i + 1;
        }
        assert(raw_view(kept@) =~= reclaimed(es, now, self.ttl, RECLAIM_LIMIT as nat)) by {
            assert(es.skip(es.len() as int).len() == 0);
        }
        self.entries = kept;
    }

    /// Whether a key was inserted and its lifetime is not over. Forgets old
    /// keys on the way.
    pub fn contains_with_ttl_reclaim(&mut self, key: &str, now: u64) -> (r: bool)
        requires
            old(self).wf(),
        ensures
            final(self).wf(),
            final(self).limit() == old(self).limit(),
            final(self).lifetime() == old(self).lifetime(),
            final(self).view() == after_lookup(old(self).view(), key@, now, old(self).lifetime()),
            r == is_live(old(self).view(), key@, now, old(self).lifetime()),
    {
        proof {
            lookups_see_live_keys(self.view(), key@, now, self.lifetime());
        }
        self.reclaim(now);
        let ghost es = self.view();
        let i: usize = self.find(key);
        if i < self.entries.len() {
            assert(es[i as int] == (self.entries@[i as int].key@, self.entries@[i as int].at));
            let at: u64 = self.entries[i].at;
            let old: u64 = if now < at {
                0
            } else {
                now - at
            };
            if old >= self.ttl {
                let _ = self.entries.remove(i);
                assert(self.view() =~= es.remove(i as int));
                return false;
            }
            true
        } else {
            false
        }
    }

    fn drop_oldest(&mut self)
        requires
            old(self).view().len() > 0,
        ensures
            final(self).view() == old(self).view().remove(oldest(old(self).view())),
            final(self).limit() == old(self).limit(),
            final(self).lifetime() == old(self).lifetime(),
    {
        let ghost es = self.view();
        let mut o: usize = 0;
        let mut i: usize = 1;
        assert(es.take(1).len() == 1);
        while i < self.entries.len()
            invariant
                1 <= i <= self.entries@.len(),
                o < i,
                es == raw_view(self.entries@),
                o == oldest(es.take(i as int)),
            decreases self.entries@.len() - i,
        {
            proof {
                assert(es.take(i as int + 1).drop_last() =~= es.take(i as int));
                assert(es.take(i as int + 1).last() == es[i as int]);
                assert(es.take(i as int + 1)[o as int] == es[o as int]);
            }
            if self.entries[i].at < self.entries[o].at {
                o = i;
            }
            i = i + 1;
        }
        assert(es.take(es.len() as int) =~= es);
        let _ = self.entries.remove(o);
        assert(self.view() =~= es.remove(o as int));
    }

    /// Inserts a key, unless it is there. A full cache first forgets the
    /// oldest eighth of its capacity, at least one key. Says whether the key
    /// was inserted.
    pub fn insert(&mut self, key: String, at: u64) -> (r: bool)
        requires
            old(self).wf(),
        ensures
            final(self).wf(),
            final(self).limit() == old(self).limit(),
            final(self).lifetime() == old(self).lifetime(),
            final(self).view() == after_insert(old(self).view(), old(self).limit(), key@, at),
            r == !has_key(old(self).view(), key@),
    {
        let ghost es = self.view();
        let i: usize = self.find(key.as_str());
        if i < self.entries.len() {
            return false;
        }
        if self.entries.len() >= self.capacity {
            let mut n: usize = self.capacity / 8;
            if n < 1 {
                n = 1;
            }
            while n > 0 && self.entries.len() > 0
                invariant
                    drained(self.view(), n as nat) == drained(es, drain_count(old(self).limit())),
                    self.limit() == old(self).limit(),
                    self.lifetime() == old(self).lifetime(),
                decreases n,
            {
                self.drop_oldest();
                n = n - 1;
            }
        }
        let ghost kept = self.view();
        let ghost k = key@;
        self.entries.push(CacheEntry { key, at });
        proof {
            assert(self.view() =~= kept.push((k, at)));
            lemma_unique_after_insert(es, self.limit(), k, at);
        }
        true
    }

    /// Whether a key was handled already; if not, it is now.
    pub fn check_and_insert(&mut self, key: &str, now: u64) -> (r: bool)
        requires
            old(self).wf(),
        ensures
            final(self).wf(),
            final(self).limit() == old(self).limit(),
            final(self).lifetime() == old(self).lifetime(),
            r == is_live(old(self).view(), key@, now, old(self).lifetime()),
            final(self).view() == ({
                let l = after_lookup(old(self).view(), key@, now, old(self).lifetime());
                if r {
                    l
                } else {
                    after_insert(l, old(self).limit(), key@, now)
                }
            }),
    {
        if self.contains_with_ttl_reclaim(key, now) {
            return true;
        }
        let _ = self.insert(crate::text::owned(key), now);
        false
    }
}

proof fn lemma_unique_after_insert(
    es: Seq<(Seq<char>, u64)>,
    capacity: usize,
    key: Seq<char>,
    at: u64,
)
    requires
        keys_unique(es),
    ensures
        keys_unique(after_insert(es, capacity, key, at)),
{
    let a = after_insert(es, capacity, key, at);
    if !has_key(es, key) {
        lemma_drained(es, drain_count(capacity));
        let kept = if es.len() >= capacity { drained(es, drain_count(capacity)) } else { es };
        assert(a == kept.push((key, at)));
        assert forall|i: int, j: int| 0 <= i < j < a.len() implies (#[trigger] a[i]).0 != (
        #[trigger] a[j]).0 by {
            if j == a.len() - 1 {
                assert(a[i] == kept[i]);
                assert(es.contains(kept[i]));
                let k = choose|k: int| 0 <= k < es.len() && es[k] == kept[i];
                assert(es[k].0 == a[i].0);
            } else {
                assert(a[i] == kept[i] && a[j] == kept[j]);
            }
        }
    }
}

/// A key that was just handled is recognised as long as its lifetime lasts.
pub proof fn handled_keys_are_recognised(
    es: Seq<(Seq<char>, u64)>,
    capacity: usize,
    key: Seq<char>,
    at: u64,
    now: u64,
    ttl: u64,
)
    requires
        !has_key(es, key),
        age(at, now) < ttl,
    ensures
        is_live(after_insert(es, capacity, key, at), key, now, ttl),
{
    let a = after_insert(es, capacity, key, at);
    assert(a[a.len() - 1] == (key, at));
}

/// A key is live for its lifetime from the moment at which it was handled, and
/// no longer.
pub proof fn keys_live_for_their_time(
    es: Seq<(Seq<char>, u64)>,
    i: int,
    now: u64,
    ttl: u64,
)
    requires
        keys_unique(es),
        ttl > 0,
        0 <= i < es.len(),
    ensures
        is_live(es, es[i].0, now, ttl) <==> now - es[i].1 < ttl,
{
    if is_live(es, es[i].0, now, ttl) {
        let k = choose|k: int|
            0 <= k < es.len() && (#[trigger] es[k]).0 == es[i].0 && !expired(es[k].1, now, ttl);
        if k < i {
            assert(es[k].0 != es[i].0);
        } else if i < k {
            assert(es[i].0 != es[k].0);
        }
    }
    if now - es[i].1 < ttl {
        assert(!expired(es[i].1, now, ttl));
    }
}

/// A key that was never handled is not live.
pub proof fn unknown_keys_are_not_live(
    es: Seq<(Seq<char>, u64)>,
    key: Seq<char>,
    now: u64,
    ttl: u64,
)
    requires
        forall|i: int| 0 <= i < es.len() ==> (#[trigger] es[i]).0 != key,
    ensures
        !is_live(es, key, now, ttl),
{
}

proof fn lemma_reclaimed_keeps(
    es: Seq<(Seq<char>, u64)>,
    now: u64,
    ttl: u64,
    budget: nat,
    i: int,
)
    requires
        0 <= i < es.len(),
    ensures
        now - es[i].1 < ttl && ttl > 0 ==> reclaimed(es, now, ttl, budget).contains(es[i]),
        es.len() - reclaimed(es, now, ttl, budget).len() <= budget,
    decreases es.len(),
{
    let rest = es.skip(1);
    let r = reclaimed(es, now, ttl, budget);
    if budget > 0 && expired(es[0].1, now, ttl) {
        if rest.len() > 0 {
            lemma_reclaimed_keeps(rest, now, ttl, (budget - 1) as nat, if i > 0 { i - 1 } else { 0 });
        }
        if i > 0 {
            assert(rest[i - 1] == es[i]);
        }
    } else {
        let below = reclaimed(rest, now, ttl, budget);
        if rest.len() > 0 {
            lemma_reclaimed_keeps(rest, now, ttl, budget, if i > 0 { i - 1 } else { 0 });
        }
        if i > 0 {
            assert(rest[i - 1] == es[i]);
            if below.contains(es[i]) {
                let k = choose|k: int| 0 <= k < below.len() && below[k] == es[i];
                assert(r[k + 1] == es[i]);
            }
        } else {
            assert(r[0] == es[0]);
        }
    }
}

/// Looking for a key forgets no key that is live.
pub proof fn lookups_forget_nothing_live(
    es: Seq<(Seq<char>, u64)>,
    key: Seq<char>,
    now: u64,
    ttl: u64,
    i: int,
)
    requires
        0 <= i < es.len(),
        ttl > 0,
        now - es[i].1 < ttl,
    ensures
        after_lookup(es, key, now, ttl).contains(es[i]),
{
    lemma_reclaimed_keeps(es, now, ttl, RECLAIM_LIMIT as nat, i);
    let r = reclaimed(es, now, ttl, RECLAIM_LIMIT as nat);
    let n = entry_index(r, key, 0);
    let k = choose|k: int| 0 <= k < r.len() && r[k] == es[i];
    if 0 <= n < r.len() && expired(r[n].1, now, ttl) {
        let a = r.remove(n);
        assert(a[if k < n { k } else { k - 1 }] == es[i]);
    }
}

/// While there is room, a new key is added behind the others, with the moment at
/// which it was handled, and nothing is forgotten.
pub proof fn new_keys_are_added(
    es: Seq<(Seq<char>, u64)>,
    capacity: usize,
    key: Seq<char>,
    at: u64,
)
    requires
        forall|i: int| 0 <= i < es.len() ==> (#[trigger] es[i]).0 != key,
    ensures
        es.len() < capacity ==> after_insert(es, capacity, key, at) == es.push((key, at)),
        after_insert(es, capacity, key, at).len() > 0,
        after_insert(es, capacity, key, at).last() == (key, at),
{
}

/// A key that is known keeps the moment at which it was handled first.
pub proof fn known_keys_keep_their_time(
    es: Seq<(Seq<char>, u64)>,
    capacity: usize,
    i: int,
    at: u64,
)
    requires
        0 <= i < es.len(),
    ensures
        after_insert(es, capacity, es[i].0, at) == es,
{
    assert(has_key(es, es[i].0));
}

proof fn lemma_drained_len(es: Seq<(Seq<char>, u64)>, n: nat)
    ensures
        drained(es, n).len() == (if es.len() >= n {
            es.len() - n
        } else {
            0
        }),
    decreases n,
{
    if n > 0 && es.len() > 0 {
        lemma_oldest(es);
        lemma_drained_len(es.remove(oldest(es)), (n - 1) as nat);
    }
}

/// Where there is no room, an eighth of the keys is forgotten, but at least one.
pub proof fn an_eighth_makes_room(
    es: Seq<(Seq<char>, u64)>,
    capacity: usize,
    key: Seq<char>,
    at: u64,
)
    requires
        es.len() == capacity,
        capacity > 0,
        forall|i: int| 0 <= i < es.len() ==> (#[trigger] es[i]).0 != key,
    ensures
        after_insert(es, capacity, key, at).len() == es.len() + 1 - (if capacity >= 8 {
            capacity / 8
        } else {
            1
        }),
{
    lemma_drained_len(es, drain_count(capacity));
}

proof fn lemma_reclaimed_adds_nothing(
    es: Seq<(Seq<char>, u64)>,
    now: u64,
    ttl: u64,
    budget: nat,
    i: int,
)
    requires
        0 <= i < reclaimed(es, now, ttl, budget).len(),
    ensures
        es.contains(reclaimed(es, now, ttl, budget)[i]),
    decreases es.len(),
{
    if es.len() > 0 {
        let rest = es.skip(1);
        let all = reclaimed(es, now, ttl, budget);
        if budget > 0 && expired(es[0].1, now, ttl) {
            lemma_reclaimed_adds_nothing(rest, now, ttl, (budget - 1) as nat, i);
            let k = choose|k: int| 0 <= k < rest.len() && rest[k] == all[i];
            assert(es[k + 1] == all[i]);
        } else if i > 0 {
            lemma_reclaimed_adds_nothing(rest, now, ttl, budget, i - 1);
            let k = choose|k: int| 0 <= k < rest.len() && rest[k] == all[i];
            assert(es[k + 1] == all[i]);
        } else {
            assert(es[0] == all[0]);
        }
    }
}

/// To look for a key adds nothing.
pub proof fn lookups_add_nothing(
    es: Seq<(Seq<char>, u64)>,
    key: Seq<char>,
    now: u64,
    ttl: u64,
    i: int,
)
    requires
        0 <= i < after_lookup(es, key, now, ttl).len(),
    ensures
        es.contains(after_lookup(es, key, now, ttl)[i]),
{
    let r = reclaimed(es, now, ttl, RECLAIM_LIMIT as nat);
    let k = entry_index(r, key, 0);
    if 0 <= k < r.len() && expired(r[k].1, now, ttl) {
        if i < k {
            lemma_reclaimed_adds_nothing(es, now, ttl, RECLAIM_LIMIT as nat, i);
        } else {
            lemma_reclaimed_adds_nothing(es, now, ttl, RECLAIM_LIMIT as nat, i + 1);
        }
    } else {
        lemma_reclaimed_adds_nothing(es, now, ttl, RECLAIM_LIMIT as nat, i);
    }
}

} // verus!
