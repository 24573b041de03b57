//! Entries of a table or an object: values by key.
//!
//! The model of a table is the sequence of its entries, in key order. `lookup`,
//! `put` and `without` say what reading, writing and deleting a key mean.

use vstd::prelude::*;

use crate::text::{text_lt, text_lt_irreflexive, text_lt_total, text_lt_transitive};

verus! {

/// The first position of a key at or after `from`, or the length.
pub open spec fn key_index<V>(t: Seq<(Seq<char>, V)>, key: Seq<char>, from: int) -> int
    decreases t.len() - from,
{
    if from < 0 || from >= t.len() {
        t.len() as int
    } else if t[from].0 == key {
        from
    } else {
        key_index(t, key, from + 1)
    }
}

pub proof fn lemma_key_index<V>(t: Seq<(Seq<char>, V)>, key: Seq<char>, from: int)
    requires
        0 <= from <= t.len(),
    ensures
        from <= key_index(t, key, from) <= t.len(),
        key_index(t, key, from) < t.len() ==> t[key_index(t, key, from)].0 == key,
        forall|k: int| from <= k < key_index(t, key, from) ==> t[k].0 != key,
    decreases t.len() - from,
{
    if from < t.len() && t[from].0 != key {
        lemma_key_index(t, key, from + 1);
    }
}

/// A position with the key, before which no other has it, is its index.
pub proof fn lemma_key_index_is<V>(t: Seq<(Seq<char>, V)>, key: Seq<char>, at: int)
    requires
        0 <= at <= t.len(),
        at < t.len() ==> t[at].0 == key,
        forall|k: int| 0 <= k < at ==> t[k].0 != key,
    ensures
        key_index(t, key, 0) == at,
{
    lemma_key_index(t, key, 0);
    let i = key_index(t, key, 0);
    if i < at {
        assert(t[i].0 == key);
    }
}

/// The value of a key among entries.
pub open spec fn lookup<V>(t: Seq<(Seq<char>, V)>, key: Seq<char>) -> Option<V> {
    let i = key_index(t, key, 0);
    if 0 <= i < t.len() {
        Some(t[i].1)
    } else {
        None
    }
}

/// The first position at or after `from` whose key comes after `key`.
pub open spec fn slot<V>(t: Seq<(Seq<char>, V)>, key: Seq<char>, from: int) -> int
    decreases t.len() - from,
{
    if from < 0 || from >= t.len() {
        t.len() as int
    } else if text_lt(key, t[from].0) {
        from
    } else {
        slot(t, key, from + 1)
    }
}

pub proof fn lemma_slot<V>(t: Seq<(Seq<char>, V)>, key: Seq<char>, from: int)
    requires
        0 <= from <= t.len(),
    ensures
        from <= slot(t, key, from) <= t.len(),
        slot(t, key, from) < t.len() ==> text_lt(key, t[slot(t, key, from)].0),
        forall|k: int| from <= k < slot(t, key, from) ==> !text_lt(key, #[trigger] t[k].0),
    decreases t.len() - from,
{
    if from < t.len() && !text_lt(key, t[from].0) {
        lemma_slot(t, key, from + 1);
    }
}

/// The entries in which `key` has the value `value` and nothing else changed.
pub open spec fn put<V>(
    t: Seq<(Seq<char>, V)>,
    key: Seq<char>,
    value: V,
) -> Seq<(Seq<char>, V)> {
    let i = key_index(t, key, 0);
    if 0 <= i < t.len() {
        t.update(i, (key, value))
    } else {
        t.insert(slot(t, key, 0), (key, value))
    }
}

/// The entries without `key`.
pub open spec fn without<V>(t: Seq<(Seq<char>, V)>, key: Seq<char>) -> Seq<
    (Seq<char>, V),
> {
    let i = key_index(t, key, 0);
    if 0 <= i < t.len() {
        t.remove(i)
    } else {
        t
    }
}

/// Whether the keys of entries stand in strict order.
pub open spec fn in_key_order<V>(t: Seq<(Seq<char>, V)>) -> bool {
    forall|i: int, j: int| 0 <= i < j < t.len() ==> text_lt(#[trigger] t[i].0, #[trigger] t[j].0)
}

/// A key reads back what was put there, and every other key reads as before.
pub proof fn lookup_after_put<V>(
    t: Seq<(Seq<char>, V)>,
    key: Seq<char>,
    value: V,
    other: Seq<char>,
)
    ensures
        lookup(put(t, key, value), key) == Some(value),
        other != key ==> lookup(put(t, key, value), other) == lookup(t, other),
{
    let r = put(t, key, value);
    lemma_key_index(t, key, 0);
    lemma_slot(t, key, 0);
    lemma_key_index(t, other, 0);
    let i = key_index(t, key, 0);
    if i < t.len() {
        lemma_key_index_is(r, key, i);
        if other != key {
            lemma_key_index_is(r, other, key_index(t, other, 0));
        }
    } else {
        let s = slot(t, key, 0);
        lemma_key_index_is(r, key, s);
        if other != key {
            let o = key_index(t, other, 0);
            let at = if o < s { o } else { o + 1 };
            lemma_key_index_is(r, other, at);
        }
    }
}

/// Among entries in key order a deleted key is gone, and every other key reads as
/// before.
pub proof fn lookup_after_without<V>(t: Seq<(Seq<char>, V)>, key: Seq<char>, other: Seq<char>)
    requires
        in_key_order(t),
    ensures
        lookup(without(t, key), key) is None,
        other != key ==> lookup(without(t, key), other) == lookup(t, other),
{
    let r = without(t, key);
    lemma_key_index(t, key, 0);
    lemma_key_index(t, other, 0);
    let i = key_index(t, key, 0);
    if i < t.len() {
        assert forall|k: int| 0 <= k < r.len() implies r[k].0 != key by {
            if k >= i {
                assert(r[k] == t[k + 1]);
                text_lt_irreflexive(key);
                assert(text_lt(t[i].0, t[k + 1].0));
            }
        }
        lemma_key_index_is(r, key, r.len() as int);
        if other != key {
            let o = key_index(t, other, 0);
            let at = if o < i { o } else { o - 1 };
            lemma_key_index_is(r, other, at);
        }
    }
}

/// Deleting a key keeps entries in key order.
pub proof fn without_keeps_order<V>(t: Seq<(Seq<char>, V)>, key: Seq<char>)
    requires
        in_key_order(t),
    ensures
        in_key_order(without(t, key)),
{
    lemma_key_index(t, key, 0);
    let n = key_index(t, key, 0);
    let r = without(t, key);
    assert forall|i: int, j: int| 0 <= i < j < r.len() implies text_lt(
        #[trigger] r[i].0,
        #[trigger] r[j].0,
    ) by {
        if n < t.len() {
            let i2 = if i < n { i } else { i + 1 };
            let j2 = if j < n { j } else { j + 1 };
            assert(r[i] == t[i2] && r[j] == t[j2]);
        }
    }
}

/// Putting a key keeps entries in key order.
pub proof fn put_keeps_order<V>(t: Seq<(Seq<char>, V)>, key: Seq<char>, value: V)
    requires
        in_key_order(t),
    ensures
        in_key_order(put(t, key, value)),
{
    let r = put(t, key, value);
    lemma_key_index(t, key, 0);
    lemma_slot(t, key, 0);
    let n = key_index(t, key, 0);
    if n < t.len() {
        assert forall|i: int, j: int| 0 <= i < j < r.len() implies text_lt(
            #[trigger] r[i].0,
            #[trigger] r[j].0,
        ) by {
            assert(r[i].0 == t[i].0 && r[j].0 == t[j].0);
        }
    } else {
        let s = slot(t, key, 0);
        assert forall|i: int, j: int| 0 <= i < j < r.len() implies text_lt(
            #[trigger] r[i].0,
            #[trigger] r[j].0,
        ) by {
            if j < s {
                assert(r[i] == t[i] && r[j] == t[j]);
            } else if j == s {
                assert(r[i] == t[i]);
                text_lt_total(t[i].0, key);
            } else if i < s {
                assert(r[i] == t[i] && r[j] == t[j - 1]);
                assert(text_lt(t[i].0, t[j - 1].0));
            } else if i == s {
                assert(r[j] == t[j - 1]);
                if j - 1 > s {
                    text_lt_transitive(key, t[s].0, t[j - 1].0);
                }
            } else {
                assert(r[i] == t[i - 1] && r[j] == t[j - 1]);
            }
        }
    }
}

/// The order in which two different keys are put does not matter.
pub proof fn puts_commute<V>(
    t: Seq<(Seq<char>, V)>,
    a: Seq<char>,
    x: V,
    b: Seq<char>,
    y: V,
)
    requires
        in_key_order(t),
        a != b,
    ensures
        put(put(t, a, x), b, y) == put(put(t, b, y), a, x),
{
    let l = put(put(t, a, x), b, y);
    let r = put(put(t, b, y), a, x);
    put_keeps_order(t, a, x);
    put_keeps_order(put(t, a, x), b, y);
    put_keeps_order(t, b, y);
    put_keeps_order(put(t, b, y), a, x);
    assert forall|k: Seq<char>| #[trigger] lookup(l, k) == lookup(r, k) by {
        lookup_after_put(t, a, x, k);
        lookup_after_put(put(t, a, x), b, y, k);
        lookup_after_put(t, b, y, k);
        lookup_after_put(put(t, b, y), a, x, k);
        lookup_after_put(t, a, x, a);
        lookup_after_put(t, b, y, b);
        lookup_after_put(put(t, a, x), b, y, a);
        lookup_after_put(put(t, b, y), a, x, b);
    }
    objects_with_equal_reads_are_equal(l, r);
}

/// Two lists of entries in key order in which every key reads the same are the
/// same.
pub proof fn objects_with_equal_reads_are_equal<V>(
    l: Seq<(Seq<char>, V)>,
    r: Seq<(Seq<char>, V)>,
)
    requires
        in_key_order(l),
        in_key_order(r),
        forall|k: Seq<char>| #[trigger] lookup(l, k) == lookup(r, k),
    ensures
        l == r,
    decreases l.len(),
{
    if l.len() == 0 {
        if r.len() > 0 {
            lemma_key_index_is(r, r[0].0, 0);
            lemma_key_index(l, r[0].0, 0);
            assert(lookup(l, r[0].0) == lookup(r, r[0].0));
        }
        assert(l =~= r);
    } else {
        let x = l.last();
        let n = l.len() - 1;
        lemma_unique_index(l, n);
        assert(lookup(l, x.0) == Some(x.1));
        assert(lookup(r, x.0) == Some(x.1));
        lemma_key_index(r, x.0, 0);
        let i = key_index(r, x.0, 0);
        let m = r.len() - 1;
        let y = r.last();
        lemma_unique_index(r, m);
        assert(lookup(r, y.0) == Some(y.1));
        assert(lookup(l, y.0) == Some(y.1));
        lemma_key_index(l, y.0, 0);
        let j = key_index(l, y.0, 0);
        assert(x.0 == y.0) by {
            text_lt_total(x.0, y.0);
            if i < m {
                assert(text_lt(r[i].0, r[m].0));
            }
            if j < n {
                assert(text_lt(l[j].0, l[n].0));
            }
        }
        assert(x == y);
        let l1 = l.drop_last();
        let r1 = r.drop_last();
        assert forall|p: int, q: int| 0 <= p < q < l1.len() implies text_lt(
            #[trigger] l1[p].0,
            #[trigger] l1[q].0,
        ) by {
            assert(l1[p] == l[p] && l1[q] == l[q]);
        }
        assert forall|p: int, q: int| 0 <= p < q < r1.len() implies text_lt(
            #[trigger] r1[p].0,
            #[trigger] r1[q].0,
        ) by {
            assert(r1[p] == r[p] && r1[q] == r[q]);
        }
        assert forall|k: Seq<char>| #[trigger] lookup(l1, k) == lookup(r1, k) by {
            assert(lookup(l, k) == lookup(r, k));
            lemma_lookup_drop_last(l, k);
            lemma_lookup_drop_last(r, k);
        }
        objects_with_equal_reads_are_equal(l1, r1);
        assert(l =~= l1.push(x));
        assert(r =~= r1.push(y));
    }
}

proof fn lemma_unique_index<V>(t: Seq<(Seq<char>, V)>, at: int)
    requires
        in_key_order(t),
        0 <= at < t.len(),
    ensures
        key_index(t, t[at].0, 0) == at,
{
    assert forall|k: int| 0 <= k < at implies t[k].0 != t[at].0 by {
        text_lt_irreflexive(t[at].0);
        assert(text_lt(t[k].0, t[at].0));
    }
    lemma_key_index_is(t, t[at].0, at);
}

proof fn lemma_lookup_drop_last<V>(t: Seq<(Seq<char>, V)>, key: Seq<char>)
    requires
        in_key_order(t),
        t.len() > 0,
    ensures
        lookup(t.drop_last(), key) == (if key == t.last().0 {
            None
        } else {
            lookup(t, key)
        }),
{
    let d = t.drop_last();
    lemma_key_index(d, key, 0);
    lemma_key_index(t, key, 0);
    let i = key_index(d, key, 0);
    if key == t.last().0 {
        if i < d.len() {
            assert(d[i] == t[i]);
            text_lt_irreflexive(key);
            assert(text_lt(t[i].0, t[t.len() - 1].0));
        }
    } else if i < d.len() {
        assert forall|k: int| 0 <= k < i implies t[k].0 != key by {
            assert(d[k] == t[k]);
        }
        assert(d[i] == t[i]);
        lemma_key_index_is(t, key, i);
    } else {
        assert forall|k: int| 0 <= k < t.len() implies t[k].0 != key by {
            if k < d.len() {
                assert(d[k] == t[k]);
            }
        }
        lemma_key_index_is(t, key, t.len() as int);
    }
}

/// Entries put one after the other: in key order, each key with its last value.
pub open spec fn put_all<V>(t: Seq<(Seq<char>, V)>) -> Seq<(Seq<char>, V)>
    decreases t.len(),
{
    if t.len() == 0 {
        Seq::empty()
    } else {
        put(put_all(t.drop_last()), t.last().0, t.last().1)
    }
}

/// Whether no key occurs twice.
pub open spec fn distinct_keys<V>(t: Seq<(Seq<char>, V)>) -> bool {
    forall|i: int, j: int| 0 <= i < j < t.len() ==> (#[trigger] t[i]).0 != (#[trigger] t[j]).0
}

/// Entries that were put one after the other stand in key order, and, where no
/// key occurs twice, every key reads as it did.
pub proof fn put_all_reads<V>(t: Seq<(Seq<char>, V)>, key: Seq<char>)
    ensures
        in_key_order(put_all(t)),
        distinct_keys(t) ==> lookup(put_all(t), key) == lookup(t, key),
    decreases t.len(),
{
    if t.len() > 0 {
        let d = t.drop_last();
        let n = t.len() - 1;
        put_all_reads(d, key);
        put_keeps_order(put_all(d), t.last().0, t.last().1);
        if distinct_keys(t) {
            assert forall|i: int, j: int| 0 <= i < j < d.len() implies (#[trigger] d[i]).0 != (
            #[trigger] d[j]).0 by {
                assert(t[i].0 != t[j].0);
            }
            lookup_after_put(put_all(d), t.last().0, t.last().1, key);
            lemma_key_index(d, key, 0);
            let i = key_index(d, key, 0);
            if key == t.last().0 {
                assert forall|k: int| 0 <= k < n implies t[k].0 != key by {
                    assert(t[k].0 != t[n].0);
                }
                lemma_key_index_is(t, key, n);
            } else if i < d.len() {
                assert forall|k: int| 0 <= k < i implies t[k].0 != key by {
                    assert(d[k].0 != key);
                }
                lemma_key_index_is(t, key, i);
            } else {
                assert forall|k: int| 0 <= k < t.len() implies t[k].0 != key by {
                    if k < n {
                        assert(d[k].0 != key);
                    }
                }
                lemma_key_index_is(t, key, t.len() as int);
            }
        }
    }
}

/// Where no key occurs twice, a key reads the value that stands beside it.
pub proof fn distinct_keys_read<V>(t: Seq<(Seq<char>, V)>, i: int)
    requires
        distinct_keys(t),
        0 <= i < t.len(),
    ensures
        lookup(t, t[i].0) == Some(t[i].1),
{
    assert forall|k: int| 0 <= k < i implies t[k].0 != t[i].0 by {}
    lemma_key_index_is(t, t[i].0, i);
}

} // verus!
