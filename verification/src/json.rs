//! JSON values.
//!
//! An object keeps its entries in key order. Its model is the sequence of its
//! entries; `lookup` and `put` say what reading and writing a key mean.

use vstd::prelude::*;

use crate::entries::{
    distinct_keys, distinct_keys_read, in_key_order, key_index, lemma_key_index,
    lemma_key_index_is, lookup, objects_with_equal_reads_are_equal, put, put_all, put_all_reads,
    slot,
};
use crate::text::{less, owned, same};

verus! {

/// A number of a JSON document.
#[derive(Debug, PartialEq, Eq)]
pub enum JsonNumber {
    Unsigned(u64),
    /// A negative integer.
    Signed(i64),
    /// Any other number, by the numeral that `serde_json` prints for it.
    Float(String),
}

/// The mathematical value of a [`JsonNumber`].
pub enum NumberView {
    Unsigned(u64),
    Signed(i64),
    Float(Seq<char>),
}

impl View for JsonNumber {
    type V = NumberView;

    open spec fn view(&self) -> NumberView {
        match *self {
            JsonNumber::Unsigned(n) => NumberView::Unsigned(n),
            JsonNumber::Signed(n) => NumberView::Signed(n),
            JsonNumber::Float(s) => NumberView::Float(s@),
        }
    }
}

impl JsonNumber {
    /// A copy of the number.
    pub fn duplicate(&self) -> (r: Self)
        ensures
            r@ == self@,
    {
        match self {
            JsonNumber::Unsigned(n) => JsonNumber::Unsigned(*n),
            JsonNumber::Signed(n) => JsonNumber::Signed(*n),
            JsonNumber::Float(s) => JsonNumber::Float(s.clone()),
        }
    }
}

/// A JSON value.
#[derive(Debug, PartialEq, Eq)]
pub enum JsonValue {
    Null,
    Text(String),
    Number(JsonNumber),
    Bool(bool),
    Array(Vec<JsonValue>),
    Object(Vec<JsonEntry>),
}

/// One key of an object with its value.
#[derive(Debug, PartialEq, Eq)]
pub struct JsonEntry {
    pub key: String,
    pub value: JsonValue,
}

/// The mathematical value of a [`JsonValue`].
pub enum JsonView {
    Null,
    Text(Seq<char>),
    Number(NumberView),
    Bool(bool),
    Array(Seq<JsonView>),
    Object(Seq<(Seq<char>, JsonView)>),
}

/// What a value stands for.
pub open spec fn json_view(v: JsonValue) -> JsonView
    decreases v,
{
    match v {
        JsonValue::Null => JsonView::Null,
        JsonValue::Text(s) => JsonView::Text(s@),
        JsonValue::Number(n) => JsonView::Number(n@),
        JsonValue::Bool(b) => JsonView::Bool(b),
        JsonValue::Array(a) => JsonView::Array(
            Seq::new(
                a@.len(),
                |i: int|
                    if 0 <= i < a@.len() {
                        json_view(a@[i])
                    } else {
                        JsonView::Bool(false)
                    },
            ),
        ),
        JsonValue::Object(es) => JsonView::Object(
            Seq::new(
                es@.len(),
                |i: int|
                    if 0 <= i < es@.len() {
                        (es@[i].key@, json_view(es@[i].value))
                    } else {
                        (Seq::empty(), JsonView::Bool(false))
                    },
            ),
        ),
    }
}

impl View for JsonValue {
    type V = JsonView;

    open spec fn view(&self) -> JsonView {
        json_view(*self)
    }
}

/// The entries of an object as key and value.
pub open spec fn entries_view(es: Seq<JsonEntry>) -> Seq<(Seq<char>, JsonView)> {
    es.map_values(|e: JsonEntry| (e.key@, e.value@))
}

/// The elements of an array.
pub open spec fn items_view(a: Seq<JsonValue>) -> Seq<JsonView> {
    a.map_values(|v: JsonValue| v@)
}

pub broadcast proof fn lemma_object_view(es: Vec<JsonEntry>)
    ensures
        #[trigger] json_view(JsonValue::Object(es)) == JsonView::Object(entries_view(es@)),
{
    match json_view(JsonValue::Object(es)) {
        JsonView::Object(s) => {
            assert(s =~= entries_view(es@));
        },
        _ => {},
    }
}

pub broadcast proof fn lemma_array_view(a: Vec<JsonValue>)
    ensures
        #[trigger] json_view(JsonValue::Array(a)) == JsonView::Array(items_view(a@)),
{
    match json_view(JsonValue::Array(a)) {
        JsonView::Array(s) => {
            assert(s =~= items_view(a@));
        },
        _ => {},
    }
}

/// The value of a key, where the value is an object that has it.
pub open spec fn get(v: JsonView, key: Seq<char>) -> Option<JsonView> {
    match v {
        JsonView::Object(t) => lookup(t, key),
        _ => None,
    }
}

/// The text of an optional value.
pub open spec fn text_in(v: Option<JsonView>) -> Option<Seq<char>> {
    match v {
        Some(JsonView::Text(s)) => Some(s),
        _ => None,
    }
}

/// The unsigned integer of an optional value.
pub open spec fn u64_in(v: Option<JsonView>) -> Option<u64> {
    match v {
        Some(JsonView::Number(NumberView::Unsigned(n))) => Some(n),
        _ => None,
    }
}

/// The flag of an optional value.
pub open spec fn bool_in(v: Option<JsonView>) -> Option<bool> {
    match v {
        Some(JsonView::Bool(b)) => Some(b),
        _ => None,
    }
}

/// The elements of an optional value, where it is an array.
pub open spec fn array_in(v: Option<JsonView>) -> Option<Seq<JsonView>> {
    match v {
        Some(JsonView::Array(a)) => Some(a),
        _ => None,
    }
}

/// The position of a key among the entries, or the number of entries.
pub fn position(es: &Vec<JsonEntry>, key: &str) -> (r: usize)
    ensures
        r == key_index(entries_view(es@), key@, 0),
        r <= es@.len(),
        r < es@.len() ==> es@[r as int].key@ == key@,
        lookup(entries_view(es@), key@) == (if r < es@.len() {
            Some(es@[r as int].value@)
        } else {
            None
        }),
{
    let ghost t = entries_view(es@);
    let mut i: usize = 0;
    while i < es.len()
        invariant_except_break
            i <= es@.len(),
            t == entries_view(es@),
            forall|k: int| 0 <= k < i ==> t[k].0 != key@,
        ensures
            i <= es@.len(),
            t == entries_view(es@),
            i < es@.len() ==> t[i as int].0 == key@,
            forall|k: int| 0 <= k < i ==> t[k].0 != key@,
        decreases es@.len() - i,
    {
        if same(es[i].key.as_str(), key) {
            break;
        }
        i = i + 1;
    }
    proof {
        lemma_key_index_is(t, key@, i as int);
    }
    i
}

/// Gives `key` the value `value`.
pub fn set_key(es: &mut Vec<JsonEntry>, key: &str, value: JsonValue)
    ensures
        entries_view(final(es)@) == put(entries_view(old(es)@), key@, value@),
{
    let ghost t = entries_view(es@);
    let i: usize = position(es, key);
    let entry = JsonEntry { key: owned(key), value };
    if i < es.len() {
        es[i] = entry;
        assert(entries_view(es@) =~= put(t, key@, value@));
    } else {
        let mut s: usize = 0;
        while s < es.len()
            invariant_except_break
                s <= es@.len(),
                t == entries_view(es@),
                slot(t, key@, s as int) == slot(t, key@, 0),
            ensures
                s <= es@.len(),
                t == entries_view(es@),
                slot(t, key@, 0) == s,
            decreases es@.len() - s,
        {
            assert(t[s as int].0 == es@[s as int].key@);
            if less(key, es[s].key.as_str()) {
                break;
            }
            s = s + 1;
        }
        es.insert(s, entry);
        assert(entries_view(es@) =~= put(t, key@, value@));
    }
}

/// The value of a key among the entries.
pub fn find<'a>(es: &'a Vec<JsonEntry>, key: &str) -> (r: Option<&'a JsonValue>)
    ensures
        match r {
            Some(v) => lookup(entries_view(es@), key@) == Some(v@),
            None => lookup(entries_view(es@), key@) is None,
        },
{
    let i: usize = position(es, key);
    if i < es.len() {
        Some(&es[i].value)
    } else {
        None
    }
}

impl JsonValue {
    /// The value of a key, where this is an object that has it.
    pub fn get(&self, key: &str) -> (r: Option<&JsonValue>)
        ensures
            match r {
                Some(v) => get(self@, key@) == Some(v@),
                None => get(self@, key@) is None,
            },
    {
        broadcast use lemma_object_view;

        match self {
            JsonValue::Object(es) => find(es, key),
            _ => None,
        }
    }

    /// The text, where this is one.
    pub fn as_str(&self) -> (r: Option<&str>)
        ensures
            match r {
                Some(s) => self@ == JsonView::Text(s@),
                None => !(self@ is Text),
            },
    {
        match self {
            JsonValue::Text(s) => Some(s.as_str()),
            _ => None,
        }
    }

    /// The unsigned integer, where this is one.
    pub fn as_u64(&self) -> (r: Option<u64>)
        ensures
            r == u64_in(Some(self@)),
    {
        match self {
            JsonValue::Number(JsonNumber::Unsigned(n)) => Some(*n),
            _ => None,
        }
    }

    /// The flag, where this is one.
    pub fn as_bool(&self) -> (r: Option<bool>)
        ensures
            match r {
                Some(b) => self@ == JsonView::Bool(b),
                None => !(self@ is Bool),
            },
    {
        match self {
            JsonValue::Bool(b) => Some(*b),
            _ => None,
        }
    }

    /// The elements, where this is an array.
    pub fn as_array(&self) -> (r: Option<&Vec<JsonValue>>)
        ensures
            match r {
                Some(a) => self@ == JsonView::Array(items_view(a@)) && *self == JsonValue::Array(*a),
                None => !(self@ is Array),
            },
    {
        broadcast use lemma_array_view;

        match self {
            JsonValue::Array(a) => Some(a),
            _ => None,
        }
    }

    /// The entries, where this is an object.
    pub fn as_object(&self) -> (r: Option<&Vec<JsonEntry>>)
        ensures
            match r {
                Some(t) => self@ == JsonView::Object(entries_view(t@)) && *self == JsonValue::Object(
                    *t,
                ),
                None => !(self@ is Object),
            },
    {
        broadcast use lemma_object_view;

        match self {
            JsonValue::Object(t) => Some(t),
            _ => None,
        }
    }

    /// A copy of the value.
    pub fn duplicate(&self) -> (r: JsonValue)
        ensures
            r@ == self@,
        decreases self,
    {
        broadcast use {lemma_object_view, lemma_array_view};

        match self {
            JsonValue::Null => JsonValue::Null,
            JsonValue::Text(s) => JsonValue::Text(s.clone()),
            JsonValue::Number(n) => JsonValue::Number(n.duplicate()),
            JsonValue::Bool(b) => JsonValue::Bool(*b),
            JsonValue::Array(a) => {
                let mut out: Vec<JsonValue> = Vec::new();
                let mut i: usize = 0;
                while i < a.len()
                    invariant
                        i <= a@.len(),
                        out@.len() == i,
                        forall|k: int| 0 <= k < i ==> out@[k]@ == a@[k]@,
                        decreases_to!(self => a),
                    decreases a@.len() - i,
                {
                    assert(decreases_to!(a => a@[i as int]));
                    let c = a[i].duplicate();
                    out.push(c);
                    i = i + 1;
                }
                assert(items_view(out@) =~= items_view(a@));
                JsonValue::Array(out)
            },
            JsonValue::Object(es) => {
                let mut out: Vec<JsonEntry> = Vec::new();
                let mut i: usize = 0;
                while i < es.len()
                    invariant
                        i <= es@.len(),
                        out@.len() == i,
                        forall|k: int|
                            0 <= k < i ==> out@[k].key@ == es@[k].key@ && out@[k].value@
                                == es@[k].value@,
                        decreases_to!(self => es),
                    decreases es@.len() - i,
                {
                    assert(decreases_to!(es => es@[i as int]));
                    let c = JsonEntry { key: es[i].key.clone(), value: es[i].value.duplicate() };
                    out.push(c);
                    i = i + 1;
                }
                assert(entries_view(out@) =~= entries_view(es@));
                JsonValue::Object(out)
            },
        }
    }
}

impl JsonValue {
    /// The text of a key.
    pub fn text_at(&self, key: &str) -> (r: Option<String>)
        ensures
            crate::text::opt_view(r) == text_in(get(self@, key@)),
    {
        match self.get(key) {
            Some(v) => match v.as_str() {
                Some(s) => Some(owned(s)),
                None => None,
            },
            None => None,
        }
    }

    /// The unsigned integer of a key.
    pub fn u64_at(&self, key: &str) -> (r: Option<u64>)
        ensures
            r == u64_in(get(self@, key@)),
    {
        match self.get(key) {
            Some(v) => v.as_u64(),
            None => None,
        }
    }

    /// The flag of a key.
    pub fn bool_at(&self, key: &str) -> (r: Option<bool>)
        ensures
            r == bool_in(get(self@, key@)),
    {
        match self.get(key) {
            Some(v) => v.as_bool(),
            None => None,
        }
    }

    /// The number of elements of the array of a key, 0 where there is none.
    pub fn count_at(&self, key: &str) -> (r: usize)
        ensures
            r == (match array_in(get(self@, key@)) {
                Some(a) => a.len(),
                None => 0,
            }),
    {
        match self.get(key) {
            Some(v) => match v.as_array() {
                Some(a) => a.len(),
                None => 0,
            },
            None => 0,
        }
    }

    /// An object without entries.
    pub fn object() -> (r: Self)
        ensures
            r@ == JsonView::Object(Seq::empty()),
    {
        let es: Vec<JsonEntry> = Vec::new();
        proof {
            lemma_object_view(es);
            assert(entries_view(es@) =~= Seq::empty());
        }
        JsonValue::Object(es)
    }

    /// The object with `key` set to `value`. Anything else than an object
    /// stays as it is.
    pub fn with(self, key: &str, value: JsonValue) -> (r: Self)
        ensures
            r@ == (match self@ {
                JsonView::Object(t) => JsonView::Object(put(t, key@, value@)),
                v => v,
            }),
    {
        match self {
            JsonValue::Object(mut es) => {
                proof {
                    lemma_object_view(es);
                }
                set_key(&mut es, key, value);
                proof {
                    lemma_object_view(es);
                }
                JsonValue::Object(es)
            },
            other => other,
        }
    }
}

/// A value with the entries of every object in it in key order.
pub open spec fn sorted_json(v: JsonView) -> JsonView
    decreases v, 0int,
{
    match v {
        JsonView::Array(a) => JsonView::Array(
            Seq::new(
                a.len(),
                |i: int|
                    if 0 <= i < a.len() {
                        sorted_json(a[i])
                    } else {
                        JsonView::Null
                    },
            ),
        ),
        JsonView::Object(t) => JsonView::Object(sorted_entries(t, t.len() as int)),
        _ => v,
    }
}

/// The first `n` entries in key order, with their values sorted. Of entries
/// with one key the last counts.
pub open spec fn sorted_entries(t: Seq<(Seq<char>, JsonView)>, n: int) -> Seq<
    (Seq<char>, JsonView),
>
    decreases t, n,
{
    if n <= 0 || n > t.len() {
        Seq::empty()
    } else {
        put(sorted_entries(t, n - 1), t[n - 1].0, sorted_json(t[n - 1].1))
    }
}

/// Entries with their values sorted.
pub open spec fn sorted_values(t: Seq<(Seq<char>, JsonView)>) -> Seq<(Seq<char>, JsonView)> {
    t.map_values(|e: (Seq<char>, JsonView)| (e.0, sorted_json(e.1)))
}

proof fn lemma_sorted_entries(t: Seq<(Seq<char>, JsonView)>, n: int)
    requires
        0 <= n <= t.len(),
    ensures
        sorted_entries(t, n) == put_all(sorted_values(t).take(n)),
    decreases n,
{
    let m = sorted_values(t);
    if n > 0 {
        lemma_sorted_entries(t, n - 1);
        assert(m.take(n).drop_last() =~= m.take(n - 1));
        assert(m.take(n).last() == m[n - 1]);
    } else {
        assert(m.take(0) =~= Seq::empty());
    }
}

proof fn lemma_sorted_array(a: Seq<JsonView>)
    ensures
        sorted_json(JsonView::Array(a)) == JsonView::Array(
            a.map_values(|v: JsonView| sorted_json(v)),
        ),
{
    match sorted_json(JsonView::Array(a)) {
        JsonView::Array(s) => {
            assert(s =~= a.map_values(|v: JsonView| sorted_json(v)));
        },
        _ => {},
    }
}

impl JsonValue {
    /// The value with the entries of every object in it in key order. Of
    /// entries with one key the last counts.
    pub fn sorted(&self) -> (r: JsonValue)
        ensures
            r@ == sorted_json(self@),
        decreases self,
    {
        broadcast use {lemma_object_view, lemma_array_view};

        match self {
            JsonValue::Array(a) => {
                let mut out: Vec<JsonValue> = Vec::new();
                let mut i: usize = 0;
                while i < a.len()
                    invariant
                        i <= a@.len(),
                        out@.len() == i,
                        forall|k: int| 0 <= k < i ==> (#[trigger] out@[k])@ == sorted_json(a@[k]@),
                        decreases_to!(self => a),
                    decreases a@.len() - i,
                {
                    assert(decreases_to!(a => a@[i as int]));
                    let c = a[i].sorted();
                    out.push(c);
                    i = i + 1;
                }
                proof {
                    lemma_sorted_array(items_view(a@));
                    assert(items_view(out@) =~= items_view(a@).map_values(
                        |v: JsonView| sorted_json(v),
                    ));
                }
                JsonValue::Array(out)
            },
            JsonValue::Object(es) => {
                let ghost t = entries_view(es@);
                let mut out: Vec<JsonEntry> = Vec::new();
                let mut i: usize = 0;
                assert(entries_view(out@) =~= sorted_entries(t, 0));
                while i < es.len()
                    invariant
                        i <= es@.len(),
                        t == entries_view(es@),
                        entries_view(out@) == sorted_entries(t, i as int),
                        decreases_to!(self => es),
                    decreases es@.len() - i,
                {
                    assert(decreases_to!(es => es@[i as int]));
                    let c = es[i].value.sorted();
                    assert(t[i as int] == (es@[i as int].key@, es@[i as int].value@));
                    set_key(&mut out, es[i].key.as_str(), c);
                    i = i + 1;
                }
                JsonValue::Object(out)
            },
            _ => self.duplicate(),
        }
    }
}

/// Whether two values differ at most in the order of the entries of the objects
/// in them. No object has a key twice.
pub open spec fn is_reordered(a: JsonView, b: JsonView) -> bool
    decreases a,
{
    match (a, b) {
        (JsonView::Array(s), JsonView::Array(t)) => s.len() == t.len() && forall|i: int|
            0 <= i < s.len() ==> is_reordered(#[trigger] s[i], t[i]),
        (JsonView::Object(s), JsonView::Object(t)) => {
            &&& distinct_keys(s)
            &&& distinct_keys(t)
            &&& forall|i: int|
                0 <= i < s.len() ==> exists|j: int|
                    0 <= j < t.len() && (#[trigger] s[i]).0 == (#[trigger] t[j]).0 && is_reordered(
                        s[i].1,
                        t[j].1,
                    )
            &&& forall|j: int|
                0 <= j < t.len() ==> exists|i: int|
                    0 <= i < s.len() && (#[trigger] s[i]).0 == (#[trigger] t[j]).0
        },
        _ => a == b,
    }
}

/// Values that differ only in the order of entries are the same when sorted.
pub proof fn reordered_values_sort_the_same(a: JsonView, b: JsonView)
    requires
        is_reordered(a, b),
    ensures
        sorted_json(a) == sorted_json(b),
    decreases a, 0int,
{
    match (a, b) {
        (JsonView::Array(s), JsonView::Array(t)) => {
            lemma_sorted_array(s);
            lemma_sorted_array(t);
            let f = |v: JsonView| sorted_json(v);
            assert forall|i: int| 0 <= i < s.len() implies s.map_values(f)[i] == t.map_values(
                f,
            )[i] by {
                reordered_values_sort_the_same(s[i], t[i]);
            }
            assert(s.map_values(f) =~= t.map_values(f));
        },
        (JsonView::Object(s), JsonView::Object(t)) => {
            let x = sorted_entries(s, s.len() as int);
            let y = sorted_entries(t, t.len() as int);
            lemma_sorted_reads(s, Seq::empty());
            lemma_sorted_reads(t, Seq::empty());
            assert forall|k: Seq<char>| #[trigger] lookup(x, k) == lookup(y, k) by {
                lemma_sorted_reads(s, k);
                lemma_sorted_reads(t, k);
                lemma_reordered_reads(s, t, k);
            }
            objects_with_equal_reads_are_equal(x, y);
        },
        _ => {},
    }
}

proof fn lemma_sorted_reads(t: Seq<(Seq<char>, JsonView)>, key: Seq<char>)
    requires
        distinct_keys(t),
    ensures
        in_key_order(sorted_entries(t, t.len() as int)),
        lookup(sorted_entries(t, t.len() as int), key) == lookup(sorted_values(t), key),
{
    let m = sorted_values(t);
    lemma_sorted_keys(t);
    lemma_sorted_entries(t, t.len() as int);
    assert(m.take(t.len() as int) =~= m);
    put_all_reads(m, key);
}

proof fn lemma_reordered_reads(
    s: Seq<(Seq<char>, JsonView)>,
    t: Seq<(Seq<char>, JsonView)>,
    key: Seq<char>,
)
    requires
        is_reordered(JsonView::Object(s), JsonView::Object(t)),
    ensures
        lookup(sorted_values(s), key) == lookup(sorted_values(t), key),
    decreases s, 1int,
{
    let ms = sorted_values(s);
    let mt = sorted_values(t);
    lemma_sorted_keys(s);
    lemma_sorted_keys(t);
    lemma_key_index(ms, key, 0);
    lemma_key_index(mt, key, 0);
    let i = key_index(ms, key, 0);
    let n = key_index(mt, key, 0);
    if i < ms.len() {
        assert(s[i].0 == key);
        let j = choose|j: int|
            0 <= j < t.len() && s[i].0 == (#[trigger] t[j]).0 && is_reordered(s[i].1, t[j].1);
        reordered_values_sort_the_same(s[i].1, t[j].1);
        distinct_keys_read(mt, j);
        assert(mt[j] == (key, sorted_json(t[j].1)));
        assert(ms[i] == (key, sorted_json(s[i].1)));
    } else if n < mt.len() {
        assert(t[n].0 == key);
        let i2 = choose|i2: int| 0 <= i2 < s.len() && (#[trigger] s[i2]).0 == t[n].0;
        assert(ms[i2].0 == key);
    }
}

proof fn lemma_sorted_keys(t: Seq<(Seq<char>, JsonView)>)
    requires
        distinct_keys(t),
    ensures
        distinct_keys(sorted_values(t)),
{
    let m = sorted_values(t);
    assert forall|i: int, j: int| 0 <= i < j < m.len() implies (#[trigger] m[i]).0 != (
    #[trigger] m[j]).0 by {
        assert(t[i].0 != t[j].0);
    }
}

/// The text of a JSON value as `serde_json` writes it, without spaces.
pub uninterp spec fn json_text_of(v: JsonView) -> Seq<char>;

/// What a JSON text stands for, or why it is none.
pub uninterp spec fn json_parse_of(text: Seq<char>) -> Result<JsonView, Seq<char>>;

/// A value of the `serde_json` crate.
#[verifier::external_type_specification]
#[verifier::external_body]
pub struct ExSerdeValue(serde_json::Value);

/// Turns a JSON value into one of `serde_json`, variant by variant. Nothing is
/// claimed of the result here.
#[verifier::external_body]
fn to_serde(v: &JsonValue) -> (r: serde_json::Value) {
    match v {
        JsonValue::Null => serde_json::Value::Null,
        JsonValue::Bool(b) => serde_json::Value::Bool(*b),
        JsonValue::Number(JsonNumber::Unsigned(n)) => (*n).into(),
        JsonValue::Number(JsonNumber::Signed(n)) => (*n).into(),
        JsonValue::Number(JsonNumber::Float(s)) => s.parse().unwrap_or(serde_json::Value::Null),
        JsonValue::Text(s) => serde_json::Value::String(s.clone()),
        JsonValue::Array(a) => serde_json::Value::Array(a.iter().map(to_serde).collect()),
        JsonValue::Object(es) => serde_json::Value::Object(
            es.iter().map(|e| (e.key.clone(), to_serde(&e.value))).collect(),
        ),
    }
}

/// Turns a value of `serde_json` into a JSON value, variant by variant. Nothing
/// is claimed of the result here.
#[verifier::external_body]
fn from_serde(v: serde_json::Value) -> (r: JsonValue) {
    match v {
        serde_json::Value::Null => JsonValue::Null,
        serde_json::Value::Bool(b) => JsonValue::Bool(b),
        serde_json::Value::Number(n) => JsonValue::Number(match (n.as_u64(), n.as_i64()) {
            (Some(u), _) => JsonNumber::Unsigned(u),
            (_, Some(i)) => JsonNumber::Signed(i),
            _ => JsonNumber::Float(n.to_string()),
        }),
        serde_json::Value::String(s) => JsonValue::Text(s),
        serde_json::Value::Array(a) => JsonValue::Array(a.into_iter().map(from_serde).collect()),
        serde_json::Value::Object(o) => JsonValue::Object(
            o.into_iter().map(|(key, v)| JsonEntry { key, value: from_serde(v) }).collect(),
        ),
    }
}

/// The `Display` of `serde_json::Value`: compact JSON text.
#[verifier::external_body]
pub(crate) fn json_text(v: &JsonValue) -> (r: String)
    ensures
        r@ == json_text_of(v@),
{
    to_serde(v).to_string()
}

/// `serde_json::from_str` into `serde_json::Value`: the value of a JSON text,
/// or the message of the parse error.
#[verifier::external_body]
pub(crate) fn parse_json(text: &str) -> (r: Result<JsonValue, String>)
    ensures
        match r {
            Ok(v) => json_parse_of(text@) == Ok::<JsonView, Seq<char>>(v@),
            Err(e) => json_parse_of(text@) == Err::<JsonView, Seq<char>>(e@),
        },
{
    serde_json::from_str::<serde_json::Value>(text).map(from_serde).map_err(|e| e.to_string())
}

/// The JSON value of a floating-point numeral.
pub uninterp spec fn float_json_of(numeral: Seq<char>) -> JsonView;

/// `serde_json::Number::from_f64` on the number that a numeral writes: a JSON
/// number, or null where the numeral writes no finite number.
#[verifier::external_body]
pub(crate) fn float_json(numeral: &str) -> (r: JsonValue)
    ensures
        r@ == float_json_of(numeral@),
{
    let n = numeral.parse().ok().and_then(serde_json::Number::from_f64);
    from_serde(n.map(serde_json::Value::Number).unwrap_or(serde_json::Value::Null))
}

/// The text of a JSON value as `serde_json` writes it over several lines.
pub uninterp spec fn json_pretty_of(v: JsonView) -> Seq<char>;

/// The entries of a JSON text that is an object, or why it is none.
pub uninterp spec fn json_object_parse_of(text: Seq<char>) -> Result<
    Seq<(Seq<char>, JsonView)>,
    Seq<char>,
>;

/// Whether an object is in key order and holds texts only.
pub open spec fn is_text_object(t: Seq<(Seq<char>, JsonView)>) -> bool {
    in_key_order(t) && forall|i: int| 0 <= i < t.len() ==> (#[trigger] t[i]).1 is Text
}

/// Whether an object of texts is read back from `text`.
pub open spec fn reads_back(text: Seq<char>, v: JsonView) -> bool {
    match v {
        JsonView::Object(t) => is_text_object(t) ==> json_object_parse_of(text) == Ok::<
            Seq<(Seq<char>, JsonView)>,
            Seq<char>,
        >(t),
        _ => true,
    }
}

/// `serde_json::to_string_pretty` of a value: indented JSON text. What it
/// writes of an object of texts is read back by `parse_json_object`.
#[verifier::external_body]
pub(crate) fn json_pretty(v: &JsonValue) -> (r: String)
    ensures
        r@ == json_pretty_of(v@),
        reads_back(r@, v@),
{
    serde_json::to_string_pretty(&to_serde(v)).unwrap_or_default()
}

/// `serde_json::from_str` into `serde_json::Map`: the entries of a JSON text
/// that is an object, in key order, or the message of the parse error.
#[verifier::external_body]
pub(crate) fn parse_json_object(text: &str) -> (r: Result<Vec<JsonEntry>, String>)
    ensures
        match r {
            Ok(es) => json_object_parse_of(text@) == Ok::<Seq<(Seq<char>, JsonView)>, Seq<char>>(
                entries_view(es@),
            ) && in_key_order(entries_view(es@)),
            Err(e) => json_object_parse_of(text@) == Err::<
                Seq<(Seq<char>, JsonView)>,
                Seq<char>,
            >(e@),
        },
{
    let m = serde_json::from_str::<serde_json::Map<String, serde_json::Value>>(text);
    m.map(|o| o.into_iter().map(|(key, v)| JsonEntry { key, value: from_serde(v) }).collect())
        .map_err(|e| e.to_string())
}

/// To sort a value changes the order of keys and nothing else: each key reads
/// what it read, itself sorted, and each element stays in its place.
pub proof fn sorting_keeps_every_value(v: JsonView, t: Seq<(Seq<char>, JsonView)>, i: int)
    ensures
        v is Object || v is Array || sorted_json(v) == v,
        v matches JsonView::Array(a) ==> (sorted_json(v) matches JsonView::Array(b) && b.len() == a.len() && (
        0 <= i < a.len() ==> b[i] == sorted_json(a[i]))),
        v == JsonView::Object(t) && distinct_keys(t) && 0 <= i < t.len() ==> get(sorted_json(v), t[i].0)
            == Some(sorted_json(t[i].1)),
        v == JsonView::Object(t) ==> sorted_json(v) is Object,
{
    if v == JsonView::Object(t) && distinct_keys(t) && 0 <= i < t.len() {
        lemma_sorted_value(t, t.len() as int, t[i].0, i);
    }
}

/// No key is added by sorting.
pub proof fn sorting_adds_no_key(t: Seq<(Seq<char>, JsonView)>, key: Seq<char>)
    requires
        forall|i: int| 0 <= i < t.len() ==> (#[trigger] t[i]).0 != key,
    ensures
        get(sorted_json(JsonView::Object(t)), key) is None,
{
    lemma_sorted_misses(t, t.len() as int, key);
}

proof fn lemma_sorted_value(t: Seq<(Seq<char>, JsonView)>, n: int, key: Seq<char>, i: int)
    requires
        distinct_keys(t),
        0 <= i < n <= t.len(),
        t[i].0 == key,
    ensures
        lookup(sorted_entries(t, n), key) == Some(sorted_json(t[i].1)),
    decreases n,
{
    let below = sorted_entries(t, n - 1);
    crate::entries::lookup_after_put(below, t[n - 1].0, sorted_json(t[n - 1].1), key);
    if i < n - 1 {
        lemma_sorted_value(t, n - 1, key, i);
        assert(t[i].0 != t[n - 1].0);
    }
}

proof fn lemma_sorted_misses(t: Seq<(Seq<char>, JsonView)>, n: int, key: Seq<char>)
    requires
        0 <= n <= t.len(),
        forall|i: int| 0 <= i < t.len() ==> (#[trigger] t[i]).0 != key,
    ensures
        lookup(sorted_entries(t, n), key) is None,
    decreases n,
{
    if n > 0 {
        lemma_sorted_misses(t, n - 1, key);
        crate::entries::lookup_after_put(
            sorted_entries(t, n - 1),
            t[n - 1].0,
            sorted_json(t[n - 1].1),
            key,
        );
    }
}

} // verus!
