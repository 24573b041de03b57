//! Configuration values: the tree that a TOML document stands for.
//!
//! A table keeps its entries in key order. Its model is the sequence of its
//! entries; `lookup`, `put` and `without` say what reading, writing and
//! deleting a key mean.

use vstd::prelude::*;

use crate::entries::{key_index, lemma_key_index_is, lookup, put, slot, without};
use crate::text::{less, owned, same};

verus! {

/// A configuration value.
#[derive(Debug, PartialEq, Eq)]
pub enum TomlValue {
    Text(String),
    Integer(i64),
    /// A float, by the numeral that the `toml` crate prints for it.
    Float(String),
    Boolean(bool),
    /// A date or time, by the text that the `toml` crate prints for it.
    Datetime(String),
    Array(Vec<TomlValue>),
    Table(Vec<TomlEntry>),
}

/// One key of a table with its value.
#[derive(Debug, PartialEq, Eq)]
pub struct TomlEntry {
    pub key: String,
    pub value: TomlValue,
}

/// The mathematical value of a [`TomlValue`].
pub enum TomlView {
    Text(Seq<char>),
    Integer(int),
    Float(Seq<char>),
    Boolean(bool),
    Datetime(Seq<char>),
    Array(Seq<TomlView>),
    Table(Seq<(Seq<char>, TomlView)>),
}

/// What a value stands for.
pub open spec fn toml_view(v: TomlValue) -> TomlView
    decreases v,
{
    match v {
        TomlValue::Text(s) => TomlView::Text(s@),
        TomlValue::Integer(i) => TomlView::Integer(i as int),
        TomlValue::Float(s) => TomlView::Float(s@),
        TomlValue::Boolean(b) => TomlView::Boolean(b),
        TomlValue::Datetime(s) => TomlView::Datetime(s@),
        TomlValue::Array(a) => TomlView::Array(
            Seq::new(
                a@.len(),
                |i: int|
                    if 0 <= i < a@.len() {
                        toml_view(a@[i])
                    } else {
                        TomlView::Boolean(false)
                    },
            ),
        ),
        TomlValue::Table(es) => TomlView::Table(
            Seq::new(
                es@.len(),
                |i: int|
                    if 0 <= i < es@.len() {
                        (es@[i].key@, toml_view(es@[i].value))
                    } else {
                        (Seq::empty(), TomlView::Boolean(false))
                    },
            ),
        ),
    }
}

impl View for TomlValue {
    type V = TomlView;

    open spec fn view(&self) -> TomlView {
        toml_view(*self)
    }
}

/// The entries of a table as key and value.
pub open spec fn entries_view(es: Seq<TomlEntry>) -> Seq<(Seq<char>, TomlView)> {
    es.map_values(|e: TomlEntry| (e.key@, e.value@))
}

/// The elements of an array.
pub open spec fn items_view(a: Seq<TomlValue>) -> Seq<TomlView> {
    a.map_values(|v: TomlValue| v@)
}

pub broadcast proof fn lemma_table_view(es: Vec<TomlEntry>)
    ensures
        #[trigger] toml_view(TomlValue::Table(es)) == TomlView::Table(entries_view(es@)),
{
    match toml_view(TomlValue::Table(es)) {
        TomlView::Table(s) => {
            assert(s =~= entries_view(es@));
        },
        _ => {},
    }
}

pub broadcast proof fn lemma_array_view(a: Vec<TomlValue>)
    ensures
        #[trigger] toml_view(TomlValue::Array(a)) == TomlView::Array(items_view(a@)),
{
    match toml_view(TomlValue::Array(a)) {
        TomlView::Array(s) => {
            assert(s =~= items_view(a@));
        },
        _ => {},
    }
}

/// The value of a key, where the value is a table that has it.
pub open spec fn get(v: TomlView, key: Seq<char>) -> Option<TomlView> {
    match v {
        TomlView::Table(t) => lookup(t, key),
        _ => None,
    }
}

/// The text of an optional value.
pub open spec fn text_in(v: Option<TomlView>) -> Option<Seq<char>> {
    match v {
        Some(TomlView::Text(s)) => Some(s),
        _ => None,
    }
}

/// The integer of an optional value.
pub open spec fn integer_in(v: Option<TomlView>) -> Option<int> {
    match v {
        Some(TomlView::Integer(i)) => Some(i),
        _ => None,
    }
}

/// The flag of an optional value.
pub open spec fn bool_in(v: Option<TomlView>) -> Option<bool> {
    match v {
        Some(TomlView::Boolean(b)) => Some(b),
        _ => None,
    }
}

/// The elements of an optional value, where it is an array.
pub open spec fn array_in(v: Option<TomlView>) -> Option<Seq<TomlView>> {
    match v {
        Some(TomlView::Array(a)) => Some(a),
        _ => None,
    }
}

/// The entries of an optional value, where it is a table.
pub open spec fn table_in(v: Option<TomlView>) -> Option<Seq<(Seq<char>, TomlView)>> {
    match v {
        Some(TomlView::Table(t)) => Some(t),
        _ => None,
    }
}

/// The texts among the elements of an array, in order.
pub open spec fn texts_of(a: Seq<TomlView>) -> Seq<Seq<char>>
    decreases a.len(),
{
    if a.len() == 0 {
        Seq::empty()
    } else {
        match a.last() {
            TomlView::Text(s) => texts_of(a.drop_last()).push(s),
            _ => texts_of(a.drop_last()),
        }
    }
}

/// The position of a key among the entries, or the number of entries.
pub fn position(es: &Vec<TomlEntry>, key: &str) -> (r: usize)
    ensures
        r == key_index(entries_view(es@), key@, 0),
        r <= es@.len(),
        r < es@.len() ==> es@[r as int].key@ == key@,
        lookup(entries_view(es@), key@) == (if r < es@.len() {
            Some(es@[r as int].value@)
        } else {
            None
        }),
{
    let ghost t = entries_view(es@);
    let mut i: usize = 0;
    while i < es.len()
        invariant_except_break
            i <= es@.len(),
            t == entries_view(es@),
            forall|k: int| 0 <= k < i ==> t[k].0 != key@,
        ensures
            i <= es@.len(),
            t == entries_view(es@),
            i < es@.len() ==> t[i as int].0 == key@,
            forall|k: int| 0 <= k < i ==> t[k].0 != key@,
        decreases es@.len() - i,
    {
        if same(es[i].key.as_str(), key) {
            break;
        }
        i = i + 1;
    }
    proof {
        lemma_key_index_is(t, key@, i as int);
    }
    i
}

/// Gives `key` the value `value`.
pub fn set_key(es: &mut Vec<TomlEntry>, key: &str, value: TomlValue)
    ensures
        entries_view(final(es)@) == put(entries_view(old(es)@), key@, value@),
{
    let ghost t = entries_view(es@);
    let i: usize = position(es, key);
    let entry = TomlEntry { key: owned(key), value };
    if i < es.len() {
        es[i] = entry;
        assert(entries_view(es@) =~= put(t, key@, value@));
    } else {
        let mut s: usize = 0;
        while s < es.len()
            invariant_except_break
                s <= es@.len(),
                t == entries_view(es@),
                slot(t, key@, s as int) == slot(t, key@, 0),
            ensures
                s <= es@.len(),
                t == entries_view(es@),
                slot(t, key@, 0) == s,
            decreases es@.len() - s,
        {
            assert(t[s as int].0 == es@[s as int].key@);
            if less(key, es[s].key.as_str()) {
                break;
            }
            s = s + 1;
        }
        es.insert(s, entry);
        assert(entries_view(es@) =~= put(t, key@, value@));
    }
}

/// Deletes `key` and gives back its value.
pub fn take_key(es: &mut Vec<TomlEntry>, key: &str) -> (r: Option<TomlValue>)
    ensures
        entries_view(final(es)@) == without(entries_view(old(es)@), key@),
        match r {
            Some(v) => lookup(entries_view(old(es)@), key@) == Some(v@),
            None => lookup(entries_view(old(es)@), key@) is None,
        },
{
    let ghost t = entries_view(es@);
    let i: usize = position(es, key);
    if i < es.len() {
        let e = es.remove(i);
        assert(entries_view(es@) =~= without(t, key@));
        Some(e.value)
    } else {
        None
    }
}

/// The value of a key among the entries.
pub fn find<'a>(es: &'a Vec<TomlEntry>, key: &str) -> (r: Option<&'a TomlValue>)
    ensures
        match r {
            Some(v) => lookup(entries_view(es@), key@) == Some(v@),
            None => lookup(entries_view(es@), key@) is None,
        },
{
    let i: usize = position(es, key);
    if i < es.len() {
        Some(&es[i].value)
    } else {
        None
    }
}

/// The text of a key among the entries.
pub fn find_text(es: &Vec<TomlEntry>, key: &str) -> (r: Option<String>)
    ensures
        crate::text::opt_view(r) == text_in(lookup(entries_view(es@), key@)),
{
    match find(es, key) {
        Some(v) => match v.as_str() {
            Some(s) => Some(owned(s)),
            None => None,
        },
        None => None,
    }
}

/// The flag of a key among the entries.
pub fn find_bool(es: &Vec<TomlEntry>, key: &str) -> (r: Option<bool>)
    ensures
        r == bool_in(lookup(entries_view(es@), key@)),
{
    match find(es, key) {
        Some(v) => v.as_bool(),
        None => None,
    }
}

/// The texts in the array of a key among the entries, if it is an array.
pub fn find_texts(es: &Vec<TomlEntry>, key: &str) -> (r: Vec<String>)
    ensures
        crate::text::views(r@) == (match array_in(lookup(entries_view(es@), key@)) {
            Some(a) => texts_of(a),
            None => Seq::empty(),
        }),
{
    match find(es, key) {
        Some(v) => match v.as_array() {
            Some(a) => texts(a),
            None => {
                let none: Vec<String> = Vec::new();
                assert(crate::text::views(none@) =~= Seq::empty());
                none
            },
        },
        None => {
            let none: Vec<String> = Vec::new();
            assert(crate::text::views(none@) =~= Seq::empty());
            none
        },
    }
}

/// Takes a value out of its place and leaves `false` there.
pub fn take_value(v: &mut TomlValue) -> (r: TomlValue)
    ensures
        r == *old(v),
        *final(v) == TomlValue::Boolean(false),
{
    let mut t = TomlValue::Boolean(false);
    core::mem::swap(v, &mut t);
    t
}

impl TomlValue {
    /// The value of a key, where this is a table that has it.
    pub fn get(&self, key: &str) -> (r: Option<&TomlValue>)
        ensures
            match r {
                Some(v) => get(self@, key@) == Some(v@),
                None => get(self@, key@) is None,
            },
    {
        broadcast use lemma_table_view;

        match self {
            TomlValue::Table(es) => find(es, key),
            _ => None,
        }
    }

    /// The text, where this is one.
    pub fn as_str(&self) -> (r: Option<&str>)
        ensures
            match r {
                Some(s) => self@ == TomlView::Text(s@),
                None => !(self@ is Text),
            },
    {
        match self {
            TomlValue::Text(s) => Some(s.as_str()),
            _ => None,
        }
    }

    /// The integer, where this is one.
    pub fn as_integer(&self) -> (r: Option<i64>)
        ensures
            match r {
                Some(i) => self@ == TomlView::Integer(i as int),
                None => !(self@ is Integer),
            },
    {
        match self {
            TomlValue::Integer(i) => Some(*i),
            _ => None,
        }
    }

    /// The flag, where this is one.
    pub fn as_bool(&self) -> (r: Option<bool>)
        ensures
            match r {
                Some(b) => self@ == TomlView::Boolean(b),
                None => !(self@ is Boolean),
            },
    {
        match self {
            TomlValue::Boolean(b) => Some(*b),
            _ => None,
        }
    }

    /// The elements, where this is an array.
    pub fn as_array(&self) -> (r: Option<&Vec<TomlValue>>)
        ensures
            match r {
                Some(a) => self@ == TomlView::Array(items_view(a@)) && *self == TomlValue::Array(*a),
                None => !(self@ is Array),
            },
    {
        broadcast use lemma_array_view;

        match self {
            TomlValue::Array(a) => Some(a),
            _ => None,
        }
    }

    /// The entries, where this is a table.
    pub fn as_table(&self) -> (r: Option<&Vec<TomlEntry>>)
        ensures
            match r {
                Some(t) => self@ == TomlView::Table(entries_view(t@)) && *self == TomlValue::Table(
                    *t,
                ),
                None => !(self@ is Table),
            },
    {
        broadcast use lemma_table_view;

        match self {
            TomlValue::Table(t) => Some(t),
            _ => None,
        }
    }

    /// A copy of the value.
    pub fn duplicate(&self) -> (r: TomlValue)
        ensures
            r@ == self@,
        decreases self,
    {
        broadcast use {lemma_table_view, lemma_array_view};

        match self {
            TomlValue::Text(s) => TomlValue::Text(s.clone()),
            TomlValue::Integer(i) => TomlValue::Integer(*i),
            TomlValue::Float(s) => TomlValue::Float(s.clone()),
            TomlValue::Boolean(b) => TomlValue::Boolean(*b),
            TomlValue::Datetime(s) => TomlValue::Datetime(s.clone()),
            TomlValue::Array(a) => {
                let mut out: Vec<TomlValue> = Vec::new();
                let mut i: usize = 0;
                while i < a.len()
                    invariant
                        i <= a@.len(),
                        out@.len() == i,
                        forall|k: int| 0 <= k < i ==> out@[k]@ == a@[k]@,
                        decreases_to!(self => a),
                    decreases a@.len() - i,
                {
                    assert(decreases_to!(a => a@[i as int]));
                    let c = a[i].duplicate();
                    out.push(c);
                    i = i + 1;
                }
                assert(items_view(out@) =~= items_view(a@));
                TomlValue::Array(out)
            },
            TomlValue::Table(es) => {
                let mut out: Vec<TomlEntry> = Vec::new();
                let mut i: usize = 0;
                while i < es.len()
                    invariant
                        i <= es@.len(),
                        out@.len() == i,
                        forall|k: int|
                            0 <= k < i ==> out@[k].key@ == es@[k].key@ && out@[k].value@
                                == es@[k].value@,
                        decreases_to!(self => es),
                    decreases es@.len() - i,
                {
                    assert(decreases_to!(es => es@[i as int]));
                    let c = TomlEntry { key: es[i].key.clone(), value: es[i].value.duplicate() };
                    out.push(c);
                    i = i + 1;
                }
                assert(entries_view(out@) =~= entries_view(es@));
                TomlValue::Table(out)
            },
        }
    }
}

/// The text of an optional value, copied.
pub fn text_of(v: Option<&TomlValue>) -> (r: Option<String>)
    ensures
        match r {
            Some(s) => v matches Some(x) && x@ == TomlView::Text(s@),
            None => match v {
                Some(x) => !(x@ is Text),
                None => true,
            },
        },
{
    match v {
        Some(TomlValue::Text(s)) => Some(s.clone()),
        _ => None,
    }
}

/// The texts among the elements of an array, copied in order.
pub fn texts(a: &Vec<TomlValue>) -> (r: Vec<String>)
    ensures
        crate::text::views(r@) == texts_of(items_view(a@)),
{
    let mut out: Vec<String> = Vec::new();
    let mut i: usize = 0;
    assert(crate::text::views(out@) =~= texts_of(items_view(a@).take(0)));
    while i < a.len()
        invariant
            i <= a@.len(),
            crate::text::views(out@) == texts_of(items_view(a@).take(i as int)),
        decreases a@.len() - i,
    {
        let ghost all = items_view(a@);
        assert(all.take(i as int + 1).drop_last() =~= all.take(i as int));
        assert(all.take(i as int + 1).last() == a@[i as int]@);
        match &a[i] {
            TomlValue::Text(s) => {
                let c = s.clone();
                proof {
                    crate::text::lemma_views_push(out@, c);
                }
                out.push(c);
            },
            _ => {},
        }
        i = i + 1;
    }
    assert(items_view(a@).take(a@.len() as int) =~= items_view(a@));
    out
}

} // verus!
