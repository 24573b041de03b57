//! Reading of TOML documents.

use vstd::prelude::*;

use crate::entries::in_key_order;
use crate::toml_value::{TomlEntry, TomlValue, TomlView};

verus! {

/// A value of the `toml` crate.
#[verifier::external_type_specification]
#[verifier::external_body]
pub struct ExTomlCrateValue(toml::Value);

/// What a TOML document stands for, or why it is none.
pub uninterp spec fn toml_parse_of(text: Seq<char>) -> Result<TomlView, Seq<char>>;

/// Whether every table in a value is in key order.
pub open spec fn well_ordered(v: TomlView) -> bool
    decreases v,
{
    match v {
        TomlView::Array(a) => forall|i: int| 0 <= i < a.len() ==> #[trigger] well_ordered(a[i]),
        TomlView::Table(t) => in_key_order(t) && (forall|i: int|
            0 <= i < t.len() ==> well_ordered((#[trigger] t[i]).1)),
        _ => true,
    }
}

/// Turns a value of the `toml` crate into one of this library, variant by
/// variant. Nothing is claimed of the result here.
#[verifier::external_body]
fn from_crate_value(v: toml::Value) -> (r: TomlValue) {
    match v {
        toml::Value::String(s) => TomlValue::Text(s),
        toml::Value::Integer(i) => TomlValue::Integer(i),
        toml::Value::Float(_) => TomlValue::Float(v.to_string()),
        toml::Value::Boolean(b) => TomlValue::Boolean(b),
        toml::Value::Datetime(d) => TomlValue::Datetime(d.to_string()),
        toml::Value::Array(a) => TomlValue::Array(a.into_iter().map(from_crate_value).collect()),
        toml::Value::Table(t) => TomlValue::Table(
            t.into_iter().map(|(key, v)| TomlEntry { key, value: from_crate_value(v) }).collect(),
        ),
    }
}

/// `toml::from_str` into `toml::Value`: the value of a document, or the
/// message of the parse error. The crate keeps the keys of every table in
/// order. The value is mostly a table; it is not claimed to be one, since the
/// crate reads a document under its private date-time key as a date-time.
#[verifier::external_body]
pub(crate) fn parse_toml(text: &str) -> (r: Result<TomlValue, String>)
    ensures
        match r {
            Ok(v) => toml_parse_of(text@) == Ok::<TomlView, Seq<char>>(v@) && well_ordered(v@),
            Err(e) => toml_parse_of(text@) == Err::<TomlView, Seq<char>>(e@),
        },
{
    toml::from_str::<toml::Value>(text).map(from_crate_value).map_err(|e| e.to_string())
}

} // verus!
