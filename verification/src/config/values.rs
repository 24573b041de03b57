//! The effective configuration and its diagnostics.

use vstd::prelude::*;

use crate::config::layer::MergeTrace;
use crate::strmap::StrMap;
use crate::text::owned;
use crate::toml_value::{lemma_table_view, TomlEntry, TomlValue, TomlView};

verus! {

/// How serious a diagnostic is.
#[derive(Debug, Clone, Copy, PartialEq, Eq, Structural)]
pub enum DiagnosticLevel {
    Info,
    Warning,
    Error,
}

/// A finding made while loading, merging or constraining configuration.
#[derive(Debug)]
pub struct ConfigDiagnostic {
    pub level: DiagnosticLevel,
    pub key_path: String,
    pub message: String,
}

/// The mathematical value of a [`ConfigDiagnostic`].
pub struct DiagnosticView {
    pub level: DiagnosticLevel,
    pub key_path: Seq<char>,
    pub message: Seq<char>,
}

impl View for ConfigDiagnostic {
    type V = DiagnosticView;

    open spec fn view(&self) -> DiagnosticView {
        DiagnosticView { level: self.level, key_path: self.key_path@, message: self.message@ }
    }
}

/// The views of a list of diagnostics.
pub open spec fn diagnostics_view(d: Seq<ConfigDiagnostic>) -> Seq<DiagnosticView> {
    d.map_values(|x: ConfigDiagnostic| x@)
}

/// A diagnostic with the given parts.
pub open spec fn diagnostic(
    level: DiagnosticLevel,
    key_path: Seq<char>,
    message: Seq<char>,
) -> DiagnosticView {
    DiagnosticView { level, key_path, message }
}

/// Appends a diagnostic.
pub fn report(diags: &mut Vec<ConfigDiagnostic>, level: DiagnosticLevel, key_path: &str, message: String)
    ensures
        diagnostics_view(final(diags)@) == diagnostics_view(old(diags)@).push(
            diagnostic(level, key_path@, message@),
        ),
{
    let ghost before = diagnostics_view(diags@);
    let ghost m = message@;
    diags.push(ConfigDiagnostic { level, key_path: owned(key_path), message });
    assert(diagnostics_view(diags@) =~= before.push(diagnostic(level, key_path@, m)));
}

/// Appends all diagnostics of `more`.
pub fn report_all(diags: &mut Vec<ConfigDiagnostic>, more: Vec<ConfigDiagnostic>)
    ensures
        diagnostics_view(final(diags)@) == diagnostics_view(old(diags)@) + diagnostics_view(more@),
{
    let ghost before = diagnostics_view(diags@);
    let ghost extra = diagnostics_view(more@);
    let mut more = more;
    diags.append(&mut more);
    assert(diagnostics_view(diags@) =~= before + extra);
}

/// The merged configuration: the values, where each came from, the generation
/// of the whole, and what was found on the way.
#[derive(Debug)]
pub struct EffectiveConfig {
    pub values: TomlValue,
    pub merge_traces: StrMap<MergeTrace>,
    pub generation: u64,
    pub diagnostics: Vec<ConfigDiagnostic>,
}

/// The value of an empty table.
pub open spec fn empty_table() -> TomlView {
    TomlView::Table(Seq::empty())
}

/// An empty table.
pub fn new_table() -> (r: TomlValue)
    ensures
        r@ == empty_table(),
        r is Table,
{
    broadcast use lemma_table_view;

    let es: Vec<TomlEntry> = Vec::new();
    assert(crate::toml_value::entries_view(es@) =~= Seq::empty());
    TomlValue::Table(es)
}

impl EffectiveConfig {
    /// The configuration without any layer, at generation 0.
    pub fn empty() -> (r: Self)
        ensures
            r.values@ == empty_table(),
            r.merge_traces.wf(),
            r.merge_traces@ == Map::<Seq<char>, MergeTrace>::empty(),
            r.generation == 0,
            r.diagnostics@.len() == 0,
    {
        EffectiveConfig {
            values: new_table(),
            merge_traces: StrMap::new(),
            generation: 0,
            diagnostics: Vec::new(),
        }
    }
}

} // verus!
