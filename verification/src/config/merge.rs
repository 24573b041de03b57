//! Merging of layers, from the lowest precedence to the highest.

use vstd::prelude::*;
use vstd::string::*;

use crate::config::layer::{ConfigLayer, ConfigLayerSource, MergeTrace, SourceView, TraceView, source_name};
use crate::config::values::{
    diagnostic, diagnostics_view, empty_table, new_table, report, ConfigDiagnostic, DiagnosticLevel,
    DiagnosticView, EffectiveConfig,
};
use crate::entries::{
    in_key_order, key_index, lemma_key_index, lemma_key_index_is, lookup, lookup_after_put, put,
    put_keeps_order,
};
use crate::strmap::StrMap;
use crate::text::{owned, push_char};
use crate::toml_value::{
    entries_view, lemma_table_view, position, set_key, take_value, TomlEntry, TomlValue, TomlView,
};

verus! {

/// The table `base` overlaid with `over`: entry by entry, tables are merged
/// into tables and anything else takes the place of what was there.
pub open spec fn merge_tables(
    base: Seq<(Seq<char>, TomlView)>,
    over: Seq<(Seq<char>, TomlView)>,
) -> Seq<(Seq<char>, TomlView)>
    decreases over,
{
    if over.len() == 0 {
        base
    } else {
        let m = merge_tables(base, over.drop_last());
        let k = over.last().0;
        match (lookup(m, k), over.last().1) {
            (Some(TomlView::Table(b)), TomlView::Table(o)) => put(
                m,
                k,
                TomlView::Table(merge_tables(b, o)),
            ),
            (_, v) => put(m, k, v),
        }
    }
}

/// The value `base` overlaid with `over`.
pub open spec fn overlaid(base: TomlView, over: TomlView) -> TomlView {
    match (base, over) {
        (TomlView::Table(b), TomlView::Table(o)) => TomlView::Table(merge_tables(b, o)),
        _ => over,
    }
}

/// The dotted path of `key` under `prefix`.
pub open spec fn dotted(prefix: Seq<char>, key: Seq<char>) -> Seq<char> {
    if prefix.len() == 0 {
        key
    } else {
        prefix.push('.') + key
    }
}

/// The traces after overlaying `over` on `base` under `prefix`: each path
/// whose value `over` set points to `trace`.
pub open spec fn merged_traces(
    base: Seq<(Seq<char>, TomlView)>,
    over: Seq<(Seq<char>, TomlView)>,
    prefix: Seq<char>,
    trace: TraceView,
    traces: Map<Seq<char>, TraceView>,
) -> Map<Seq<char>, TraceView>
    decreases over,
{
    if over.len() == 0 {
        traces
    } else {
        let m = merge_tables(base, over.drop_last());
        let ts = merged_traces(base, over.drop_last(), prefix, trace, traces);
        let k = over.last().0;
        match (lookup(m, k), over.last().1) {
            (Some(TomlView::Table(b)), TomlView::Table(o)) => merged_traces(
                b,
                o,
                dotted(prefix, k),
                trace,
                ts,
            ),
            _ => ts.insert(dotted(prefix, k), trace),
        }
    }
}

/// The views of the traces of a map.
pub open spec fn traces_view(m: Map<Seq<char>, MergeTrace>) -> Map<Seq<char>, TraceView> {
    m.map_values(|t: MergeTrace| t@)
}

/// What a layer gives to the merge.
pub struct LayerView {
    pub source: SourceView,
    pub values: TomlView,
    pub fingerprint: Seq<char>,
    pub disabled_reason: Option<Seq<char>>,
}

impl View for ConfigLayer {
    type V = LayerView;

    open spec fn view(&self) -> LayerView {
        LayerView {
            source: self.source@,
            values: self.values@,
            fingerprint: self.fingerprint@,
            disabled_reason: match self.disabled_reason {
                Some(r) => Some(r@),
                None => None,
            },
        }
    }
}

/// The views of a list of layers.
pub open spec fn layers_view(layers: Seq<ConfigLayer>) -> Seq<LayerView> {
    layers.map_values(|l: ConfigLayer| l@)
}

/// The values of the enabled layers, overlaid in order on an empty table.
pub open spec fn merged_values(layers: Seq<LayerView>) -> TomlView
    decreases layers.len(),
{
    if layers.len() == 0 {
        empty_table()
    } else {
        let below = merged_values(layers.drop_last());
        if layers.last().disabled_reason is Some {
            below
        } else {
            overlaid(below, layers.last().values)
        }
    }
}

/// The trace of a layer.
pub open spec fn layer_trace(l: LayerView) -> TraceView {
    TraceView { origin: l.source, source_version: l.fingerprint }
}

/// For each path of the merged values, the layer that set it last.
pub open spec fn layer_traces(layers: Seq<LayerView>) -> Map<Seq<char>, TraceView>
    decreases layers.len(),
{
    if layers.len() == 0 {
        Map::empty()
    } else {
        let below = layer_traces(layers.drop_last());
        if layers.last().disabled_reason is Some {
            below
        } else {
            match (merged_values(layers.drop_last()), layers.last().values) {
                (TomlView::Table(b), TomlView::Table(o)) => merged_traces(
                    b,
                    o,
                    Seq::empty(),
                    layer_trace(layers.last()),
                    below,
                ),
                _ => below,
            }
        }
    }
}

/// The warning about a disabled layer.
pub open spec fn disabled_warning(l: LayerView) -> DiagnosticView {
    diagnostic(
        DiagnosticLevel::Warning,
        Seq::empty(),
        "layer "@ + source_name(l.source) + " is disabled: "@ + l.disabled_reason->0,
    )
}

/// One warning for each disabled layer, in order.
pub open spec fn disabled_warnings(layers: Seq<LayerView>) -> Seq<DiagnosticView>
    decreases layers.len(),
{
    if layers.len() == 0 {
        Seq::empty()
    } else {
        let below = disabled_warnings(layers.drop_last());
        if layers.last().disabled_reason is Some {
            below.push(disabled_warning(layers.last()))
        } else {
            below
        }
    }
}

/// Merges layers, given from the lowest to the highest precedence.
pub fn merge_layers(layers: &Vec<ConfigLayer>) -> (r: EffectiveConfig)
    ensures
        r.values@ == merged_values(layers_view(layers@)),
        r.merge_traces.wf(),
        traces_view(r.merge_traces@) == layer_traces(layers_view(layers@)),
        r.generation == (if layers@.len() == 0 {
            0u64
        } else {
            1u64
        }),
        diagnostics_view(r.diagnostics@) == disabled_warnings(layers_view(layers@)),
{
    if layers.len() == 0 {
        let r = EffectiveConfig::empty();
        proof {
            assert(diagnostics_view(r.diagnostics@) =~= Seq::empty());
            assert(traces_view(r.merge_traces@) =~= Map::empty());
        }
        return r;
    }
    let mut merged = new_table();
    let mut traces: StrMap<MergeTrace> = StrMap::new();
    let mut diagnostics: Vec<ConfigDiagnostic> = Vec::new();
    let ghost all = layers_view(layers@);
    let mut i: usize = 0;
    assert(diagnostics_view(diagnostics@) =~= Seq::empty());
    assert(traces_view(traces@) =~= Map::empty());
    while i < layers.len()
        invariant
            i <= layers@.len(),
            all == layers_view(layers@),
            merged@ == merged_values(all.take(i as int)),
            traces.wf(),
            traces_view(traces@) == layer_traces(all.take(i as int)),
            diagnostics_view(diagnostics@) == disabled_warnings(all.take(i as int)),
        decreases layers@.len() - i,
    {
        let layer = &layers[i];
        proof {
            assert(all.take(i as int + 1).drop_last() =~= all.take(i as int));
            assert(all.take(i as int + 1).last() == layer@);
        }
        match &layer.disabled_reason {
            Some(reason) => {
                let mut m = owned("layer ");
                m.append(layer.source.name().as_str());
                m.append(" is disabled: ");
                m.append(reason.as_str());
                proof {
                    reveal_strlit("");
                    assert(""@ =~= Seq::<char>::empty());
                }
                report(&mut diagnostics, DiagnosticLevel::Warning, "", m);
            },
            None => {
                let trace = MergeTrace::new(layer.source.clone(), layer.fingerprint.clone());
                let empty = String::new();
                merged = merge_table(merged, &layer.values, &trace, &empty, &mut traces);
            },
        }
        i = i + 1;
    }
    assert(all.take(layers@.len() as int) =~= all);
    EffectiveConfig { values: merged, merge_traces: traces, generation: 1, diagnostics }
}

/// Overlays `overlay` on `base` and records the paths that it set.
pub(crate) fn merge_table(
    base: TomlValue,
    overlay: &TomlValue,
    trace: &MergeTrace,
    key_prefix: &String,
    traces: &mut StrMap<MergeTrace>,
) -> (r: TomlValue)
    requires
        old(traces).wf(),
        key_prefix@.len() == 0,
    ensures
        r@ == overlaid(base@, overlay@),
        final(traces).wf(),
        traces_view(final(traces)@) == (match (base@, overlay@) {
            (TomlView::Table(b), TomlView::Table(o)) => merged_traces(
                b,
                o,
                key_prefix@,
                trace@,
                traces_view(old(traces)@),
            ),
            _ => traces_view(old(traces)@),
        }),
{
    broadcast use lemma_table_view;

    match (base, overlay) {
        (TomlValue::Table(mut b), TomlValue::Table(o)) => {
            merge_entries(&mut b, o, trace, key_prefix, traces);
            TomlValue::Table(b)
        },
        _ => overlay.duplicate(),
    }
}

fn dotted_key(prefix: &String, key: &String) -> (r: String)
    ensures
        r@ == dotted(prefix@, key@),
{
    if prefix.as_str().is_empty() {
        key.clone()
    } else {
        let mut s = prefix.clone();
        push_char(&mut s, '.');
        s.append(key.as_str());
        s
    }
}

/// Overlays the entries `over` on the table `base`.
fn merge_entries(
    base: &mut Vec<TomlEntry>,
    over: &Vec<TomlEntry>,
    trace: &MergeTrace,
    prefix: &String,
    traces: &mut StrMap<MergeTrace>,
)
    requires
        old(traces).wf(),
    ensures
        entries_view(final(base)@) == merge_tables(entries_view(old(base)@), entries_view(over@)),
        final(traces).wf(),
        traces_view(final(traces)@) == merged_traces(
            entries_view(old(base)@),
            entries_view(over@),
            prefix@,
            trace@,
            traces_view(old(traces)@),
        ),
    decreases over,
{
    broadcast use lemma_table_view;

    let ghost b0 = entries_view(base@);
    let ghost t0 = traces_view(traces@);
    let ghost ov = entries_view(over@);
    let mut i: usize = 0;
    while i < over.len()
        invariant
            i <= over@.len(),
            ov == entries_view(over@),
            traces.wf(),
            entries_view(base@) == merge_tables(b0, ov.take(i as int)),
            traces_view(traces@) == merged_traces(b0, ov.take(i as int), prefix@, trace@, t0),
        decreases over@.len() - i,
    {
        proof {
            assert(ov.take(i as int + 1).drop_last() =~= ov.take(i as int));
            assert(ov.take(i as int + 1).last() == ov[i as int]);
            assert(decreases_to!(over => over@[i as int]));
        }
        let ghost m = entries_view(base@);
        let key = &over[i].key;
        let full_key = dotted_key(prefix, key);
        let at: usize = position(base, key.as_str());
        let mut nested = false;
        if at < base.len() {
            if let TomlValue::Table(_) = &base[at].value {
                if let TomlValue::Table(_) = &over[i].value {
                    nested = true;
                }
            }
        }
        if nested {
            match (take_value(&mut base[at].value), &over[i].value) {
                (TomlValue::Table(mut bt), TomlValue::Table(ot)) => {
                    let ghost b = entries_view(bt@);
                    let ghost o = entries_view(ot@);
                    proof {
                        lemma_table_view(bt);
                        lemma_table_view(*ot);
                        assert(lookup(m, key@) == Some(TomlView::Table(b)));
                        assert(ov[i as int].1 == TomlView::Table(o));
                    }
                    merge_entries(&mut bt, ot, trace, &full_key, traces);
                    proof {
                        lemma_table_view(bt);
                    }
                    base[at].value = TomlValue::Table(bt);
                    proof {
                        assert(entries_view(base@) =~= put(
                            m,
                            key@,
                            TomlView::Table(merge_tables(b, o)),
                        ));
                    }
                },
                (other, _) => {
                    base[at].value = other;
                    assert(false);
                },
            }
        } else {
            let ghost before = traces@;
            set_key(base, key.as_str(), over[i].value.duplicate());
            let tr = trace.clone();
            let _ = traces.insert(full_key, tr);
            assert(traces_view(traces@) =~= traces_view(before).insert(
                dotted(prefix@, key@),
                trace@,
            ));
        }
        i = i + 1;
    }
    assert(ov.take(over@.len() as int) =~= ov);
}

/// The weight of a source: lower weights have lower precedence.
pub fn layer_precedence(source: &ConfigLayerSource) -> (r: u8)
    ensures
        r == precedence_of(source@),
{
    match source {
        ConfigLayerSource::Builtin => 0,
        ConfigLayerSource::System => 10,
        ConfigLayerSource::EnterpriseManaged => 20,
        ConfigLayerSource::User => 30,
        ConfigLayerSource::Profile(_) => 35,
        ConfigLayerSource::Workspace { .. } => 40,
        ConfigLayerSource::SessionFlag => 50,
    }
}

/// The weight of a source.
pub open spec fn precedence_of(source: SourceView) -> u8 {
    match source {
        SourceView::Builtin => 0,
        SourceView::System => 10,
        SourceView::EnterpriseManaged => 20,
        SourceView::User => 30,
        SourceView::Profile(_) => 35,
        SourceView::Workspace(_) => 40,
        SourceView::SessionFlag => 50,
    }
}

/// Key by key: what the overlay does not mention stays, tables merge into
/// tables, and in every other case the overlay wins.
pub proof fn merge_reads(
    base: Seq<(Seq<char>, TomlView)>,
    over: Seq<(Seq<char>, TomlView)>,
    key: Seq<char>,
)
    requires
        in_key_order(over),
    ensures
        lookup(merge_tables(base, over), key) == (match lookup(over, key) {
            None => lookup(base, key),
            Some(v) => match lookup(base, key) {
                Some(b) => Some(overlaid(b, v)),
                None => Some(v),
            },
        }),
    decreases over.len(),
{
    lemma_key_index(over, key, 0);
    if over.len() > 0 {
        let rest = over.drop_last();
        let last = over.last();
        assert forall|i: int, j: int| 0 <= i < j < rest.len() implies crate::text::text_lt(
            #[trigger] rest[i].0,
            #[trigger] rest[j].0,
        ) by {
            assert(rest[i] == over[i] && rest[j] == over[j]);
        }
        merge_reads(base, rest, key);
        lemma_key_index(rest, key, 0);
        let m = merge_tables(base, rest);
        if last.0 == key {
            assert forall|k: int| 0 <= k < rest.len() implies rest[k].0 != key by {
                assert(rest[k] == over[k]);
                crate::text::text_lt_irreflexive(key);
                assert(crate::text::text_lt(over[k].0, over[over.len() - 1].0));
            }
            assert forall|k: int| 0 <= k < rest.len() implies over[k].0 != key by {
                assert(rest[k] == over[k]);
            }
            lemma_key_index_is(rest, key, rest.len() as int);
            lemma_key_index_is(over, key, rest.len() as int);
            assert(lookup(m, key) == lookup(base, key));
            match (lookup(m, key), last.1) {
                (Some(TomlView::Table(b)), TomlView::Table(o)) => {
                    lookup_after_put(m, key, TomlView::Table(merge_tables(b, o)), key);
                },
                _ => {
                    lookup_after_put(m, key, last.1, key);
                },
            }
        } else {
            let at = key_index(rest, key, 0);
            if at < rest.len() {
                assert(rest[at] == over[at]);
                assert forall|k: int| 0 <= k < at implies over[k].0 != key by {
                    assert(rest[k] == over[k]);
                }
                lemma_key_index_is(over, key, at);
            } else {
                assert forall|k: int| 0 <= k < over.len() implies over[k].0 != key by {
                    if k < rest.len() {
                        assert(rest[k] == over[k]);
                    }
                }
                lemma_key_index_is(over, key, over.len() as int);
            }
            match (lookup(m, last.0), last.1) {
                (Some(TomlView::Table(b)), TomlView::Table(o)) => {
                    lookup_after_put(m, last.0, TomlView::Table(merge_tables(b, o)), key);
                },
                _ => {
                    lookup_after_put(m, last.0, last.1, key);
                },
            }
        }
    }
}

/// A merge of tables in key order is in key order.
pub proof fn merge_keeps_order(
    base: Seq<(Seq<char>, TomlView)>,
    over: Seq<(Seq<char>, TomlView)>,
)
    requires
        in_key_order(base),
    ensures
        in_key_order(merge_tables(base, over)),
    decreases over.len(),
{
    if over.len() > 0 {
        merge_keeps_order(base, over.drop_last());
        let m = merge_tables(base, over.drop_last());
        let k = over.last().0;
        match (lookup(m, k), over.last().1) {
            (Some(TomlView::Table(b)), TomlView::Table(o)) => {
                put_keeps_order(m, k, TomlView::Table(merge_tables(b, o)));
            },
            _ => {
                put_keeps_order(m, k, over.last().1);
            },
        }
    }
}

/// A disabled layer changes neither the values nor the traces.
pub proof fn disabled_layer_is_quarantined(layers: Seq<LayerView>, l: LayerView)
    requires
        l.disabled_reason is Some,
    ensures
        merged_values(layers.push(l)) == merged_values(layers),
        layer_traces(layers.push(l)) == layer_traces(layers),
{
    assert(layers.push(l).drop_last() =~= layers);
}

/// A plain value that the last enabled layer gives to a key is the value of
/// that key in the merge, whatever the layers below say.
pub proof fn highest_layer_wins(layers: Seq<LayerView>, l: LayerView, key: Seq<char>, value: TomlView)
    requires
        l.disabled_reason is None,
        l.values matches TomlView::Table(o) && in_key_order(o) && lookup(o, key) == Some(value),
        !(value is Table),
        merged_values(layers) is Table,
    ensures
        crate::toml_value::get(merged_values(layers.push(l)), key) == Some(value),
{
    assert(layers.push(l).drop_last() =~= layers);
    match (merged_values(layers), l.values) {
        (TomlView::Table(b), TomlView::Table(o)) => {
            merge_reads(b, o, key);
        },
        _ => {},
    }
}

/// A table that an upper layer gives is merged into the table below it: each key
/// that the upper one has a plain value for has that value, and each key that it
/// does not mention keeps the value from below.
pub proof fn nested_settings_are_merged(
    base: Seq<(Seq<char>, TomlView)>,
    over: Seq<(Seq<char>, TomlView)>,
    key: Seq<char>,
    b: Seq<(Seq<char>, TomlView)>,
    o: Seq<(Seq<char>, TomlView)>,
    sub: Seq<char>,
)
    requires
        in_key_order(over),
        in_key_order(o),
        lookup(base, key) == Some(TomlView::Table(b)),
        lookup(over, key) == Some(TomlView::Table(o)),
    ensures
        lookup(merge_tables(base, over), key) matches Some(TomlView::Table(m)) && {
            &&& m == merge_tables(b, o)
            &&& lookup(o, sub) is None ==> lookup(m, sub) == lookup(b, sub)
            &&& (lookup(o, sub) matches Some(v) && !(v is Table)) ==> lookup(m, sub) == lookup(
                o,
                sub,
            )
            &&& lookup(b, sub) is None ==> lookup(m, sub) == lookup(o, sub)
        },
{
    merge_reads(base, over, key);
    merge_reads(b, o, sub);
}

/// A key that the upper table does not mention keeps its value, one that only
/// the upper table has gets the value from there, and a plain value takes the
/// place of whatever stood below.
pub proof fn plain_settings_are_replaced(
    base: Seq<(Seq<char>, TomlView)>,
    over: Seq<(Seq<char>, TomlView)>,
    key: Seq<char>,
)
    requires
        in_key_order(over),
    ensures
        lookup(over, key) is None ==> lookup(merge_tables(base, over), key) == lookup(base, key),
        lookup(base, key) is None ==> lookup(merge_tables(base, over), key) == lookup(over, key),
        (lookup(over, key) matches Some(v) && !(v is Table)) ==> lookup(
            merge_tables(base, over),
            key,
        ) == lookup(over, key),
        (lookup(base, key) matches Some(v) && !(v is Table)) && lookup(over, key) is Some ==> lookup(
            merge_tables(base, over),
            key,
        ) == lookup(over, key),
{
    merge_reads(base, over, key);
}

/// What an enabled layer does not mention shows through from the layers below
/// it.
pub proof fn lower_layers_show_through(layers: Seq<LayerView>, l: LayerView, key: Seq<char>)
    requires
        l.values matches TomlView::Table(o) && in_key_order(o) && lookup(o, key) is None,
        merged_values(layers) is Table,
    ensures
        crate::toml_value::get(merged_values(layers.push(l)), key) == crate::toml_value::get(
            merged_values(layers),
            key,
        ),
{
    assert(layers.push(l).drop_last() =~= layers);
    match (merged_values(layers), l.values) {
        (TomlView::Table(b), TomlView::Table(o)) => {
            merge_reads(b, o, key);
        },
        _ => {},
    }
}

/// A table that the last enabled layer gives is merged, key by key, into what
/// the layers below say there.
pub proof fn layers_are_merged_key_by_key(
    layers: Seq<LayerView>,
    l: LayerView,
    key: Seq<char>,
    b: Seq<(Seq<char>, TomlView)>,
    o: Seq<(Seq<char>, TomlView)>,
    sub: Seq<char>,
)
    requires
        l.disabled_reason is None,
        l.values matches TomlView::Table(t) && in_key_order(t) && lookup(t, key) == Some(
            TomlView::Table(o),
        ),
        in_key_order(o),
        crate::toml_value::get(merged_values(layers), key) == Some(TomlView::Table(b)),
    ensures
        crate::toml_value::get(merged_values(layers.push(l)), key) matches Some(TomlView::Table(m))
            && {
            &&& lookup(o, sub) is None ==> lookup(m, sub) == lookup(b, sub)
            &&& (lookup(o, sub) matches Some(v) && !(v is Table)) ==> lookup(m, sub) == lookup(
                o,
                sub,
            )
            &&& lookup(b, sub) is None ==> lookup(m, sub) == lookup(o, sub)
        },
{
    assert(layers.push(l).drop_last() =~= layers);
    match (merged_values(layers), l.values) {
        (TomlView::Table(x), TomlView::Table(t)) => {
            nested_settings_are_merged(x, t, key, b, o, sub);
        },
        _ => {},
    }
}

/// A single layer is what it says.
pub proof fn one_layer_says_what_it_says(l: LayerView, key: Seq<char>)
    requires
        l.values matches TomlView::Table(t) && in_key_order(t),
    ensures
        l.disabled_reason is None ==> crate::toml_value::get(merged_values(seq![l]), key)
            == crate::toml_value::get(l.values, key),
        l.disabled_reason is Some ==> crate::toml_value::get(merged_values(seq![l]), key) is None,
{
    let none = Seq::<LayerView>::empty();
    assert(seq![l].drop_last() =~= none);
    assert(merged_values(none) == empty_table());
    match l.values {
        TomlView::Table(t) => {
            merge_reads(Seq::empty(), t, key);
        },
        _ => {},
    }
}

/// Whether a text holds a dot.
pub open spec fn has_dot(s: Seq<char>) -> bool {
    exists|i: int| 0 <= i < s.len() && s[i] == '.'
}

proof fn lemma_nested_traces(
    base: Seq<(Seq<char>, TomlView)>,
    over: Seq<(Seq<char>, TomlView)>,
    prefix: Seq<char>,
    trace: TraceView,
    traces: Map<Seq<char>, TraceView>,
    path: Seq<char>,
)
    requires
        prefix.len() > 0,
        !has_dot(path),
    ensures
        merged_traces(base, over, prefix, trace, traces).dom().contains(path)
            == traces.dom().contains(path),
        merged_traces(base, over, prefix, trace, traces)[path] == traces[path],
    decreases over,
{
    if over.len() > 0 {
        let rest = over.drop_last();
        let k = over.last().0;
        lemma_nested_traces(base, rest, prefix, trace, traces, path);
        let m = merge_tables(base, rest);
        let ts = merged_traces(base, rest, prefix, trace, traces);
        let d = dotted(prefix, k);
        assert(d[prefix.len() as int] == '.');
        assert(d != path) by {
            if d == path {
                assert(has_dot(path));
            }
        }
        match (lookup(m, k), over.last().1) {
            (Some(TomlView::Table(b)), TomlView::Table(o)) => {
                lemma_nested_traces(b, o, d, trace, ts, path);
            },
            _ => {},
        }
    }
}

proof fn lemma_top_traces(
    base: Seq<(Seq<char>, TomlView)>,
    over: Seq<(Seq<char>, TomlView)>,
    trace: TraceView,
    traces: Map<Seq<char>, TraceView>,
    key: Seq<char>,
)
    requires
        in_key_order(over),
        forall|i: int| 0 <= i < over.len() ==> (#[trigger] over[i]).0.len() > 0,
        !has_dot(key),
    ensures
        ({
            let ts = merged_traces(base, over, Seq::empty(), trace, traces);
            &&& (lookup(over, key) matches Some(v) && !(v is Table)) ==> ts.dom().contains(key)
                && ts[key] == trace
            &&& lookup(over, key) is None ==> ts.dom().contains(key) == traces.dom().contains(key)
                && ts[key] == traces[key]
        }),
    decreases over.len(),
{
    lemma_key_index(over, key, 0);
    if over.len() > 0 {
        let rest = over.drop_last();
        let last = over.last();
        assert(last == over[over.len() - 1]);
        assert forall|i: int, j: int| 0 <= i < j < rest.len() implies crate::text::text_lt(
            #[trigger] rest[i].0,
            #[trigger] rest[j].0,
        ) by {
            assert(rest[i] == over[i] && rest[j] == over[j]);
        }
        assert forall|i: int| 0 <= i < rest.len() implies (#[trigger] rest[i]).0.len() > 0 by {
            assert(rest[i] == over[i]);
        }
        lemma_top_traces(base, rest, trace, traces, key);
        lemma_key_index(rest, key, 0);
        let m = merge_tables(base, rest);
        let ts = merged_traces(base, rest, Seq::empty(), trace, traces);
        let i = key_index(over, key, 0);
        if last.0 == key {
            assert forall|k: int| 0 <= k < rest.len() implies over[k].0 != key by {
                crate::text::text_lt_irreflexive(key);
                assert(crate::text::text_lt(over[k].0, over[over.len() - 1].0));
            }
            lemma_key_index_is(over, key, rest.len() as int);
        } else {
            if i < over.len() {
                assert(rest[i] == over[i]);
                assert forall|k: int| 0 <= k < i implies rest[k].0 != key by {
                    assert(rest[k] == over[k]);
                }
                lemma_key_index_is(rest, key, i);
            } else {
                assert forall|k: int| 0 <= k < rest.len() implies rest[k].0 != key by {
                    assert(rest[k] == over[k]);
                }
                lemma_key_index_is(rest, key, rest.len() as int);
            }
            match (lookup(m, last.0), last.1) {
                (Some(TomlView::Table(b)), TomlView::Table(o)) => {
                    assert(dotted(Seq::empty(), last.0) == last.0);
                    lemma_nested_traces(b, o, last.0, trace, ts, key);
                },
                _ => {},
            }
        }
    }
}

/// The trace of a top-level key names the layer that its plain value is from,
/// and a layer that does not mention the key leaves its trace alone.
pub proof fn traces_name_the_layer(layers: Seq<LayerView>, l: LayerView, key: Seq<char>)
    requires
        l.disabled_reason is None,
        l.values matches TomlView::Table(t) && in_key_order(t) && forall|i: int|
            0 <= i < t.len() ==> (#[trigger] t[i]).0.len() > 0,
        merged_values(layers) is Table,
        !has_dot(key),
    ensures
        ({
            let ts = layer_traces(layers.push(l));
            &&& (crate::toml_value::get(l.values, key) matches Some(v) && !(v is Table))
                ==> ts.dom().contains(key) && ts[key].origin == l.source && ts[key].source_version
                == l.fingerprint
            &&& crate::toml_value::get(l.values, key) is None ==> ts.dom().contains(key)
                == layer_traces(layers).dom().contains(key) && ts[key] == layer_traces(layers)[key]
        }),
{
    assert(layers.push(l).drop_last() =~= layers);
    match (merged_values(layers), l.values) {
        (TomlView::Table(b), TomlView::Table(t)) => {
            lemma_top_traces(b, t, layer_trace(l), layer_traces(layers), key);
        },
        _ => {},
    }
}

/// Every disabled layer is warned about, with its reason, and no other.
pub proof fn disabled_layers_are_warned_about(layers: Seq<LayerView>, l: LayerView)
    ensures
        l.disabled_reason is None ==> disabled_warnings(layers.push(l)) == disabled_warnings(layers),
        l.disabled_reason matches Some(reason) ==> {
            let ws = disabled_warnings(layers.push(l));
            &&& ws.drop_last() == disabled_warnings(layers)
            &&& ws.len() == disabled_warnings(layers).len() + 1
            &&& ws.last().level == DiagnosticLevel::Warning
            &&& crate::text::has_suffix(ws.last().message, reason)
            &&& crate::text::has_prefix(ws.last().message, "layer "@ + source_name(l.source))
        },
        disabled_warnings(Seq::empty()) == Seq::<DiagnosticView>::empty(),
{
    assert(layers.push(l).drop_last() =~= layers);
    match l.disabled_reason {
        Some(reason) => {
            let w = disabled_warning(l);
            assert(disabled_warnings(layers).push(w).drop_last() =~= disabled_warnings(layers));
            let head = "layer "@ + source_name(l.source);
            let m = head + " is disabled: "@ + reason;
            assert(m.skip(m.len() - reason.len()) =~= reason);
            assert(m.take(head.len() as int) =~= head);
        },
        None => {},
    }
}

/// The flags of a session come before its workspace, that before a profile, that
/// before the user, that before the enterprise, that before the machine, and
/// that before what is built in.
pub proof fn layers_have_their_order(name: Seq<char>, trusted: bool)
    ensures
        precedence_of(SourceView::Builtin) < precedence_of(SourceView::System),
        precedence_of(SourceView::System) < precedence_of(SourceView::EnterpriseManaged),
        precedence_of(SourceView::EnterpriseManaged) < precedence_of(SourceView::User),
        precedence_of(SourceView::User) < precedence_of(SourceView::Profile(name)),
        precedence_of(SourceView::Profile(name)) < precedence_of(SourceView::Workspace(trusted)),
        precedence_of(SourceView::Workspace(trusted)) < precedence_of(SourceView::SessionFlag),
{
}

} // verus!
