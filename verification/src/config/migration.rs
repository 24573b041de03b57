//! Migration of old configuration schemas to the current one.

use vstd::prelude::*;
use vstd::string::*;

use crate::config::requirements::with_entry;
use crate::config::values::{
    diagnostic, diagnostics_view, empty_table, new_table, report, ConfigDiagnostic, DiagnosticLevel,
    DiagnosticView,
};
use crate::entries::{
    in_key_order, lemma_key_index, lookup, lookup_after_put, lookup_after_without, put,
    put_keeps_order, without, without_keeps_order,
};
use crate::text::owned;
use crate::toml_value::{
    entries_view, find, get, integer_in, lemma_table_view, position, set_key, table_in, take_key,
    take_value, TomlEntry, TomlValue, TomlView,
};

verus! {

/// The current version of the schema.
pub const CURRENT_SCHEMA_VERSION: u32 = 2;

/// What a migration gives.
#[derive(Debug)]
pub struct MigrationResult {
    /// The migrated values.
    pub values: TomlValue,
    /// What was changed.
    pub diagnostics: Vec<ConfigDiagnostic>,
    /// The version that the values had.
    pub source_schema_version: u32,
    /// The version that they have now.
    pub target_schema_version: u32,
}

impl Default for MigrationResult {
    fn default() -> (r: Self)
        ensures
            r.values@ == empty_table(),
            r.diagnostics@.len() == 0,
            r.source_schema_version == CURRENT_SCHEMA_VERSION,
            r.target_schema_version == CURRENT_SCHEMA_VERSION,
    {
        MigrationResult {
            values: new_table(),
            diagnostics: Vec::new(),
            source_schema_version: CURRENT_SCHEMA_VERSION,
            target_schema_version: CURRENT_SCHEMA_VERSION,
        }
    }
}

/// The schema version of a configuration: the integer at `schema_version`,
/// modulo 2^32, or 1 where there is none.
pub open spec fn schema_version(v: TomlView) -> int {
    match integer_in(get(v, "schema_version"@)) {
        Some(i) => i % 0x1_0000_0000,
        None => 1,
    }
}

/// The table in which the value of `from` stands under `to`.
pub open spec fn renamed(
    t: Seq<(Seq<char>, TomlView)>,
    from: Seq<char>,
    to: Seq<char>,
) -> Seq<(Seq<char>, TomlView)> {
    match lookup(t, from) {
        Some(v) => put(without(t, from), to, v),
        None => t,
    }
}

/// The table with `provider.endpoint` renamed to `provider.base_url`.
pub open spec fn with_base_url(t: Seq<(Seq<char>, TomlView)>) -> Seq<(Seq<char>, TomlView)> {
    match table_in(lookup(t, "provider"@)) {
        Some(p) => if lookup(p, "endpoint"@) is Some {
            put(t, "provider"@, TomlView::Table(renamed(p, "endpoint"@, "base_url"@)))
        } else {
            t
        },
        None => t,
    }
}

/// The table with the value of `from` moved to `key.sub`. Where `key` holds
/// something else than a table, the value is dropped.
pub open spec fn moved_under(
    t: Seq<(Seq<char>, TomlView)>,
    from: Seq<char>,
    key: Seq<char>,
    sub: Seq<char>,
) -> Seq<(Seq<char>, TomlView)> {
    match lookup(t, from) {
        Some(v) => {
            let w = with_entry(without(t, from), key);
            match table_in(lookup(w, key)) {
                Some(s) => put(w, key, TomlView::Table(put(s, sub, v))),
                None => w,
            }
        },
        None => t,
    }
}

/// Whether `moved_under` finds a place for the value.
pub open spec fn moves_under(
    t: Seq<(Seq<char>, TomlView)>,
    from: Seq<char>,
    key: Seq<char>,
) -> bool {
    lookup(t, from) is Some && table_in(lookup(with_entry(without(t, from), key), key)) is Some
}

/// The table after the model was renamed.
pub open spec fn model_step(t: Seq<(Seq<char>, TomlView)>) -> Seq<(Seq<char>, TomlView)> {
    renamed(t, "model"@, "model_id"@)
}

/// The table after the endpoint was renamed too.
pub open spec fn endpoint_step(t: Seq<(Seq<char>, TomlView)>) -> Seq<(Seq<char>, TomlView)> {
    with_base_url(model_step(t))
}

/// The table after the MCP servers were moved too.
pub open spec fn servers_step(t: Seq<(Seq<char>, TomlView)>) -> Seq<(Seq<char>, TomlView)> {
    moved_under(endpoint_step(t), "mcp_servers"@, "mcp"@, "servers"@)
}

/// The table of version 2 that a table of version 1 becomes.
pub open spec fn upgraded(t: Seq<(Seq<char>, TomlView)>) -> Seq<(Seq<char>, TomlView)> {
    moved_under(servers_step(t), "max_turns"@, "budget"@, "max_turns"@)
}

/// A note about a change.
pub open spec fn note(changed: bool, key_path: Seq<char>, message: Seq<char>) -> Seq<
    DiagnosticView,
> {
    if changed {
        seq![diagnostic(DiagnosticLevel::Info, key_path, message)]
    } else {
        Seq::empty()
    }
}

/// The warning about a key of the strict zone.
pub open spec fn strict_warning(t: Seq<(Seq<char>, TomlView)>, key: Seq<char>) -> Seq<
    DiagnosticView,
> {
    if lookup(t, key) is Some {
        seq![
            diagnostic(
                DiagnosticLevel::Warning,
                key,
                "key '"@ + key
                    + "' is in strict zone — unknown subkeys will error in strict mode"@,
            ),
        ]
    } else {
        Seq::empty()
    }
}

/// What the upgrade to version 2 reports.
pub open spec fn upgrade_notes(t: Seq<(Seq<char>, TomlView)>) -> Seq<DiagnosticView> {
    let provider = table_in(lookup(model_step(t), "provider"@));
    let u = upgraded(t);
    note(
        lookup(t, "model"@) is Some && lookup(without(t, "model"@), "model_id"@) is None,
        "model_id"@,
        "migrated 'model' → 'model_id' (v1→v2)"@,
    ) + note(
        provider is Some && lookup(provider->0, "endpoint"@) is Some,
        "provider.base_url"@,
        "migrated 'provider.endpoint' → 'provider.base_url' (v1→v2)"@,
    ) + note(
        moves_under(endpoint_step(t), "mcp_servers"@, "mcp"@),
        "mcp.servers"@,
        "migrated 'mcp_servers' → 'mcp.servers' (v1→v2)"@,
    ) + note(
        moves_under(servers_step(t), "max_turns"@, "budget"@),
        "budget.max_turns"@,
        "migrated 'max_turns' → 'budget.max_turns' (v1→v2)"@,
    ) + strict_warning(u, "permissions"@) + strict_warning(u, "sandbox"@) + strict_warning(
        u,
        "credential"@,
    ) + strict_warning(u, "managed"@)
}

/// The values with the current version stamped in.
pub open spec fn stamped(v: TomlView) -> TomlView {
    match v {
        TomlView::Table(t) => TomlView::Table(
            put(t, "schema_version"@, TomlView::Integer(CURRENT_SCHEMA_VERSION as int)),
        ),
        _ => v,
    }
}

/// The values of the current schema.
pub open spec fn migrated(v: TomlView) -> TomlView {
    match v {
        TomlView::Table(t) => if schema_version(v) == 1 {
            stamped(TomlView::Table(upgraded(t)))
        } else {
            stamped(v)
        },
        _ => v,
    }
}

/// What a migration reports.
pub open spec fn migration_notes(v: TomlView) -> Seq<DiagnosticView> {
    match v {
        TomlView::Table(t) => if schema_version(v) == 1 {
            upgrade_notes(t)
        } else {
            Seq::empty()
        },
        _ => Seq::empty(),
    }
}

/// Migrates values to the current schema. Values without a version are of
/// version 1.
pub fn migrate(values: TomlValue) -> (r: MigrationResult)
    ensures
        r.values@ == migrated(values@),
        diagnostics_view(r.diagnostics@) == migration_notes(values@),
        r.source_schema_version == schema_version(values@),
        r.target_schema_version == CURRENT_SCHEMA_VERSION,
{
    let source_version: u32 = extract_schema_version(&values);
    let mut diagnostics: Vec<ConfigDiagnostic> = Vec::new();
    assert(diagnostics_view(diagnostics@) =~= Seq::empty());
    let mut current = values;
    if let TomlValue::Table(mut table) = current {
        proof {
            lemma_table_view(table);
        }
        if source_version == 1 {
            diagnostics = migrate_v1_to_v2(&mut table);
        }
        set_key(&mut table, "schema_version", TomlValue::Integer(CURRENT_SCHEMA_VERSION as i64));
        proof {
            lemma_table_view(table);
        }
        current = TomlValue::Table(table);
    }
    MigrationResult {
        values: current,
        diagnostics,
        source_schema_version: source_version,
        target_schema_version: CURRENT_SCHEMA_VERSION,
    }
}

/// The remainder of `v` modulo 2^32.
fn low_word(v: i64) -> (r: u32)
    ensures
        r == v % 0x1_0000_0000,
{
    if v >= 0 {
        (v % 0x1_0000_0000) as u32
    } else {
        let w: i64 = -(v + 1);
        let low: i64 = w % 0x1_0000_0000;
        let r: i64 = 0xFFFF_FFFF - low;
        proof {
            let q = w as int / 0x1_0000_0000;
            assert(w == q * 0x1_0000_0000 + low);
            assert(v == (-q - 1) * 0x1_0000_0000 + r) by (nonlinear_arith)
                requires
                    w == q * 0x1_0000_0000 + low,
                    w == -(v + 1),
                    r == 0xFFFF_FFFF - low,
            ;
            vstd::arithmetic::div_mod::lemma_fundamental_div_mod_converse(
                v as int,
                0x1_0000_0000,
                -q - 1,
                r as int,
            );
        }
        r as u32
    }
}

/// The schema version of `values`.
fn extract_schema_version(values: &TomlValue) -> (r: u32)
    ensures
        r == schema_version(values@),
{
    match values.get("schema_version") {
        Some(v) => match v.as_integer() {
            Some(i) => low_word(i),
            None => 1,
        },
        None => 1,
    }
}

/// Renames the key `from` to `to`; says whether it was there and `to` was not.
fn rename(t: &mut Vec<TomlEntry>, from: &str, to: &str) -> (r: (bool, bool))
    ensures
        entries_view(final(t)@) == renamed(entries_view(old(t)@), from@, to@),
        r.0 == (lookup(entries_view(old(t)@), from@) is Some),
        r.1 == (lookup(entries_view(old(t)@), from@) is Some && lookup(
            without(entries_view(old(t)@), from@),
            to@,
        ) is None),
{
    match take_key(t, from) {
        Some(v) => {
            let fresh = find(t, to).is_none();
            set_key(t, to, v);
            (true, fresh)
        },
        None => {
            proof {
                lemma_key_index(entries_view(old(t)@), from@, 0);
            }
            (false, false)
        },
    }
}

/// Moves the value of `from` to `key.sub`; says whether it found a place.
fn move_under(t: &mut Vec<TomlEntry>, from: &str, key: &str, sub: &str) -> (r: bool)
    ensures
        entries_view(final(t)@) == moved_under(entries_view(old(t)@), from@, key@, sub@),
        r == moves_under(entries_view(old(t)@), from@, key@),
{
    let ghost t0 = entries_view(t@);
    match take_key(t, from) {
        Some(v) => {
            let ghost w0 = entries_view(t@);
            if position(t, key) >= t.len() {
                set_key(t, key, new_table());
                proof {
                    lookup_after_put(w0, key@, empty_table(), key@);
                }
            }
            let ghost w = entries_view(t@);
            assert(w == with_entry(without(t0, from@), key@));
            let at: usize = position(t, key);
            match take_value(&mut t[at].value) {
                TomlValue::Table(mut s) => {
                    proof {
                        lemma_table_view(s);
                    }
                    let ghost s0 = entries_view(s@);
                    set_key(&mut s, sub, v);
                    proof {
                        lemma_table_view(s);
                    }
                    t[at].value = TomlValue::Table(s);
                    assert(entries_view(t@) =~= put(w, key@, TomlView::Table(put(s0, sub@, v@))));
                    true
                },
                other => {
                    t[at].value = other;
                    assert(entries_view(t@) =~= w);
                    false
                },
            }
        },
        None => {
            proof {
                lemma_key_index(t0, from@, 0);
            }
            false
        },
    }
}

/// Warns about a key of the strict zone.
fn warn_strict(t: &Vec<TomlEntry>, key: &str, diags: &mut Vec<ConfigDiagnostic>)
    ensures
        diagnostics_view(final(diags)@) == diagnostics_view(old(diags)@) + strict_warning(
            entries_view(t@),
            key@,
        ),
{
    let ghost d0 = diagnostics_view(diags@);
    if position(t, key) < t.len() {
        let mut m = owned("key '");
        m.append(key);
        m.append("' is in strict zone — unknown subkeys will error in strict mode");
        report(diags, DiagnosticLevel::Warning, key, m);
    }
    assert(diagnostics_view(diags@) =~= d0 + strict_warning(entries_view(t@), key@));
}

/// Appends a note where something changed.
fn add_note(diags: &mut Vec<ConfigDiagnostic>, changed: bool, key_path: &str, message: &str)
    ensures
        diagnostics_view(final(diags)@) == diagnostics_view(old(diags)@) + note(
            changed,
            key_path@,
            message@,
        ),
{
    let ghost d0 = diagnostics_view(diags@);
    if changed {
        report(diags, DiagnosticLevel::Info, key_path, owned(message));
    }
    assert(diagnostics_view(diags@) =~= d0 + note(changed, key_path@, message@));
}

/// Upgrades a table of version 1 to version 2.
fn migrate_v1_to_v2(table: &mut Vec<TomlEntry>) -> (diagnostics: Vec<ConfigDiagnostic>)
    ensures
        entries_view(final(table)@) == upgraded(entries_view(old(table)@)),
        diagnostics_view(diagnostics@) == upgrade_notes(entries_view(old(table)@)),
{
    let ghost t0 = entries_view(table@);
    let mut diagnostics: Vec<ConfigDiagnostic> = Vec::new();
    assert(diagnostics_view(diagnostics@) =~= Seq::empty());

    let (_, fresh) = rename(table, "model", "model_id");
    add_note(&mut diagnostics, fresh, "model_id", "migrated 'model' → 'model_id' (v1→v2)");

    let ghost t1 = entries_view(table@);
    let mut changed = false;
    let at: usize = position(table, "provider");
    if at < table.len() {
        match take_value(&mut table[at].value) {
            TomlValue::Table(mut p) => {
                proof {
                    lemma_table_view(p);
                }
                let ghost p0 = entries_view(p@);
                let (found, _) = rename(&mut p, "endpoint", "base_url");
                changed = found;
                proof {
                    lemma_table_view(p);
                }
                table[at].value = TomlValue::Table(p);
                assert(entries_view(table@) =~= with_base_url(t1));
            },
            other => {
                table[at].value = other;
                assert(entries_view(table@) =~= t1);
            },
        }
    }
    assert(entries_view(table@) == endpoint_step(t0));
    add_note(
        &mut diagnostics,
        changed,
        "provider.base_url",
        "migrated 'provider.endpoint' → 'provider.base_url' (v1→v2)",
    );

    let moved = move_under(table, "mcp_servers", "mcp", "servers");
    add_note(
        &mut diagnostics,
        moved,
        "mcp.servers",
        "migrated 'mcp_servers' → 'mcp.servers' (v1→v2)",
    );

    let moved = move_under(table, "max_turns", "budget", "max_turns");
    add_note(
        &mut diagnostics,
        moved,
        "budget.max_turns",
        "migrated 'max_turns' → 'budget.max_turns' (v1→v2)",
    );

    warn_strict(table, "permissions", &mut diagnostics);
    warn_strict(table, "sandbox", &mut diagnostics);
    warn_strict(table, "credential", &mut diagnostics);
    warn_strict(table, "managed", &mut diagnostics);
    assert(diagnostics_view(diagnostics@) =~= upgrade_notes(t0));
    diagnostics
}

/// Migrated values are of the current version.
pub proof fn migration_stamps_current_version(t: Seq<(Seq<char>, TomlView)>)
    ensures
        schema_version(migrated(TomlView::Table(t))) == CURRENT_SCHEMA_VERSION,
{
    let v = TomlView::Table(t);
    let stamp = TomlView::Integer(CURRENT_SCHEMA_VERSION as int);
    lookup_after_put(upgraded(t), "schema_version"@, stamp, "schema_version"@);
    lookup_after_put(t, "schema_version"@, stamp, "schema_version"@);
}

/// Migrating migrated values changes nothing and reports nothing.
pub proof fn migration_is_idempotent(v: TomlView)
    ensures
        migrated(migrated(v)) == migrated(v),
        migration_notes(migrated(v)) == Seq::<DiagnosticView>::empty(),
{
    match v {
        TomlView::Table(t) => {
            migration_stamps_current_version(t);
            match migrated(v) {
                TomlView::Table(m) => {
                    let stamp = TomlView::Integer(CURRENT_SCHEMA_VERSION as int);
                    lookup_after_put(upgraded(t), "schema_version"@, stamp, "schema_version"@);
                    lookup_after_put(t, "schema_version"@, stamp, "schema_version"@);
                    lemma_key_index(m, "schema_version"@, 0);
                    assert(put(m, "schema_version"@, stamp) =~= m);
                },
                _ => {},
            }
        },
        _ => {},
    }
}

/// Values of the current version come through unchanged.
pub proof fn current_values_stay(t: Seq<(Seq<char>, TomlView)>)
    requires
        lookup(t, "schema_version"@) == Some(TomlView::Integer(CURRENT_SCHEMA_VERSION as int)),
    ensures
        migrated(TomlView::Table(t)) == TomlView::Table(t),
        migration_notes(TomlView::Table(t)) == Seq::<DiagnosticView>::empty(),
{
    lemma_key_index(t, "schema_version"@, 0);
    assert(put(t, "schema_version"@, TomlView::Integer(2)) =~= t);
}

proof fn lemma_renamed(
    t: Seq<(Seq<char>, TomlView)>,
    from: Seq<char>,
    to: Seq<char>,
    other: Seq<char>,
)
    requires
        in_key_order(t),
        from != to,
    ensures
        in_key_order(renamed(t, from, to)),
        lookup(renamed(t, from, to), from) is None,
        lookup(renamed(t, from, to), to) == (if lookup(t, from) is Some {
            lookup(t, from)
        } else {
            lookup(t, to)
        }),
        other != from && other != to ==> lookup(renamed(t, from, to), other) == lookup(t, other),
{
    match lookup(t, from) {
        Some(v) => {
            let w = without(t, from);
            lookup_after_without(t, from, other);
            lookup_after_without(t, from, to);
            without_keeps_order(t, from);
            lookup_after_put(w, to, v, from);
            lookup_after_put(w, to, v, other);
            put_keeps_order(w, to, v);
        },
        None => {},
    }
}

proof fn lemma_moved_under(
    t: Seq<(Seq<char>, TomlView)>,
    from: Seq<char>,
    key: Seq<char>,
    sub: Seq<char>,
    other: Seq<char>,
)
    requires
        in_key_order(t),
        from != key,
    ensures
        in_key_order(moved_under(t, from, key, sub)),
        lookup(moved_under(t, from, key, sub), from) is None,
        other != from && other != key ==> lookup(moved_under(t, from, key, sub), other) == lookup(
            t,
            other,
        ),
        match lookup(t, from) {
            None => lookup(moved_under(t, from, key, sub), key) == lookup(t, key),
            Some(v) => lookup(moved_under(t, from, key, sub), key) == Some(
                match lookup(t, key) {
                    Some(TomlView::Table(s)) => TomlView::Table(put(s, sub, v)),
                    Some(x) => x,
                    None => TomlView::Table(put(Seq::empty(), sub, v)),
                },
            ),
        },
{
    match lookup(t, from) {
        Some(v) => {
            let w0 = without(t, from);
            lookup_after_without(t, from, other);
            lookup_after_without(t, from, key);
            without_keeps_order(t, from);
            lookup_after_put(w0, key, empty_table(), from);
            lookup_after_put(w0, key, empty_table(), other);
            put_keeps_order(w0, key, empty_table());
            let w = with_entry(w0, key);
            match table_in(lookup(w, key)) {
                Some(s) => {
                    let x = TomlView::Table(put(s, sub, v));
                    lookup_after_put(w, key, x, from);
                    lookup_after_put(w, key, x, other);
                    put_keeps_order(w, key, x);
                },
                None => {},
            }
        },
        None => {},
    }
}

proof fn lemma_keys()
    ensures
        "model"@.len() == 5,
        "model_id"@.len() == 8,
        "provider"@.len() == 8,
        "mcp_servers"@.len() == 11,
        "mcp"@.len() == 3,
        "max_turns"@.len() == 9,
        "budget"@.len() == 6,
        "schema_version"@.len() == 14,
        "model_id"@ != "provider"@,
        "endpoint"@ != "base_url"@,
{
    reveal_strlit("model");
    reveal_strlit("model_id");
    reveal_strlit("provider");
    reveal_strlit("mcp_servers");
    reveal_strlit("mcp");
    reveal_strlit("max_turns");
    reveal_strlit("budget");
    reveal_strlit("schema_version");
    reveal_strlit("endpoint");
    reveal_strlit("base_url");
    assert("model_id"@[0] != "provider"@[0]);
    assert("endpoint"@[0] != "base_url"@[0]);
}

/// Every read of a migrated table, key by key.
proof fn lemma_migrated_reads(t: Seq<(Seq<char>, TomlView)>, key: Seq<char>)
    requires
        in_key_order(t),
        schema_version(TomlView::Table(t)) == 1,
    ensures
        migrated(TomlView::Table(t)) matches TomlView::Table(m) && {
            &&& lookup(m, "model"@) is None
            &&& lookup(m, "model_id"@) == (if lookup(t, "model"@) is Some {
                lookup(t, "model"@)
            } else {
                lookup(t, "model_id"@)
            })
            &&& lookup(m, "provider"@) == (match lookup(t, "provider"@) {
                Some(TomlView::Table(p)) => Some(
                    TomlView::Table(renamed(p, "endpoint"@, "base_url"@)),
                ),
                other => other,
            })
            &&& lookup(m, "mcp_servers"@) is None
            &&& lookup(m, "mcp"@) == (match lookup(t, "mcp_servers"@) {
                None => lookup(t, "mcp"@),
                Some(v) => Some(
                    match lookup(t, "mcp"@) {
                        Some(TomlView::Table(s)) => TomlView::Table(put(s, "servers"@, v)),
                        Some(x) => x,
                        None => TomlView::Table(put(Seq::empty(), "servers"@, v)),
                    },
                ),
            })
            &&& lookup(m, "max_turns"@) is None
            &&& lookup(m, "budget"@) == (match lookup(t, "max_turns"@) {
                None => lookup(t, "budget"@),
                Some(v) => Some(
                    match lookup(t, "budget"@) {
                        Some(TomlView::Table(s)) => TomlView::Table(put(s, "max_turns"@, v)),
                        Some(x) => x,
                        None => TomlView::Table(put(Seq::empty(), "max_turns"@, v)),
                    },
                ),
            })
            &&& lookup(m, "schema_version"@) == Some(TomlView::Integer(2))
            &&& !is_migrated_key(key) ==> lookup(m, key) == lookup(t, key)
        },
{
    lemma_keys();
    let ks = seq![
        "model"@,
        "model_id"@,
        "provider"@,
        "mcp_servers"@,
        "mcp"@,
        "max_turns"@,
        "budget"@,
        "schema_version"@,
        key,
    ];
    let a = model_step(t);
    let b = endpoint_step(t);
    let c = servers_step(t);
    let d = upgraded(t);
    let stamp = TomlView::Integer(CURRENT_SCHEMA_VERSION as int);
    let m = put(d, "schema_version"@, stamp);
    assert forall|i: int| 0 <= i < ks.len() implies {
        &&& (#[trigger] ks[i] != "model"@ && ks[i] != "model_id"@ ==> lookup(a, ks[i]) == lookup(
            t,
            ks[i],
        ))
        &&& (ks[i] != "provider"@ ==> lookup(b, ks[i]) == lookup(a, ks[i]))
        &&& in_key_order(a)
        &&& in_key_order(b)
    } by {
        lemma_renamed(t, "model"@, "model_id"@, ks[i]);
        match table_in(lookup(a, "provider"@)) {
            Some(p) => {
                let q = TomlView::Table(renamed(p, "endpoint"@, "base_url"@));
                lookup_after_put(a, "provider"@, q, ks[i]);
                put_keeps_order(a, "provider"@, q);
            },
            None => {},
        }
    }
    assert(ks[0] == "model"@ && ks[1] == "model_id"@ && ks[2] == "provider"@ && ks[3]
        == "mcp_servers"@ && ks[4] == "mcp"@ && ks[5] == "max_turns"@ && ks[6] == "budget"@ && ks[7]
        == "schema_version"@ && ks[8] == key);
    lemma_renamed(t, "model"@, "model_id"@, key);
    match table_in(lookup(a, "provider"@)) {
        Some(p) => {
            let q = TomlView::Table(renamed(p, "endpoint"@, "base_url"@));
            lookup_after_put(a, "provider"@, q, "provider"@);
        },
        None => {},
    }
    assert forall|i: int| 0 <= i < ks.len() implies {
        &&& (#[trigger] ks[i] != "mcp_servers"@ && ks[i] != "mcp"@ ==> lookup(c, ks[i]) == lookup(
            b,
            ks[i],
        ))
        &&& (ks[i] != "max_turns"@ && ks[i] != "budget"@ ==> lookup(d, ks[i]) == lookup(c, ks[i]))
        &&& (ks[i] != "schema_version"@ ==> lookup(m, ks[i]) == lookup(d, ks[i]))
        &&& in_key_order(c)
    } by {
        lemma_moved_under(b, "mcp_servers"@, "mcp"@, "servers"@, ks[i]);
        lemma_moved_under(c, "max_turns"@, "budget"@, "max_turns"@, ks[i]);
        lookup_after_put(d, "schema_version"@, stamp, ks[i]);
    }
    lemma_moved_under(b, "mcp_servers"@, "mcp"@, "servers"@, key);
    lemma_moved_under(c, "max_turns"@, "budget"@, "max_turns"@, key);
    lookup_after_put(d, "schema_version"@, stamp, "schema_version"@);
}

/// The top-level keys that a migration is about.
pub open spec fn is_migrated_key(key: Seq<char>) -> bool {
    key == "model"@ || key == "model_id"@ || key == "provider"@ || key == "mcp_servers"@ || key
        == "mcp"@ || key == "max_turns"@ || key == "budget"@ || key == "schema_version"@
}

/// Every top-level key that the migration is not about keeps its value.
pub proof fn migration_keeps_other_keys(t: Seq<(Seq<char>, TomlView)>, key: Seq<char>)
    requires
        in_key_order(t),
        key != "model"@,
        key != "model_id"@,
        key != "provider"@,
        key != "mcp_servers"@,
        key != "mcp"@,
        key != "max_turns"@,
        key != "budget"@,
        key != "schema_version"@,
    ensures
        get(migrated(TomlView::Table(t)), key) == lookup(t, key),
{
    let v = TomlView::Table(t);
    if schema_version(v) == 1 {
        lemma_migrated_reads(t, key);
    } else {
        lookup_after_put(
            t,
            "schema_version"@,
            TomlView::Integer(CURRENT_SCHEMA_VERSION as int),
            key,
        );
    }
}

/// In values of version 1 the name of the model stands under `model_id`
/// afterwards, and nowhere else.
pub proof fn the_model_is_renamed(t: Seq<(Seq<char>, TomlView)>)
    requires
        in_key_order(t),
        schema_version(TomlView::Table(t)) == 1,
    ensures
        get(migrated(TomlView::Table(t)), "model"@) is None,
        get(migrated(TomlView::Table(t)), "model_id"@) == (if lookup(t, "model"@) is Some {
            lookup(t, "model"@)
        } else {
            lookup(t, "model_id"@)
        }),
{
    lemma_migrated_reads(t, "model"@);
}

/// In values of version 1 the endpoint of the provider stands under `base_url`
/// afterwards, and everything else that is said of the provider stays.
pub proof fn the_endpoint_is_renamed(
    t: Seq<(Seq<char>, TomlView)>,
    p: Seq<(Seq<char>, TomlView)>,
    key: Seq<char>,
)
    requires
        in_key_order(t),
        in_key_order(p),
        schema_version(TomlView::Table(t)) == 1,
        lookup(t, "provider"@) == Some(TomlView::Table(p)),
    ensures
        get(migrated(TomlView::Table(t)), "provider"@) matches Some(TomlView::Table(q)) && {
            &&& lookup(q, "endpoint"@) is None
            &&& lookup(p, "endpoint"@) is Some ==> lookup(q, "base_url"@) == lookup(
                p,
                "endpoint"@,
            )
            &&& lookup(p, "endpoint"@) is None ==> q == p
            &&& key != "endpoint"@ && key != "base_url"@ ==> lookup(q, key) == lookup(p, key)
        },
{
    lemma_keys();
    lemma_migrated_reads(t, "provider"@);
    lemma_renamed(p, "endpoint"@, "base_url"@, key);
}

/// A provider that is no table stays as it is.
pub proof fn named_providers_stay(t: Seq<(Seq<char>, TomlView)>)
    requires
        in_key_order(t),
        schema_version(TomlView::Table(t)) == 1,
        !(lookup(t, "provider"@) matches Some(TomlView::Table(_))),
    ensures
        get(migrated(TomlView::Table(t)), "provider"@) == lookup(t, "provider"@),
{
    lemma_migrated_reads(t, "provider"@);
}

/// In values of version 1 the MCP servers stand under `mcp.servers` afterwards,
/// and everything else that is said of MCP stays. Where `mcp` is no table it
/// stays as it is.
pub proof fn the_servers_are_moved(t: Seq<(Seq<char>, TomlView)>, v: TomlView, key: Seq<char>)
    requires
        in_key_order(t),
        schema_version(TomlView::Table(t)) == 1,
        lookup(t, "mcp_servers"@) == Some(v),
    ensures
        get(migrated(TomlView::Table(t)), "mcp_servers"@) is None,
        match lookup(t, "mcp"@) {
            Some(TomlView::Table(s)) => get(migrated(TomlView::Table(t)), "mcp"@) matches Some(
                TomlView::Table(q),
            ) && lookup(q, "servers"@) == Some(v) && (key != "servers"@ ==> lookup(q, key)
                == lookup(s, key)),
            Some(x) => get(migrated(TomlView::Table(t)), "mcp"@) == Some(x),
            None => get(migrated(TomlView::Table(t)), "mcp"@) matches Some(TomlView::Table(q))
                && lookup(q, "servers"@) == Some(v) && (key != "servers"@ ==> lookup(q, key)
                is None),
        },
{
    lemma_migrated_reads(t, "mcp"@);
    lookup_after_put(Seq::empty(), "servers"@, v, key);
    match lookup(t, "mcp"@) {
        Some(TomlView::Table(s)) => {
            lookup_after_put(s, "servers"@, v, key);
        },
        _ => {},
    }
}

/// In values of version 1 the number of turns stands under `budget.max_turns`
/// afterwards, and everything else that is said of the budget stays. Where
/// `budget` is no table it stays as it is.
pub proof fn the_turns_are_moved(t: Seq<(Seq<char>, TomlView)>, v: TomlView, key: Seq<char>)
    requires
        in_key_order(t),
        schema_version(TomlView::Table(t)) == 1,
        lookup(t, "max_turns"@) == Some(v),
    ensures
        get(migrated(TomlView::Table(t)), "max_turns"@) is None,
        match lookup(t, "budget"@) {
            Some(TomlView::Table(s)) => get(migrated(TomlView::Table(t)), "budget"@) matches Some(
                TomlView::Table(q),
            ) && lookup(q, "max_turns"@) == Some(v) && (key != "max_turns"@ ==> lookup(q, key)
                == lookup(s, key)),
            Some(x) => get(migrated(TomlView::Table(t)), "budget"@) == Some(x),
            None => get(migrated(TomlView::Table(t)), "budget"@) matches Some(TomlView::Table(q))
                && lookup(q, "max_turns"@) == Some(v) && (key != "max_turns"@ ==> lookup(q, key)
                is None),
        },
{
    lemma_migrated_reads(t, "budget"@);
    lookup_after_put(Seq::empty(), "max_turns"@, v, key);
    match lookup(t, "budget"@) {
        Some(TomlView::Table(s)) => {
            lookup_after_put(s, "max_turns"@, v, key);
        },
        _ => {},
    }
}

/// Where values of version 1 have nothing to move, what they say of MCP and of
/// the budget stays.
pub proof fn nothing_else_is_moved(t: Seq<(Seq<char>, TomlView)>)
    requires
        in_key_order(t),
        schema_version(TomlView::Table(t)) == 1,
    ensures
        lookup(t, "mcp_servers"@) is None ==> get(migrated(TomlView::Table(t)), "mcp"@) == lookup(
            t,
            "mcp"@,
        ),
        lookup(t, "max_turns"@) is None ==> get(migrated(TomlView::Table(t)), "budget"@) == lookup(
            t,
            "budget"@,
        ),
{
    lemma_migrated_reads(t, "mcp"@);
}

/// Values of another version keep every key but the version.
pub proof fn other_versions_are_only_stamped(t: Seq<(Seq<char>, TomlView)>, key: Seq<char>)
    requires
        schema_version(TomlView::Table(t)) != 1,
        key != "schema_version"@,
    ensures
        get(migrated(TomlView::Table(t)), key) == lookup(t, key),
        migration_notes(TomlView::Table(t)) == Seq::<DiagnosticView>::empty(),
{
    lookup_after_put(t, "schema_version"@, TomlView::Integer(CURRENT_SCHEMA_VERSION as int), key);
}

/// Values without a version are of version 1, and others of the version that
/// they state.
pub proof fn missing_versions_are_the_first(t: Seq<(Seq<char>, TomlView)>, n: u32)
    ensures
        lookup(t, "schema_version"@) is None ==> schema_version(TomlView::Table(t)) == 1,
        lookup(t, "schema_version"@) == Some(TomlView::Integer(n as int)) ==> schema_version(
            TomlView::Table(t),
        ) == n,
{
}

proof fn lemma_contains_either<T>(a: Seq<T>, b: Seq<T>, x: T)
    ensures
        (a + b).contains(x) <==> a.contains(x) || b.contains(x),
{
    if a.contains(x) {
        let i = choose|i: int| 0 <= i < a.len() && a[i] == x;
        assert((a + b)[i] == x);
    }
    if b.contains(x) {
        let i = choose|i: int| 0 <= i < b.len() && b[i] == x;
        assert((a + b)[a.len() + i] == x);
    }
    if (a + b).contains(x) {
        let i = choose|i: int| 0 <= i < (a + b).len() && (a + b)[i] == x;
        if i < a.len() {
            assert(a[i] == x);
        } else {
            assert(b[i - a.len()] == x);
        }
    }
}

proof fn lemma_noted(changed: bool, path: Seq<char>, message: Seq<char>, x: DiagnosticView)
    ensures
        note(changed, path, message).contains(x) <==> changed && x == diagnostic(
            DiagnosticLevel::Info,
            path,
            message,
        ),
{
    if changed {
        assert(note(changed, path, message)[0] == diagnostic(DiagnosticLevel::Info, path, message));
    }
}

proof fn lemma_warned(t: Seq<(Seq<char>, TomlView)>, key: Seq<char>, x: DiagnosticView)
    ensures
        strict_warning(t, key).contains(x) ==> lookup(t, key) is Some && x.key_path == key
            && x.level == DiagnosticLevel::Warning,
        lookup(t, key) is Some ==> exists|d: DiagnosticView| #[trigger]
            strict_warning(t, key).contains(d) && d.key_path == key && d.level
                == DiagnosticLevel::Warning,
{
    if lookup(t, key) is Some {
        let d = strict_warning(t, key)[0];
        assert(strict_warning(t, key).contains(d));
    }
}

/// What is renamed or moved is reported under its new path, and what is
/// reported was renamed or moved. Besides there are warnings, about keys of the
/// strict zone that are there.
pub proof fn migrations_are_reported(t: Seq<(Seq<char>, TomlView)>, x: DiagnosticView)
    requires
        in_key_order(t),
        schema_version(TomlView::Table(t)) == 1,
    ensures
        ({
            let notes = migration_notes(TomlView::Table(t));
            let endpoint = lookup(t, "provider"@) matches Some(TomlView::Table(p)) && lookup(
                p,
                "endpoint"@,
            ) is Some;
            let model = lookup(t, "model"@) is Some && lookup(t, "model_id"@) is None;
            let servers = lookup(t, "mcp_servers"@) is Some && (lookup(t, "mcp"@) is None || (
            lookup(t, "mcp"@) matches Some(TomlView::Table(_))));
            let turns = lookup(t, "max_turns"@) is Some && (lookup(t, "budget"@) is None || (
            lookup(t, "budget"@) matches Some(TomlView::Table(_))));
            &&& model ==> notes.contains(
                diagnostic(
                    DiagnosticLevel::Info,
                    "model_id"@,
                    "migrated 'model' → 'model_id' (v1→v2)"@,
                ),
            )
            &&& endpoint ==> notes.contains(
                diagnostic(
                    DiagnosticLevel::Info,
                    "provider.base_url"@,
                    "migrated 'provider.endpoint' → 'provider.base_url' (v1→v2)"@,
                ),
            )
            &&& servers ==> notes.contains(
                diagnostic(
                    DiagnosticLevel::Info,
                    "mcp.servers"@,
                    "migrated 'mcp_servers' → 'mcp.servers' (v1→v2)"@,
                ),
            )
            &&& turns ==> notes.contains(
                diagnostic(
                    DiagnosticLevel::Info,
                    "budget.max_turns"@,
                    "migrated 'max_turns' → 'budget.max_turns' (v1→v2)"@,
                ),
            )
            &&& notes.contains(x) && x.level == DiagnosticLevel::Info ==> {
                ||| model && x.key_path == "model_id"@
                ||| endpoint && x.key_path == "provider.base_url"@
                ||| servers && x.key_path == "mcp.servers"@
                ||| turns && x.key_path == "budget.max_turns"@
            }
            &&& notes.contains(x) && x.level != DiagnosticLevel::Info ==> {
                &&& x.level == DiagnosticLevel::Warning
                &&& x.key_path == "permissions"@ || x.key_path == "sandbox"@ || x.key_path
                    == "credential"@ || x.key_path == "managed"@
                &&& lookup(t, x.key_path) is Some
            }
        }),
{
    lemma_keys();
    let a = model_step(t);
    let b = endpoint_step(t);
    let c = servers_step(t);
    let u = upgraded(t);
    lemma_step_reads(t);
    lemma_strict_keys();
    let m = lookup(t, "model"@) is Some && lookup(without(t, "model"@), "model_id"@) is None;
    let provider = table_in(lookup(a, "provider"@));
    let e = provider is Some && lookup(provider->0, "endpoint"@) is Some;
    let n1 = note(m, "model_id"@, "migrated 'model' → 'model_id' (v1→v2)"@);
    let n2 = note(
        e,
        "provider.base_url"@,
        "migrated 'provider.endpoint' → 'provider.base_url' (v1→v2)"@,
    );
    let n3 = note(
        moves_under(b, "mcp_servers"@, "mcp"@),
        "mcp.servers"@,
        "migrated 'mcp_servers' → 'mcp.servers' (v1→v2)"@,
    );
    let n4 = note(
        moves_under(c, "max_turns"@, "budget"@),
        "budget.max_turns"@,
        "migrated 'max_turns' → 'budget.max_turns' (v1→v2)"@,
    );
    let w1 = strict_warning(u, "permissions"@);
    let w2 = strict_warning(u, "sandbox"@);
    let w3 = strict_warning(u, "credential"@);
    let w4 = strict_warning(u, "managed"@);
    let notes = migration_notes(TomlView::Table(t));
    assert(notes == n1 + n2 + n3 + n4 + w1 + w2 + w3 + w4);
    let d1 = diagnostic(
        DiagnosticLevel::Info,
        "model_id"@,
        "migrated 'model' → 'model_id' (v1→v2)"@,
    );
    let d2 = diagnostic(
        DiagnosticLevel::Info,
        "provider.base_url"@,
        "migrated 'provider.endpoint' → 'provider.base_url' (v1→v2)"@,
    );
    let d3 = diagnostic(
        DiagnosticLevel::Info,
        "mcp.servers"@,
        "migrated 'mcp_servers' → 'mcp.servers' (v1→v2)"@,
    );
    let d4 = diagnostic(
        DiagnosticLevel::Info,
        "budget.max_turns"@,
        "migrated 'max_turns' → 'budget.max_turns' (v1→v2)"@,
    );
    let ds = seq![d1, d2, d3, d4, x];
    assert forall|k: int| 0 <= k < ds.len() implies (notes.contains(#[trigger] ds[k])
        <==> n1.contains(ds[k]) || n2.contains(ds[k]) || n3.contains(ds[k]) || n4.contains(ds[k])
        || w1.contains(ds[k]) || w2.contains(ds[k]) || w3.contains(ds[k]) || w4.contains(
        ds[k],
    )) by {
        let y = ds[k];
        lemma_contains_either(n1, n2, y);
        lemma_contains_either(n1 + n2, n3, y);
        lemma_contains_either(n1 + n2 + n3, n4, y);
        lemma_contains_either(n1 + n2 + n3 + n4, w1, y);
        lemma_contains_either(n1 + n2 + n3 + n4 + w1, w2, y);
        lemma_contains_either(n1 + n2 + n3 + n4 + w1 + w2, w3, y);
        lemma_contains_either(n1 + n2 + n3 + n4 + w1 + w2 + w3, w4, y);
    }
    assert(ds[0] == d1 && ds[1] == d2 && ds[2] == d3 && ds[3] == d4 && ds[4] == x);
    lemma_noted(m, "model_id"@, "migrated 'model' → 'model_id' (v1→v2)"@, d1);
    lemma_noted(m, "model_id"@, "migrated 'model' → 'model_id' (v1→v2)"@, x);
    lemma_noted(
        e,
        "provider.base_url"@,
        "migrated 'provider.endpoint' → 'provider.base_url' (v1→v2)"@,
        d2,
    );
    lemma_noted(
        e,
        "provider.base_url"@,
        "migrated 'provider.endpoint' → 'provider.base_url' (v1→v2)"@,
        x,
    );
    lemma_noted(
        moves_under(b, "mcp_servers"@, "mcp"@),
        "mcp.servers"@,
        "migrated 'mcp_servers' → 'mcp.servers' (v1→v2)"@,
        d3,
    );
    lemma_noted(
        moves_under(b, "mcp_servers"@, "mcp"@),
        "mcp.servers"@,
        "migrated 'mcp_servers' → 'mcp.servers' (v1→v2)"@,
        x,
    );
    lemma_noted(
        moves_under(c, "max_turns"@, "budget"@),
        "budget.max_turns"@,
        "migrated 'max_turns' → 'budget.max_turns' (v1→v2)"@,
        d4,
    );
    lemma_noted(
        moves_under(c, "max_turns"@, "budget"@),
        "budget.max_turns"@,
        "migrated 'max_turns' → 'budget.max_turns' (v1→v2)"@,
        x,
    );
    lemma_warned(u, "permissions"@, x);
    lemma_warned(u, "sandbox"@, x);
    lemma_warned(u, "credential"@, x);
    lemma_warned(u, "managed"@, x);
    lemma_upgraded_reads(t, "permissions"@);
    lemma_upgraded_reads(t, "sandbox"@);
    lemma_upgraded_reads(t, "credential"@);
    lemma_upgraded_reads(t, "managed"@);
}

/// Every key of the strict zone that is there is warned about.
pub proof fn strict_keys_are_warned_about(t: Seq<(Seq<char>, TomlView)>, key: Seq<char>)
    requires
        in_key_order(t),
        schema_version(TomlView::Table(t)) == 1,
        key == "permissions"@ || key == "sandbox"@ || key == "credential"@ || key == "managed"@,
        lookup(t, key) is Some,
    ensures
        exists|d: DiagnosticView| #[trigger]
            migration_notes(TomlView::Table(t)).contains(d) && d.key_path == key && d.level
                == DiagnosticLevel::Warning,
{
    lemma_strict_keys();
    lemma_upgraded_reads(t, key);
    let u = upgraded(t);
    let notes = migration_notes(TomlView::Table(t));
    let w1 = strict_warning(u, "permissions"@);
    let w2 = strict_warning(u, "sandbox"@);
    let w3 = strict_warning(u, "credential"@);
    let w4 = strict_warning(u, "managed"@);
    let n = lemma_last_notes(t);
    lemma_warned(u, key, arbitrary());
    let d = choose|d: DiagnosticView| #[trigger]
        strict_warning(u, key).contains(d) && d.key_path == key && d.level
            == DiagnosticLevel::Warning;
    lemma_contains_either(n, w1, d);
    lemma_contains_either(n + w1, w2, d);
    lemma_contains_either(n + w1 + w2, w3, d);
    lemma_contains_either(n + w1 + w2 + w3, w4, d);
}

proof fn lemma_last_notes(t: Seq<(Seq<char>, TomlView)>) -> (n: Seq<DiagnosticView>)
    requires
        schema_version(TomlView::Table(t)) == 1,
    ensures
        migration_notes(TomlView::Table(t)) == n + strict_warning(upgraded(t), "permissions"@)
            + strict_warning(upgraded(t), "sandbox"@) + strict_warning(
            upgraded(t),
            "credential"@,
        ) + strict_warning(upgraded(t), "managed"@),
{
    let provider = table_in(lookup(model_step(t), "provider"@));
    note(
        lookup(t, "model"@) is Some && lookup(without(t, "model"@), "model_id"@) is None,
        "model_id"@,
        "migrated 'model' → 'model_id' (v1→v2)"@,
    ) + note(
        provider is Some && lookup(provider->0, "endpoint"@) is Some,
        "provider.base_url"@,
        "migrated 'provider.endpoint' → 'provider.base_url' (v1→v2)"@,
    ) + note(
        moves_under(endpoint_step(t), "mcp_servers"@, "mcp"@),
        "mcp.servers"@,
        "migrated 'mcp_servers' → 'mcp.servers' (v1→v2)"@,
    ) + note(
        moves_under(servers_step(t), "max_turns"@, "budget"@),
        "budget.max_turns"@,
        "migrated 'max_turns' → 'budget.max_turns' (v1→v2)"@,
    )
}

proof fn lemma_strict_keys()
    ensures
        !is_migrated_key("permissions"@),
        !is_migrated_key("sandbox"@),
        !is_migrated_key("credential"@),
        !is_migrated_key("managed"@),
{
    lemma_keys();
    reveal_strlit("permissions");
    reveal_strlit("sandbox");
    reveal_strlit("credential");
    reveal_strlit("managed");
    reveal_strlit("mcp_servers");
    assert("permissions"@.len() == 11);
    assert("sandbox"@.len() == 7);
    assert("credential"@.len() == 10);
    assert("managed"@.len() == 7);
    assert("permissions"@[0] != "mcp_servers"@[0]);
}

proof fn lemma_upgraded_reads(t: Seq<(Seq<char>, TomlView)>, key: Seq<char>)
    requires
        in_key_order(t),
        schema_version(TomlView::Table(t)) == 1,
        !is_migrated_key(key),
    ensures
        lookup(upgraded(t), key) == lookup(t, key),
{
    lemma_migrated_reads(t, key);
    lookup_after_put(
        upgraded(t),
        "schema_version"@,
        TomlView::Integer(CURRENT_SCHEMA_VERSION as int),
        key,
    );
}

/// What each step finds is what the table held at first.
proof fn lemma_step_reads(t: Seq<(Seq<char>, TomlView)>)
    requires
        in_key_order(t),
    ensures
        lookup(without(t, "model"@), "model_id"@) == lookup(t, "model_id"@),
        lookup(model_step(t), "provider"@) == lookup(t, "provider"@),
        moves_under(endpoint_step(t), "mcp_servers"@, "mcp"@) == (lookup(t, "mcp_servers"@) is Some
            && (lookup(t, "mcp"@) is None || lookup(t, "mcp"@)->0 is Table)),
        moves_under(servers_step(t), "max_turns"@, "budget"@) == (lookup(t, "max_turns"@) is Some
            && (lookup(t, "budget"@) is None || lookup(t, "budget"@)->0 is Table)),
{
    lemma_keys();
    let ks = seq!["mcp_servers"@, "mcp"@, "max_turns"@, "budget"@, "provider"@];
    let a = model_step(t);
    let b = endpoint_step(t);
    let c = servers_step(t);
    lookup_after_without(t, "model"@, "model_id"@);
    assert forall|i: int| 0 <= i < ks.len() implies {
        &&& lookup(a, #[trigger] ks[i]) == lookup(t, ks[i])
        &&& i < 4 ==> lookup(b, ks[i]) == lookup(t, ks[i])
        &&& in_key_order(b)
    } by {
        lemma_renamed(t, "model"@, "model_id"@, ks[i]);
        match table_in(lookup(a, "provider"@)) {
            Some(p) => {
                let q = TomlView::Table(renamed(p, "endpoint"@, "base_url"@));
                lookup_after_put(a, "provider"@, q, ks[i]);
                put_keeps_order(a, "provider"@, q);
            },
            None => {},
        }
    }
    assert(ks[0] == "mcp_servers"@ && ks[1] == "mcp"@ && ks[2] == "max_turns"@ && ks[3]
        == "budget"@ && ks[4] == "provider"@);
    lemma_moved_under(b, "mcp_servers"@, "mcp"@, "servers"@, "max_turns"@);
    lemma_moved_under(b, "mcp_servers"@, "mcp"@, "servers"@, "budget"@);
    lemma_finds_place(b, "mcp_servers"@, "mcp"@);
    lemma_finds_place(c, "max_turns"@, "budget"@);
}

proof fn lemma_finds_place(t: Seq<(Seq<char>, TomlView)>, from: Seq<char>, key: Seq<char>)
    requires
        in_key_order(t),
        from != key,
    ensures
        moves_under(t, from, key) == (lookup(t, from) is Some && (lookup(t, key) is None || lookup(
            t,
            key,
        )->0 is Table)),
{
    lookup_after_without(t, from, key);
    lookup_after_put(without(t, from), key, empty_table(), key);
}

} // verus!
