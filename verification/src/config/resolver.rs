//! From files to the configuration of a session, and back to the last good one
//! when a reload fails.

use vstd::prelude::*;

use crate::config::enforcement::{
    disabled_features_are_off, enforcement_keeps_other_keys, forced_provider_wins,
    is_constrained_key, keychain_storage_wins, required_sandbox_wins, setting_at,
};
use crate::config::error::ConfigError;
use crate::config::generation::{
    all_bumped, below_limit, generation_of, ConfigGeneration, LoadedConfig,
};
use crate::config::layer::{ConfigLayer, ConfigLayerSource, MergeTrace};
use crate::config::loader::{load_all_layers, load_files, ConfigFile, ConfigPaths, WorkspaceFacts};
use crate::config::merge::{
    disabled_warnings, layer_traces, layers_view, merge_layers, merge_reads, merge_table,
    merged_values, traces_view, LayerView,
};
use crate::config::migration::{
    migrate, migrated, migration_keeps_other_keys, migration_notes,
};
use crate::config::requirements::{
    enforced, enforcement_reports, requirements_in, RequirementBinding, RequirementView,
};
use crate::config::values::{
    diagnostics_view, new_table, report_all, ConfigDiagnostic, DiagnosticView, EffectiveConfig,
};
use crate::entries::{in_key_order, lookup};
use crate::strmap::StrMap;
use crate::text::{has_prefix, starts_with};
use crate::toml_value::{get, table_in, TomlValue, TomlView};

verus! {

/// Loads configuration and keeps the last one that loaded.
#[derive(Debug)]
pub struct ConfigResolver {
    paths: ConfigPaths,
    last_config: Option<LoadedConfig>,
}

/// Whether a layer may state requirements: the machine's and the enterprise's
/// layers may, those of users and workspaces may not.
pub open spec fn is_managed(l: LayerView) -> bool {
    l.source is System || l.source is EnterpriseManaged
}

/// The layers that may state requirements, in order.
pub open spec fn managed_layers(layers: Seq<LayerView>) -> Seq<LayerView>
    decreases layers.len(),
{
    if layers.len() == 0 {
        Seq::empty()
    } else if is_managed(layers.last()) {
        managed_layers(layers.drop_last()).push(layers.last())
    } else {
        managed_layers(layers.drop_last())
    }
}

/// The requirements that a stack of layers states.
pub open spec fn stated_requirements(layers: Seq<LayerView>) -> RequirementView {
    requirements_in(merged_values(managed_layers(layers)))
}

/// The values of a stack of layers: merged, migrated and constrained.
pub open spec fn effective_values(layers: Seq<LayerView>) -> TomlView {
    enforced(stated_requirements(layers), migrated(merged_values(layers)))
}

/// What enforcing the requirements on a stack of layers reports.
pub open spec fn override_reports(layers: Seq<LayerView>) -> Seq<DiagnosticView> {
    enforcement_reports(stated_requirements(layers), migrated(merged_values(layers)))
}

/// All diagnostics of a stack of layers: of the merge, of the migration, of
/// the requirements and of the files.
pub open spec fn all_diagnostics(layers: Seq<LayerView>, of_files: Seq<DiagnosticView>) -> Seq<
    DiagnosticView,
> {
    disabled_warnings(layers) + migration_notes(merged_values(layers)) + override_reports(layers)
        + of_files
}

/// The generation of the merge: 0 without layers, else 1.
pub open spec fn merge_generation(layers: Seq<LayerView>) -> u64 {
    if layers.len() == 0 {
        0
    } else {
        1
    }
}

/// The counter after a change, where there was one. A counter at its limit
/// stays there.
pub open spec fn raised_if(n: u64, change: bool) -> u64 {
    if change && n < u64::MAX {
        (n + 1) as u64
    } else {
        n
    }
}

/// The counter after a change, where there was one.
fn raise_if(n: u64, change: bool) -> (r: u64)
    ensures
        r == raised_if(n, change),
{
    if change && n < u64::MAX {
        n + 1
    } else {
        n
    }
}

/// The counters of the domains that a report concerns, raised.
pub open spec fn raised_for(g: ConfigGeneration, path: Seq<char>) -> ConfigGeneration {
    ConfigGeneration {
        provider: raised_if(
            g.provider,
            has_prefix(path, "provider"@) || has_prefix(path, "model_routes"@),
        ),
        sandbox: raised_if(g.sandbox, has_prefix(path, "sandbox"@)),
        policy: raised_if(
            raised_if(
                g.policy,
                has_prefix(path, "features"@) || has_prefix(path, "requirements.managed_deny"@),
            ),
            has_prefix(path, "credential"@),
        ),
        capability: raised_if(g.capability, has_prefix(path, "mcp"@)),
        ..g
    }
}

/// The counters raised for each report.
pub open spec fn raised_for_all(g: ConfigGeneration, reports: Seq<DiagnosticView>) -> ConfigGeneration
    decreases reports.len(),
{
    if reports.len() == 0 {
        g
    } else {
        raised_for(raised_for_all(g, reports.drop_last()), reports.last().key_path)
    }
}

/// The larger of two counters.
pub open spec fn larger(a: u64, b: u64) -> u64 {
    if a < b {
        b
    } else {
        a
    }
}

/// The counters after loading a stack of layers at generation `g`. The counter
/// of the whole does not fall below `floor`.
pub open spec fn loaded_generation(
    g: ConfigGeneration,
    floor: u64,
    layers: Seq<LayerView>,
) -> ConfigGeneration {
    let reports = override_reports(layers);
    if reports.len() == 0 {
        ConfigGeneration { root: larger(floor, merge_generation(layers)), ..g }
    } else {
        raised_for_all(
            ConfigGeneration { root: raised_if(larger(g.root, merge_generation(layers)), true), ..g },
            reports,
        )
    }
}

/// What loading a stack of layers gives.
pub open spec fn is_loaded(
    c: LoadedConfig,
    layers: Seq<LayerView>,
    of_files: Seq<DiagnosticView>,
    g: ConfigGeneration,
    floor: u64,
) -> bool {
    &&& c.effective.values@ == effective_values(layers)
    &&& c.effective.merge_traces.wf()
    &&& traces_view(c.effective.merge_traces@) == layer_traces(layers)
    &&& c.effective.generation == c.generation.root
    &&& diagnostics_view(c.effective.diagnostics@) == all_diagnostics(layers, of_files)
    &&& c.requirements@ == stated_requirements(layers)
    &&& c.generation == loaded_generation(g, floor, layers)
    &&& layers_view(c.raw_layers@) == layers
}

/// The values of the managed layers.
fn managed_values(layers: &Vec<ConfigLayer>) -> (r: TomlValue)
    ensures
        r@ == merged_values(managed_layers(layers_view(layers@))),
{
    let ghost all = layers_view(layers@);
    let mut merged = new_table();
    let mut traces: StrMap<MergeTrace> = StrMap::new();
    let mut i: usize = 0;
    while i < layers.len()
        invariant
            i <= layers@.len(),
            all == layers_view(layers@),
            traces.wf(),
            merged@ == merged_values(managed_layers(all.take(i as int))),
        decreases layers@.len() - i,
    {
        let layer = &layers[i];
        proof {
            assert(all.take(i as int + 1).drop_last() =~= all.take(i as int));
            assert(all.take(i as int + 1).last() == layer@);
            let below = managed_layers(all.take(i as int));
            assert(below.push(layer@).drop_last() =~= below);
        }
        let managed = match layer.source {
            ConfigLayerSource::System => true,
            ConfigLayerSource::EnterpriseManaged => true,
            _ => false,
        };
        if managed && layer.disabled_reason.is_none() {
            let trace = MergeTrace::new(layer.source.clone(), layer.fingerprint.clone());
            let empty = String::new();
            merged = merge_table(merged, &layer.values, &trace, &empty, &mut traces);
        }
        i = i + 1;
    }
    assert(all.take(layers@.len() as int) =~= all);
    merged
}

proof fn lemma_raised_grows(g: ConfigGeneration, reports: Seq<DiagnosticView>)
    ensures
        g.provider <= raised_for_all(g, reports).provider,
        g.sandbox <= raised_for_all(g, reports).sandbox,
        g.policy <= raised_for_all(g, reports).policy,
        g.capability <= raised_for_all(g, reports).capability,
        raised_for_all(g, reports).root == g.root,
        raised_for_all(g, reports).prompt == g.prompt,
        raised_for_all(g, reports).memory == g.memory,
        raised_for_all(g, reports).ui == g.ui,
    decreases reports.len(),
{
    if reports.len() > 0 {
        lemma_raised_grows(g, reports.drop_last());
    }
}

/// Raises the counters of the domains that the reports concern.
fn raise_for(g: ConfigGeneration, reports: &Vec<ConfigDiagnostic>) -> (r: ConfigGeneration)
    ensures
        r == raised_for_all(g, diagnostics_view(reports@)),
{
    let ghost rs = diagnostics_view(reports@);
    let ghost g0 = g;
    let mut g = g;
    let mut i: usize = 0;
    while i < reports.len()
        invariant
            i <= reports@.len(),
            rs == diagnostics_view(reports@),
            g == raised_for_all(g0, rs.take(i as int)),
        decreases reports@.len() - i,
    {
        proof {
            assert(rs.take(i as int + 1).drop_last() =~= rs.take(i as int));
            assert(rs.take(i as int + 1).last() == reports@[i as int]@);
        }
        let path = reports[i].key_path.as_str();
        let provider = starts_with(path, "provider") || starts_with(path, "model_routes");
        let policy = starts_with(path, "features") || starts_with(
            path,
            "requirements.managed_deny",
        );
        g.provider = raise_if(g.provider, provider);
        g.sandbox = raise_if(g.sandbox, starts_with(path, "sandbox"));
        g.policy = raise_if(raise_if(g.policy, policy), starts_with(path, "credential"));
        g.capability = raise_if(g.capability, starts_with(path, "mcp"));
        i = i + 1;
    }
    assert(rs.take(reports@.len() as int) =~= rs);
    g
}

/// Merges, migrates and constrains a stack of layers.
fn load_internal(
    paths: ConfigPaths,
    raw_layers: Vec<ConfigLayer>,
    of_files: Vec<ConfigDiagnostic>,
    generation: ConfigGeneration,
    floor: u64,
) -> (r: LoadedConfig)
    ensures
        is_loaded(r, layers_view(raw_layers@), diagnostics_view(of_files@), generation, floor),
        r.paths == paths,
{
    let ghost ls = layers_view(raw_layers@);
    let ghost fs = diagnostics_view(of_files@);
    let merged = merge_layers(&raw_layers);
    let migration = migrate(merged.values);
    let requirements = RequirementBinding::from_toml(&managed_values(&raw_layers));
    let (values, reports) = requirements.enforce(migration.values);
    assert(diagnostics_view(reports@) == override_reports(ls));
    assert(diagnostics_view(reports@).len() == reports@.len());
    let mut next = generation;
    if reports.len() > 0 {
        let top: u64 = if next.root < merged.generation {
            merged.generation
        } else {
            next.root
        };
        next.root = raise_if(top, true);
        next = raise_for(next, &reports);
    } else {
        next.root = if floor < merged.generation {
            merged.generation
        } else {
            floor
        };
    }
    let mut diagnostics = merged.diagnostics;
    report_all(&mut diagnostics, migration.diagnostics);
    report_all(&mut diagnostics, reports);
    report_all(&mut diagnostics, of_files);
    LoadedConfig {
        effective: EffectiveConfig {
            values,
            merge_traces: merged.merge_traces,
            generation: next.root,
            diagnostics,
        },
        requirements,
        generation: next,
        raw_layers,
        paths,
    }
}

impl ConfigResolver {
    /// The paths that are loaded from.
    pub closed spec fn paths(self) -> ConfigPaths {
        self.paths
    }

    /// The last configuration that loaded.
    pub closed spec fn last(self) -> Option<LoadedConfig> {
        self.last_config
    }

    /// A resolver that has loaded nothing yet.
    pub fn new(paths: ConfigPaths) -> (r: Self)
        ensures
            r.paths() == paths,
            r.last() is None,
    {
        ConfigResolver { paths, last_config: None }
    }

    /// Loads the files found at `paths`, at the first generation.
    pub fn load(paths: ConfigPaths, files: &Vec<ConfigFile>, facts: &WorkspaceFacts) -> (r: Result<
        LoadedConfig,
        ConfigError,
    >)
        ensures
            match r {
                Ok(c) => load_files(files@, *facts) matches Ok(p) && is_loaded(
                    c,
                    p.0,
                    p.1,
                    generation_of(1),
                    0,
                ) && c.paths == paths,
                Err(ConfigError::Io { message }) => load_files(files@, *facts) matches Err(m)
                    && message@ == m,
                Err(_) => false,
            },
    {
        match load_all_layers(files, facts) {
            Ok((layers, diags)) => Ok(
                load_internal(paths, layers, diags, ConfigGeneration::initial(), 0),
            ),
            Err(e) => Err(e),
        }
    }

    /// Loads the files that were found at the paths of the resolver again, at
    /// the next generation: no counter falls, and the one of the whole rises.
    /// Where that fails, the last configuration that loaded stays; the error
    /// comes back only where there is none.
    pub fn reload(&mut self, files: &Vec<ConfigFile>, facts: &WorkspaceFacts) -> (r: Result<
        &LoadedConfig,
        ConfigError,
    >)
        requires
            below_limit(next_base(old(self).last())),
        ensures
            match load_files(files@, *facts) {
                Ok(p) => final(self).last() matches Some(c) && is_loaded(
                    c,
                    p.0,
                    p.1,
                    all_bumped(next_base(old(self).last())),
                    next_floor(old(self).last()),
                ) && c.paths == old(self).paths(),
                Err(_) => final(self).last() == old(self).last(),
            },
            final(self).paths() == old(self).paths(),
            match r {
                Ok(c) => final(self).last() == Some(*c),
                Err(ConfigError::Io { message }) => final(self).last() is None && (load_files(
                    files@,
                    *facts,
                ) matches Err(m) && message@ == m),
                Err(_) => false,
            },
    {
        let mut next = match &self.last_config {
            Some(c) => c.generation,
            None => ConfigGeneration::initial(),
        };
        next.bump_all();
        let floor: u64 = match &self.last_config {
            Some(_) => next.root,
            None => 0,
        };
        match load_all_layers(files, facts) {
            Ok((layers, diags)) => {
                let paths = self.paths.duplicate();
                self.last_config = Some(load_internal(paths, layers, diags, next, floor));
                match &self.last_config {
                    Some(c) => Ok(c),
                    None => Err(ConfigError::Io { message: String::new() }),
                }
            },
            Err(e) => match &self.last_config {
                Some(c) => Ok(c),
                None => Err(e),
            },
        }
    }
}

/// The counters that the next reload starts from.
pub open spec fn next_base(last: Option<LoadedConfig>) -> ConfigGeneration {
    match last {
        Some(c) => c.generation,
        None => generation_of(1),
    }
}

/// The counter of the whole that the next reload does not fall below.
pub open spec fn next_floor(last: Option<LoadedConfig>) -> u64 {
    match last {
        Some(c) => all_bumped(c.generation).root,
        None => 0,
    }
}

/// Layers of users and workspaces have no say in the requirements.
pub proof fn user_layers_state_no_requirements(layers: Seq<LayerView>, l: LayerView)
    requires
        !is_managed(l),
    ensures
        stated_requirements(layers.push(l)) == stated_requirements(layers),
{
    assert(layers.push(l).drop_last() =~= layers);
}

/// Requirements that change something raise the counter of the whole above
/// the one before, and lower no counter.
pub proof fn overrides_raise_the_generation(
    g: ConfigGeneration,
    floor: u64,
    layers: Seq<LayerView>,
)
    requires
        override_reports(layers).len() > 0,
        g.root < u64::MAX,
    ensures
        loaded_generation(g, floor, layers).root > g.root,
        loaded_generation(g, floor, layers).provider >= g.provider,
        loaded_generation(g, floor, layers).sandbox >= g.sandbox,
        loaded_generation(g, floor, layers).policy >= g.policy,
        loaded_generation(g, floor, layers).capability >= g.capability,
{
    let root = raised_if(larger(g.root, merge_generation(layers)), true);
    lemma_raised_grows(ConfigGeneration { root, ..g }, override_reports(layers));
}

/// A reload raises every counter above that of the configuration before it,
/// whatever the files hold.
pub proof fn reloads_raise_the_generation(
    last: LoadedConfig,
    next: LoadedConfig,
    layers: Seq<LayerView>,
    of_files: Seq<DiagnosticView>,
)
    requires
        below_limit(last.generation),
        is_loaded(
            next,
            layers,
            of_files,
            all_bumped(next_base(Some(last))),
            next_floor(Some(last)),
        ),
    ensures
        next.generation.root > last.generation.root,
        next.effective.generation > last.generation.root,
        next.generation.provider > last.generation.provider,
        next.generation.sandbox > last.generation.sandbox,
        next.generation.policy > last.generation.policy,
        next.generation.capability > last.generation.capability,
        next.generation.prompt > last.generation.prompt,
        next.generation.memory > last.generation.memory,
        next.generation.ui > last.generation.ui,
{
    let g = all_bumped(last.generation);
    let root = raised_if(larger(g.root, merge_generation(layers)), true);
    lemma_raised_grows(ConfigGeneration { root, ..g }, override_reports(layers));
}

/// The effective values of a session meet what the managed layers require,
/// whatever any layer says: a forced provider is the provider, a required type
/// of sandbox its type, a disabled feature is off, and credentials are in the
/// keychain where that is required.
pub proof fn effective_values_meet_the_requirements(
    layers: Seq<LayerView>,
    t: Seq<(Seq<char>, TomlView)>,
    feature: Seq<char>,
)
    requires
        migrated(merged_values(layers)) == TomlView::Table(t),
    ensures
        ({
            let r = stated_requirements(layers);
            let v = effective_values(layers);
            &&& r.forced_provider matches Some(p) ==> get(v, "provider"@) == Some(TomlView::Text(p))
            &&& (r.required_sandbox matches Some(s) && (lookup(t, "sandbox"@) is None || lookup(
                t,
                "sandbox"@,
            )->0 is Table)) ==> setting_at(v, "sandbox"@, "type"@) == Some(
                TomlView::Text(r.required_sandbox->0),
            )
            &&& r.disabled_features.contains(feature) && (lookup(t, "features"@) is None || lookup(
                t,
                "features"@,
            )->0 is Table) ==> setting_at(v, "features"@, feature) == Some(
                TomlView::Boolean(false),
            )
            &&& r.require_keychain_storage && (lookup(t, "credential"@) is None || lookup(
                t,
                "credential"@,
            )->0 is Table) ==> setting_at(v, "credential"@, "storage"@) == Some(
                TomlView::Text("keychain"@),
            )
        }),
{
    let r = stated_requirements(layers);
    match r.forced_provider {
        Some(p) => forced_provider_wins(r, t, p),
        None => {},
    }
    if lookup(t, "sandbox"@) is None || lookup(t, "sandbox"@)->0 is Table {
        match r.required_sandbox {
            Some(s) => required_sandbox_wins(r, t, s),
            None => {},
        }
    }
    if r.disabled_features.contains(feature) && (lookup(t, "features"@) is None || lookup(
        t,
        "features"@,
    )->0 is Table) {
        disabled_features_are_off(r, t, feature);
    }
    if r.require_keychain_storage && (lookup(t, "credential"@) is None || lookup(
        t,
        "credential"@,
    )->0 is Table) {
        keychain_storage_wins(r, t);
    }
}

/// A setting that no requirement is about, and that the migration does not
/// touch, is in the effective values what the merged layers say.
pub proof fn other_settings_come_through(
    layers: Seq<LayerView>,
    t: Seq<(Seq<char>, TomlView)>,
    key: Seq<char>,
)
    requires
        merged_values(layers) == TomlView::Table(t),
        in_key_order(t),
        !is_constrained_key(key),
        key != "model"@,
        key != "model_id"@,
        key != "mcp_servers"@,
        key != "max_turns"@,
        key != "budget"@,
        key != "schema_version"@,
    ensures
        get(effective_values(layers), key) == lookup(t, key),
{
    migration_keeps_other_keys(t, key);
    match migrated(TomlView::Table(t)) {
        TomlView::Table(m) => {
            enforcement_keeps_other_keys(stated_requirements(layers), m, key);
        },
        _ => {},
    }
}

/// What the highest enabled managed layer requires is required.
pub proof fn managed_layers_state_requirements(
    layers: Seq<LayerView>,
    l: LayerView,
    provider: Seq<char>,
)
    requires
        l.source is System || l.source is EnterpriseManaged,
        l.disabled_reason is None,
        l.values matches TomlView::Table(t) && in_key_order(t) && (lookup(t, "requirements"@)
            matches Some(TomlView::Table(o)) && in_key_order(o) && lookup(o, "forced_provider"@)
            == Some(TomlView::Text(provider))),
        merged_values(managed_layers(layers)) is Table,
    ensures
        stated_requirements(layers.push(l)).forced_provider == Some(provider),
{
    assert(layers.push(l).drop_last() =~= layers);
    let ms = managed_layers(layers);
    assert(ms.push(l).drop_last() =~= ms);
    match (merged_values(ms), l.values) {
        (TomlView::Table(b), TomlView::Table(t)) => {
            merge_reads(b, t, "requirements"@);
            let o = table_in(lookup(t, "requirements"@))->0;
            match lookup(b, "requirements"@) {
                Some(TomlView::Table(x)) => {
                    merge_reads(x, o, "forced_provider"@);
                },
                _ => {},
            }
        },
        _ => {},
    }
}

/// What is told of a loaded configuration: the layers that were left out, what
/// was migrated, what was overridden, and what was wrong with the files.
pub proof fn everything_is_told(layers: Seq<LayerView>, of_files: Seq<DiagnosticView>, x: DiagnosticView)
    ensures
        all_diagnostics(layers, of_files).len() == disabled_warnings(layers).len()
            + migration_notes(merged_values(layers)).len() + override_reports(layers).len()
            + of_files.len(),
        disabled_warnings(layers).contains(x) || migration_notes(merged_values(layers)).contains(x)
            || override_reports(layers).contains(x) || of_files.contains(x) ==> all_diagnostics(
            layers,
            of_files,
        ).contains(x),
{
    let a = disabled_warnings(layers);
    let b = migration_notes(merged_values(layers));
    let c = override_reports(layers);
    let d = of_files;
    let all = all_diagnostics(layers, of_files);
    if a.contains(x) {
        let i = choose|i: int| 0 <= i < a.len() && a[i] == x;
        assert(all[i] == x);
    } else if b.contains(x) {
        let i = choose|i: int| 0 <= i < b.len() && b[i] == x;
        assert(all[a.len() + i] == x);
    } else if c.contains(x) {
        let i = choose|i: int| 0 <= i < c.len() && c[i] == x;
        assert(all[a.len() + b.len() + i] == x);
    } else if d.contains(x) {
        let i = choose|i: int| 0 <= i < d.len() && d[i] == x;
        assert(all[a.len() + b.len() + c.len() + i] == x);
    }
}

/// A report about a domain raises the counter of that domain, and no report
/// lowers any.
pub proof fn overrides_raise_their_domain(g: ConfigGeneration, path: Seq<char>)
    ensures
        ({
            let h = raised_for(g, path);
            &&& h.root == g.root && h.ui == g.ui && h.memory == g.memory && h.prompt == g.prompt
            &&& (has_prefix(path, "provider"@) || has_prefix(path, "model_routes"@)) && g.provider
                < u64::MAX ==> h.provider == g.provider + 1
            &&& !has_prefix(path, "provider"@) && !has_prefix(path, "model_routes"@) ==> h.provider
                == g.provider
            &&& has_prefix(path, "sandbox"@) && g.sandbox < u64::MAX ==> h.sandbox == g.sandbox + 1
            &&& !has_prefix(path, "sandbox"@) ==> h.sandbox == g.sandbox
            &&& has_prefix(path, "mcp"@) && g.capability < u64::MAX ==> h.capability
                == g.capability + 1
            &&& !has_prefix(path, "mcp"@) ==> h.capability == g.capability
            &&& (has_prefix(path, "features"@) || has_prefix(path, "requirements.managed_deny"@)
                || has_prefix(path, "credential"@)) && g.policy < u64::MAX ==> h.policy > g.policy
            &&& !has_prefix(path, "features"@) && !has_prefix(path, "requirements.managed_deny"@)
                && !has_prefix(path, "credential"@) ==> h.policy == g.policy
        }),
{
}

/// A generation goes one further exactly when its part changed, as far as
/// numbers go, and the larger of two numbers is one of them and not below the
/// other.
pub proof fn changes_raise_generations(n: u64, m: u64, change: bool)
    ensures
        change && n < u64::MAX ==> raised_if(n, change) == n + 1,
        !change ==> raised_if(n, change) == n,
        larger(n, m) == n || larger(n, m) == m,
        larger(n, m) >= n && larger(n, m) >= m,
{
}

} // verus!
