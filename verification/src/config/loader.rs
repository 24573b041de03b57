//! Configuration files: where they lie, what loading them gives, and which of
//! their keys are risky.

use vstd::prelude::*;
use vstd::string::*;

use crate::config::error::ConfigError;
use crate::config::layer::{ConfigLayer, ConfigLayerSource, SourceView};
use crate::config::merge::{layers_view, LayerView};
use crate::config::trust::{binding_hash_of, WorkspaceTrustBinding};
use crate::config::values::{
    diagnostic, diagnostics_view, report, report_all, ConfigDiagnostic, DiagnosticLevel,
    DiagnosticView,
};
use crate::entries::lookup;
use crate::hash::{fingerprint_bytes, fingerprint_of};
use crate::paths::{join_path, joined_path};
use crate::text::{
    add_sorted, clone_list, debug_list, debug_list_of, in_text_order, opt_clone, opt_view, owned,
    starts_with, text_lt, text_lt_irreflexive, text_lt_total, views,
};
use crate::toml_text::{parse_toml, toml_parse_of};
use crate::toml_value::{
    bool_in, entries_view, find, get, position, table_in, TomlEntry, TomlValue, TomlView,
};

verus! {

/// The kinds of systems that place their configuration differently.
#[derive(Debug, Clone, Copy, PartialEq, Eq, Structural)]
pub enum Platform {
    Linux,
    MacOs,
    Other,
}

/// The configuration files of a session.
#[derive(Debug)]
pub struct ConfigPaths {
    /// The machine's file.
    pub system: Option<String>,
    /// The file managed by an enterprise.
    pub enterprise: Option<String>,
    /// The user's file.
    pub user: Option<String>,
    /// The file of a profile of the user.
    pub profile: Option<String>,
    /// The file of the workspace.
    pub workspace: Option<String>,
}

/// The place of a configuration file in the order of precedence.
#[derive(Debug, Clone, Copy, PartialEq, Eq, Structural)]
pub enum ConfigSlot {
    System,
    Enterprise,
    User,
    Profile,
    Workspace,
}

/// The name of a place.
pub open spec fn slot_name(s: ConfigSlot) -> Seq<char> {
    match s {
        ConfigSlot::System => "system"@,
        ConfigSlot::Enterprise => "enterprise"@,
        ConfigSlot::User => "user"@,
        ConfigSlot::Profile => "profile"@,
        ConfigSlot::Workspace => "workspace"@,
    }
}

impl ConfigSlot {
    /// The name of the place.
    pub fn name(&self) -> (r: &'static str)
        ensures
            r@ == slot_name(*self),
    {
        match self {
            ConfigSlot::System => "system",
            ConfigSlot::Enterprise => "enterprise",
            ConfigSlot::User => "user",
            ConfigSlot::Profile => "profile",
            ConfigSlot::Workspace => "workspace",
        }
    }
}

/// A path at a place, if there is one.
pub open spec fn at_slot(slot: ConfigSlot, p: Option<String>) -> Seq<(ConfigSlot, Seq<char>)> {
    match p {
        Some(s) => seq![(slot, s@)],
        None => Seq::empty(),
    }
}

/// The views of places with their paths.
pub open spec fn slots_view(v: Seq<(ConfigSlot, String)>) -> Seq<(ConfigSlot, Seq<char>)> {
    v.map_values(|p: (ConfigSlot, String)| (p.0, p.1@))
}

/// The machine's file on a platform.
pub open spec fn system_path_of(platform: Platform) -> Option<Seq<char>> {
    match platform {
        Platform::Linux => Some("/etc/grodex/config.toml"@),
        Platform::MacOs => Some("/Library/Application Support/grodex/config.toml"@),
        Platform::Other => None,
    }
}

fn push_slot(out: &mut Vec<(ConfigSlot, String)>, slot: ConfigSlot, p: &Option<String>)
    ensures
        slots_view(final(out)@) == slots_view(old(out)@) + at_slot(slot, *p),
{
    let ghost before = slots_view(out@);
    if let Some(s) = p {
        out.push((slot, s.clone()));
    }
    assert(slots_view(out@) =~= before + at_slot(slot, *p));
}

impl ConfigPaths {
    /// The same files.
    pub fn duplicate(&self) -> (r: Self)
        ensures
            r == *self,
    {
        ConfigPaths {
            system: opt_clone(&self.system),
            enterprise: opt_clone(&self.enterprise),
            user: opt_clone(&self.user),
            profile: opt_clone(&self.profile),
            workspace: opt_clone(&self.workspace),
        }
    }

    /// The files of the standard places: the machine's file, `~/.grodex/config.toml`
    /// and the workspace file that was found, if any.
    pub fn discover(platform: Platform, home: Option<&str>, workspace: Option<String>) -> (r: Self)
        ensures
            opt_view(r.system) == system_path_of(platform),
            r.enterprise is None,
            opt_view(r.user) == (match home {
                Some(h) => Some(joined_path(joined_path(h@, ".grodex"@), "config.toml"@)),
                None => None,
            }),
            r.profile is None,
            r.workspace == workspace,
    {
        let system = match platform {
            Platform::Linux => Some(owned("/etc/grodex/config.toml")),
            Platform::MacOs => Some(owned("/Library/Application Support/grodex/config.toml")),
            Platform::Other => None,
        };
        let user = match home {
            Some(h) => Some(join_path(join_path(h, ".grodex").as_str(), "config.toml")),
            None => None,
        };
        ConfigPaths { system, enterprise: None, user, profile: None, workspace }
    }

    /// The files that are present, from the lowest to the highest precedence.
    pub fn ordered_paths(&self) -> (r: Vec<(ConfigSlot, String)>)
        ensures
            slots_view(r@) == at_slot(ConfigSlot::System, self.system) + at_slot(
                ConfigSlot::Enterprise,
                self.enterprise,
            ) + at_slot(ConfigSlot::User, self.user) + at_slot(ConfigSlot::Profile, self.profile)
                + at_slot(ConfigSlot::Workspace, self.workspace),
    {
        let mut out: Vec<(ConfigSlot, String)> = Vec::new();
        assert(slots_view(out@) =~= Seq::empty());
        push_slot(&mut out, ConfigSlot::System, &self.system);
        push_slot(&mut out, ConfigSlot::Enterprise, &self.enterprise);
        push_slot(&mut out, ConfigSlot::User, &self.user);
        push_slot(&mut out, ConfigSlot::Profile, &self.profile);
        push_slot(&mut out, ConfigSlot::Workspace, &self.workspace);
        assert(slots_view(out@) =~= at_slot(ConfigSlot::System, self.system) + at_slot(
            ConfigSlot::Enterprise,
            self.enterprise,
        ) + at_slot(ConfigSlot::User, self.user) + at_slot(ConfigSlot::Profile, self.profile)
            + at_slot(ConfigSlot::Workspace, self.workspace));
        out
    }
}

/// The value and the fingerprint of the text of a file.
pub fn load_toml(path: &str, content: &str) -> (r: Result<(TomlValue, String), ConfigError>)
    ensures
        match r {
            Ok(p) => toml_parse_of(content@) == Ok::<TomlView, Seq<char>>(p.0@) && p.1@
                == fingerprint_of(vstd::utf8::encode_utf8(content@)),
            Err(ConfigError::Parse { path: p, error }) => p@ == path@ && toml_parse_of(content@)
                == Err::<TomlView, Seq<char>>(error@),
            Err(_) => false,
        },
{
    let fingerprint = fingerprint_bytes(content.as_bytes());
    match parse_toml(content) {
        Ok(v) => Ok((v, fingerprint)),
        Err(error) => Err(ConfigError::Parse { path: owned(path), error }),
    }
}

/// The layer of a source that the text of a file gives.
pub fn load_layer(source: ConfigLayerSource, path: &str, content: &str) -> (r: Result<
    ConfigLayer,
    ConfigError,
>)
    ensures
        match r {
            Ok(l) => l.source == source && l.disabled_reason is None && toml_parse_of(content@)
                == Ok::<TomlView, Seq<char>>(l.values@) && l.fingerprint@ == fingerprint_of(
                vstd::utf8::encode_utf8(content@),
            ),
            Err(ConfigError::Parse { path: p, error }) => p@ == path@ && toml_parse_of(content@)
                == Err::<TomlView, Seq<char>>(error@),
            Err(_) => false,
        },
{
    match load_toml(path, content) {
        Ok((values, fingerprint)) => Ok(
            ConfigLayer { source, values, fingerprint, disabled_reason: None },
        ),
        Err(e) => Err(e),
    }
}

/// What reading a file gave.
#[derive(Debug)]
pub enum FileRead {
    /// Its text.
    Text(String),
    /// There is no such file.
    Missing,
    /// It could not be read.
    Failed(String),
}

/// A configuration file as it was found.
#[derive(Debug)]
pub struct ConfigFile {
    pub slot: ConfigSlot,
    pub path: String,
    pub read: FileRead,
}

/// What is known of the workspace from outside its configuration.
#[derive(Debug)]
pub struct WorkspaceFacts {
    /// The canonical path of the directory of the configuration file.
    pub canonical_path: String,
    /// The remote of its repository.
    pub remote: Option<String>,
}

/// What loading one file contributes.
pub enum LoadStep {
    /// Nothing: there is no file.
    Skip,
    /// A layer, with what there is to say about it.
    Layer(LayerView, Seq<DiagnosticView>),
    /// Nothing but a diagnostic: the file is not TOML.
    Broken(DiagnosticView),
    /// The end: the file could not be read.
    Fail(Seq<char>),
}

/// Whether a workspace file says that the workspace is trusted.
pub open spec fn says_trusted(v: TomlView) -> bool {
    match get(v, "workspace"@) {
        Some(w) => bool_in(get(w, "trusted"@)) == Some(true),
        None => false,
    }
}

/// The source of the layers of a place other than the workspace.
pub open spec fn slot_source(slot: ConfigSlot) -> SourceView {
    match slot {
        ConfigSlot::System => SourceView::System,
        ConfigSlot::Enterprise => SourceView::EnterpriseManaged,
        ConfigSlot::User => SourceView::User,
        ConfigSlot::Profile => SourceView::Profile("default"@),
        ConfigSlot::Workspace => SourceView::Workspace(false),
    }
}

/// The binding hash of a workspace file.
pub open spec fn workspace_binding(facts: WorkspaceFacts, fingerprint: Seq<char>, v: TomlView) -> Seq<
    char,
> {
    binding_hash_of(
        facts.canonical_path@,
        fingerprint,
        high_risk_list(v),
        opt_view(facts.remote),
    )
}

/// The layer of a workspace file: left out unless the file says that the
/// workspace is trusted.
pub open spec fn workspace_layer(facts: WorkspaceFacts, fingerprint: Seq<char>, v: TomlView) -> LayerView {
    LayerView {
        source: SourceView::Workspace(says_trusted(v)),
        values: v,
        fingerprint,
        disabled_reason: if says_trusted(v) {
            None
        } else {
            Some(
                "workspace untrusted; quarantined (workspace binding hash: "@ + workspace_binding(
                    facts,
                    fingerprint,
                    v,
                ) + ", high-risk keys detected: "@ + debug_list_of(high_risk_list(v)) + ")"@,
            )
        },
    }
}

/// What there is to say about a workspace layer.
pub open spec fn workspace_notes(facts: WorkspaceFacts, fingerprint: Seq<char>, v: TomlView) -> Seq<
    DiagnosticView,
> {
    let binding = workspace_binding(facts, fingerprint, v);
    if !says_trusted(v) {
        seq![
            diagnostic(
                DiagnosticLevel::Warning,
                "workspace"@,
                "workspace layer quarantined: not trusted; values not merged into effective config. binding = "@
                    + binding + "; high-risk = "@ + debug_list_of(high_risk_list(v)),
            ),
        ]
    } else if high_risk_list(v).len() > 0 {
        seq![
            diagnostic(
                DiagnosticLevel::Warning,
                "workspace"@,
                "workspace trusted but review_required: high-risk keys present; re-validate trust. binding = "@
                    + binding + "; keys = "@ + debug_list_of(high_risk_list(v)),
            ),
        ]
    } else {
        Seq::empty()
    }
}

/// What loading one file contributes.
pub open spec fn load_step(f: ConfigFile, facts: WorkspaceFacts) -> LoadStep {
    match f.read {
        FileRead::Missing => LoadStep::Skip,
        FileRead::Failed(m) => LoadStep::Fail(m@),
        FileRead::Text(text) => match toml_parse_of(text@) {
            Err(e) => LoadStep::Broken(
                diagnostic(
                    DiagnosticLevel::Error,
                    slot_name(f.slot),
                    "failed to parse "@ + f.path@ + ": "@ + e,
                ),
            ),
            Ok(v) => {
                let fingerprint = fingerprint_of(vstd::utf8::encode_utf8(text@));
                if f.slot == ConfigSlot::Workspace {
                    LoadStep::Layer(
                        workspace_layer(facts, fingerprint, v),
                        workspace_notes(facts, fingerprint, v),
                    )
                } else {
                    LoadStep::Layer(
                        LayerView {
                            source: slot_source(f.slot),
                            values: v,
                            fingerprint,
                            disabled_reason: None,
                        },
                        Seq::empty(),
                    )
                }
            },
        },
    }
}

/// The layers and diagnostics of a list of files, or the message of the first
/// file that could not be read.
pub open spec fn load_files(files: Seq<ConfigFile>, facts: WorkspaceFacts) -> Result<
    (Seq<LayerView>, Seq<DiagnosticView>),
    Seq<char>,
>
    decreases files.len(),
{
    if files.len() == 0 {
        Ok((Seq::empty(), Seq::empty()))
    } else {
        match load_files(files.drop_last(), facts) {
            Err(e) => Err(e),
            Ok((layers, diags)) => match load_step(files.last(), facts) {
                LoadStep::Skip => Ok((layers, diags)),
                LoadStep::Layer(l, d) => Ok((layers.push(l), diags + d)),
                LoadStep::Broken(d) => Ok((layers, diags.push(d))),
                LoadStep::Fail(m) => Err(m),
            },
        }
    }
}

proof fn lemma_load_files_prefix(files: Seq<ConfigFile>, facts: WorkspaceFacts, n: int)
    requires
        0 <= n <= files.len(),
        load_files(files.take(n), facts) is Err,
    ensures
        load_files(files, facts) == load_files(files.take(n), facts),
    decreases files.len() - n,
{
    if n < files.len() {
        assert(files.take(n + 1).drop_last() =~= files.take(n));
        lemma_load_files_prefix(files, facts, n + 1);
    } else {
        assert(files.take(n) =~= files);
    }
}

/// Loads files, given from the lowest to the highest precedence. A missing
/// file is skipped; a file that is not TOML is reported, and the others are
/// still loaded; a file that cannot be read ends the loading.
pub fn load_all_layers(files: &Vec<ConfigFile>, facts: &WorkspaceFacts) -> (r: Result<
    (Vec<ConfigLayer>, Vec<ConfigDiagnostic>),
    ConfigError,
>)
    ensures
        match r {
            Ok(p) => load_files(files@, *facts) == Ok::<
                (Seq<LayerView>, Seq<DiagnosticView>),
                Seq<char>,
            >((layers_view(p.0@), diagnostics_view(p.1@))),
            Err(ConfigError::Io { message }) => load_files(files@, *facts) == Err::<
                (Seq<LayerView>, Seq<DiagnosticView>),
                Seq<char>,
            >(message@),
            Err(_) => false,
        },
{
    let mut layers: Vec<ConfigLayer> = Vec::new();
    let mut diags: Vec<ConfigDiagnostic> = Vec::new();
    let mut i: usize = 0;
    assert(layers_view(layers@) =~= Seq::empty());
    assert(diagnostics_view(diags@) =~= Seq::empty());
    while i < files.len()
        invariant
            i <= files@.len(),
            load_files(files@.take(i as int), *facts) == Ok::<
                (Seq<LayerView>, Seq<DiagnosticView>),
                Seq<char>,
            >((layers_view(layers@), diagnostics_view(diags@))),
        decreases files@.len() - i,
    {
        proof {
            assert(files@.take(i as int + 1).drop_last() =~= files@.take(i as int));
            assert(files@.take(i as int + 1).last() == files@[i as int]);
        }
        let ghost ls = layers_view(layers@);
        let ghost ds = diagnostics_view(diags@);
        let f = &files[i];
        match &f.read {
            FileRead::Missing => {},
            FileRead::Failed(m) => {
                proof {
                    lemma_load_files_prefix(files@, *facts, i as int + 1);
                }
                return Err(ConfigError::Io { message: m.clone() });
            },
            FileRead::Text(text) => {
                let loaded = match f.slot {
                    ConfigSlot::Workspace => load_workspace(f.path.as_str(), text.as_str(), facts),
                    _ => {
                        let source = match f.slot {
                            ConfigSlot::System => ConfigLayerSource::System,
                            ConfigSlot::Enterprise => ConfigLayerSource::EnterpriseManaged,
                            ConfigSlot::User => ConfigLayerSource::User,
                            _ => ConfigLayerSource::Profile(owned("default")),
                        };
                        let none: Vec<ConfigDiagnostic> = Vec::new();
                        assert(diagnostics_view(none@) =~= Seq::empty());
                        match load_layer(source, f.path.as_str(), text.as_str()) {
                            Ok(l) => Ok((l, none)),
                            Err(e) => Err(e),
                        }
                    },
                };
                match loaded {
                    Ok((layer, notes)) => {
                        let ghost l = layer@;
                        layers.push(layer);
                        report_all(&mut diags, notes);
                        assert(layers_view(layers@) =~= ls.push(l));
                    },
                    Err(e) => {
                        report(&mut diags, DiagnosticLevel::Error, f.slot.name(), e.message());
                    },
                }
            },
        }
        i = i + 1;
    }
    assert(files@.take(files@.len() as int) =~= files@);
    Ok((layers, diags))
}

/// The layer of a workspace file, with what there is to say about it.
fn load_workspace(path: &str, text: &str, facts: &WorkspaceFacts) -> (r: Result<
    (ConfigLayer, Vec<ConfigDiagnostic>),
    ConfigError,
>)
    ensures
        ({
            let fingerprint = fingerprint_of(vstd::utf8::encode_utf8(text@));
            match r {
                Ok(p) => toml_parse_of(text@) matches Ok(v) && p.0@ == workspace_layer(
                    *facts,
                    fingerprint,
                    v,
                ) && diagnostics_view(p.1@) == workspace_notes(*facts, fingerprint, v),
                Err(ConfigError::Parse { path: p, error }) => p@ == path@ && toml_parse_of(text@)
                    == Err::<TomlView, Seq<char>>(error@),
                Err(_) => false,
            }
        }),
{
    let (values, fingerprint) = match load_toml(path, text) {
        Ok(p) => p,
        Err(e) => {
            return Err(e);
        },
    };
    let trusted = match values.get("workspace") {
        Some(w) => match w.get("trusted") {
            Some(b) => match b.as_bool() {
                Some(x) => x,
                None => false,
            },
            None => false,
        },
        None => false,
    };
    let risky = high_risk_keys(&values);
    let binding = WorkspaceTrustBinding::compute(
        facts.canonical_path.clone(),
        opt_clone(&facts.remote),
        fingerprint.clone(),
        clone_list(&risky),
    );
    let mut notes: Vec<ConfigDiagnostic> = Vec::new();
    let ghost v = values@;
    assert(diagnostics_view(notes@) =~= Seq::empty());
    let mut disabled_reason: Option<String> = None;
    if !trusted {
        let mut m = owned("workspace untrusted; quarantined (workspace binding hash: ");
        m.append(binding.binding_hash.as_str());
        m.append(", high-risk keys detected: ");
        m.append(debug_list(&binding.high_risk_keys).as_str());
        m.append(")");
        disabled_reason = Some(m);
        let mut m = owned(
            "workspace layer quarantined: not trusted; values not merged into effective config. binding = ",
        );
        m.append(binding.binding_hash.as_str());
        m.append("; high-risk = ");
        m.append(debug_list(&binding.high_risk_keys).as_str());
        report(&mut notes, DiagnosticLevel::Warning, "workspace", m);
    } else if risky.len() > 0 {
        let mut m = owned(
            "workspace trusted but review_required: high-risk keys present; re-validate trust. binding = ",
        );
        m.append(binding.binding_hash.as_str());
        m.append("; keys = ");
        m.append(debug_list(&binding.high_risk_keys).as_str());
        report(&mut notes, DiagnosticLevel::Warning, "workspace", m);
    }
    assert(diagnostics_view(notes@) =~= workspace_notes(*facts, fingerprint@, v));
    Ok(
        (
            ConfigLayer {
                source: ConfigLayerSource::Workspace { trusted },
                values,
                fingerprint,
                disabled_reason,
            },
            notes,
        ),
    )
}

/// Whether the table at `table` has the key `key`.
pub open spec fn has_nested(
    t: Seq<(Seq<char>, TomlView)>,
    table: Seq<char>,
    key: Seq<char>,
) -> bool {
    table_in(lookup(t, table)) matches Some(s) && lookup(s, key) is Some
}

/// Whether one of the first `n` entries of `h` is the hook named by `path`.
pub open spec fn hook_among(h: Seq<(Seq<char>, TomlView)>, n: int, path: Seq<char>) -> bool {
    exists|i: int| 0 <= i < n && path == "hooks."@ + (#[trigger] h[i]).0
}

/// Whether `path` is `hooks.` and the name of a hook.
pub open spec fn is_hook(t: Seq<(Seq<char>, TomlView)>, path: Seq<char>) -> bool {
    match table_in(lookup(t, "hooks"@)) {
        Some(h) => hook_among(h, h.len() as int, path),
        None => false,
    }
}

/// Whether a value is the text of an absolute path.
pub open spec fn is_absolute(v: TomlView) -> bool {
    match v {
        TomlView::Text(s) => crate::text::has_prefix(s, "/"@),
        _ => false,
    }
}

/// Whether one of the first `n` entries of `p` is absolute and named by `path`.
pub open spec fn absolute_among(p: Seq<(Seq<char>, TomlView)>, n: int, path: Seq<char>) -> bool {
    exists|i: int| 0 <= i < n && path == "paths."@ + (#[trigger] p[i]).0 && is_absolute(p[i].1)
}

/// Whether `path` is `paths.` and the name of an absolute path.
pub open spec fn is_absolute_path(t: Seq<(Seq<char>, TomlView)>, path: Seq<char>) -> bool {
    match table_in(lookup(t, "paths"@)) {
        Some(p) => absolute_among(p, p.len() as int, path),
        None => false,
    }
}

/// Whether `path` names a key of `t` that can run code, reach the network or
/// leave the workspace.
pub open spec fn risky_in(t: Seq<(Seq<char>, TomlView)>, path: Seq<char>) -> bool {
    ||| is_hook(t, path)
    ||| path == "mcp.servers"@ && has_nested(t, "mcp"@, "servers"@)
    ||| path == "skills"@ && lookup(t, "skills"@) is Some
    ||| path == "plugins"@ && lookup(t, "plugins"@) is Some
    ||| path == "network.domains"@ && has_nested(t, "network"@, "domains"@)
    ||| path == "network.allow_list"@ && has_nested(t, "network"@, "allow_list"@)
    ||| path == "network.deny_list"@ && has_nested(t, "network"@, "deny_list"@)
    ||| path == "network.proxy"@ && has_nested(t, "network"@, "proxy"@)
    ||| path == "security.external_paths"@ && has_nested(t, "security"@, "external_paths"@)
    ||| path == "sandbox.allow_paths_outside_workspace"@ && has_nested(
        t,
        "sandbox"@,
        "allow_paths_outside_workspace"@,
    )
    ||| path == "credential.insecure_storage"@ && has_nested(t, "credential"@, "insecure_storage"@)
    ||| path == "credential.keychain_sharing"@ && has_nested(t, "credential"@, "keychain_sharing"@)
    ||| is_absolute_path(t, path)
}

/// Whether `path` names a risky key of a value.
pub open spec fn is_high_risk(v: TomlView, path: Seq<char>) -> bool {
    v matches TomlView::Table(t) && risky_in(t, path)
}

/// Whether `l` lists the risky keys of `v` in strict order.
pub open spec fn lists_high_risk(v: TomlView, l: Seq<Seq<char>>) -> bool {
    in_text_order(l) && forall|k: Seq<char>| #[trigger] l.contains(k) <==> is_high_risk(v, k)
}

/// The risky keys of a value in strict order.
pub open spec fn high_risk_list(v: TomlView) -> Seq<Seq<char>> {
    choose|l: Seq<Seq<char>>| lists_high_risk(v, l)
}

/// Two lists in strict order with the same members are the same list.
pub proof fn ordered_lists_are_equal(a: Seq<Seq<char>>, b: Seq<Seq<char>>)
    requires
        in_text_order(a),
        in_text_order(b),
        forall|k: Seq<char>| #[trigger] a.contains(k) <==> b.contains(k),
    ensures
        a == b,
    decreases a.len(),
{
    if a.len() == 0 {
        if b.len() > 0 {
            assert(b.contains(b[0]));
            assert(a.contains(b[0]));
        }
        assert(a =~= b);
    } else {
        let x = a.last();
        assert(a.contains(x)) by {
            assert(a[a.len() - 1] == x);
        }
        assert(b.contains(x));
        let i = choose|i: int| 0 <= i < b.len() && b[i] == x;
        let y = b.last();
        assert(b[b.len() - 1] == y);
        assert(b.contains(y));
        assert(a.contains(y));
        let j = choose|j: int| 0 <= j < a.len() && a[j] == y;
        assert(x == y) by {
            text_lt_total(x, y);
            if i < b.len() - 1 {
                assert(text_lt(b[i], b[b.len() - 1]));
            }
            if j < a.len() - 1 {
                assert(text_lt(a[j], a[a.len() - 1]));
            }
        }
        let a1 = a.drop_last();
        let b1 = b.drop_last();
        text_lt_irreflexive(x);
        assert forall|k: Seq<char>| #[trigger] a1.contains(k) <==> b1.contains(k) by {
            if a1.contains(k) {
                let p = choose|p: int| 0 <= p < a1.len() && a1[p] == k;
                assert(a[p] == k);
                assert(text_lt(a[p], a[a.len() - 1]));
                assert(a.contains(k));
                let q = choose|q: int| 0 <= q < b.len() && b[q] == k;
                assert(q < b.len() - 1);
                assert(b1[q] == k);
            }
            if b1.contains(k) {
                let p = choose|p: int| 0 <= p < b1.len() && b1[p] == k;
                assert(b[p] == k);
                assert(text_lt(b[p], b[b.len() - 1]));
                assert(b.contains(k));
                assert(a.contains(k));
                let q = choose|q: int| 0 <= q < a.len() && a[q] == k;
                assert(q < a.len() - 1);
                assert(a1[q] == k);
            }
        }
        assert forall|p: int, q: int| 0 <= p < q < a1.len() implies text_lt(
            #[trigger] a1[p],
            #[trigger] a1[q],
        ) by {
            assert(a1[p] == a[p] && a1[q] == a[q]);
        }
        assert forall|p: int, q: int| 0 <= p < q < b1.len() implies text_lt(
            #[trigger] b1[p],
            #[trigger] b1[q],
        ) by {
            assert(b1[p] == b[p] && b1[q] == b[q]);
        }
        ordered_lists_are_equal(a1, b1);
        assert(a =~= a1.push(x));
        assert(b =~= b1.push(x));
    }
}

/// Adds `path` where the table at `table` has the key `key`.
fn add_nested(keys: &mut Vec<String>, t: &Vec<TomlEntry>, table: &str, key: &str, path: &str)
    requires
        in_text_order(views(old(keys)@)),
    ensures
        in_text_order(views(final(keys)@)),
        forall|k: Seq<char>| #[trigger]
            views(final(keys)@).contains(k) <==> (views(old(keys)@).contains(k) || (k == path@
                && has_nested(entries_view(t@), table@, key@))),
{
    if let Some(v) = find(t, table) {
        if let Some(s) = v.as_table() {
            if position(s, key) < s.len() {
                add_sorted(keys, owned(path));
            }
        }
    }
}

/// Adds `path` where there is the key `key`.
fn add_top(keys: &mut Vec<String>, t: &Vec<TomlEntry>, key: &str)
    requires
        in_text_order(views(old(keys)@)),
    ensures
        in_text_order(views(final(keys)@)),
        forall|k: Seq<char>| #[trigger]
            views(final(keys)@).contains(k) <==> (views(old(keys)@).contains(k) || (k == key@
                && lookup(entries_view(t@), key@) is Some)),
{
    if position(t, key) < t.len() {
        add_sorted(keys, owned(key));
    }
}

/// Adds `hooks.<name>` for each hook.
fn add_hooks(keys: &mut Vec<String>, t: &Vec<TomlEntry>)
    requires
        in_text_order(views(old(keys)@)),
    ensures
        in_text_order(views(final(keys)@)),
        forall|k: Seq<char>| #[trigger]
            views(final(keys)@).contains(k) <==> (views(old(keys)@).contains(k) || is_hook(
                entries_view(t@),
                k,
            )),
{
    let ghost k0 = views(keys@);
    if let Some(v) = find(t, "hooks") {
        if let Some(h) = v.as_table() {
            let ghost hv = entries_view(h@);
            let mut i: usize = 0;
            while i < h.len()
                invariant
                    i <= h@.len(),
                    hv == entries_view(h@),
                    in_text_order(views(keys@)),
                    forall|k: Seq<char>| #[trigger]
                        views(keys@).contains(k) <==> (k0.contains(k) || hook_among(
                            hv,
                            i as int,
                            k,
                        )),
                decreases h@.len() - i,
            {
                let mut p = owned("hooks.");
                p.append(h[i].key.as_str());
                let ghost name = p@;
                assert(hv[i as int].0 == h@[i as int].key@);
                add_sorted(keys, p);
                assert forall|k: Seq<char>| hook_among(hv, i as int + 1, k) <==> (hook_among(
                    hv,
                    i as int,
                    k,
                ) || k == name) by {
                    if k == name {
                        assert(k == "hooks."@ + hv[i as int].0);
                    }
                }
                i = i + 1;
            }
            assert(hv.len() == h@.len());
        }
    }
}

/// Adds `paths.<name>` for each absolute path.
fn add_absolute_paths(keys: &mut Vec<String>, t: &Vec<TomlEntry>)
    requires
        in_text_order(views(old(keys)@)),
    ensures
        in_text_order(views(final(keys)@)),
        forall|k: Seq<char>| #[trigger]
            views(final(keys)@).contains(k) <==> (views(old(keys)@).contains(k)
                || is_absolute_path(entries_view(t@), k)),
{
    let ghost k0 = views(keys@);
    if let Some(v) = find(t, "paths") {
        if let Some(h) = v.as_table() {
            let ghost hv = entries_view(h@);
            let mut i: usize = 0;
            while i < h.len()
                invariant
                    i <= h@.len(),
                    hv == entries_view(h@),
                    in_text_order(views(keys@)),
                    forall|k: Seq<char>| #[trigger]
                        views(keys@).contains(k) <==> (k0.contains(k) || absolute_among(
                            hv,
                            i as int,
                            k,
                        )),
                decreases h@.len() - i,
            {
                assert(hv[i as int] == (h@[i as int].key@, h@[i as int].value@));
                let ghost name = "paths."@ + h@[i as int].key@;
                let mut absolute = false;
                if let Some(s) = h[i].value.as_str() {
                    absolute = starts_with(s, "/");
                }
                assert(absolute == is_absolute(hv[i as int].1));
                if absolute {
                    let mut p = owned("paths.");
                    p.append(h[i].key.as_str());
                    add_sorted(keys, p);
                }
                assert forall|k: Seq<char>| absolute_among(hv, i as int + 1, k) <==> (
                absolute_among(hv, i as int, k) || (k == name && absolute)) by {
                    if k == name && absolute {
                        assert(k == "paths."@ + hv[i as int].0);
                    }
                }
                i = i + 1;
            }
            assert(hv.len() == h@.len());
        }
    }
}

/// The risky keys of a value, in order, each once.
pub fn high_risk_keys(values: &TomlValue) -> (r: Vec<String>)
    ensures
        lists_high_risk(values@, views(r@)),
        views(r@) == high_risk_list(values@),
{
    let mut keys: Vec<String> = Vec::new();
    assert(views(keys@) =~= Seq::empty());
    if let Some(t) = values.as_table() {
        add_hooks(&mut keys, t);
        add_nested(&mut keys, t, "mcp", "servers", "mcp.servers");
        add_top(&mut keys, t, "skills");
        add_top(&mut keys, t, "plugins");
        add_nested(&mut keys, t, "network", "domains", "network.domains");
        add_nested(&mut keys, t, "network", "allow_list", "network.allow_list");
        add_nested(&mut keys, t, "network", "deny_list", "network.deny_list");
        add_nested(&mut keys, t, "network", "proxy", "network.proxy");
        add_nested(&mut keys, t, "security", "external_paths", "security.external_paths");
        add_nested(
            &mut keys,
            t,
            "sandbox",
            "allow_paths_outside_workspace",
            "sandbox.allow_paths_outside_workspace",
        );
        add_nested(&mut keys, t, "credential", "insecure_storage", "credential.insecure_storage");
        add_nested(&mut keys, t, "credential", "keychain_sharing", "credential.keychain_sharing");
        add_absolute_paths(&mut keys, t);
    }
    proof {
        assert(lists_high_risk(values@, views(keys@)));
        ordered_lists_are_equal(views(keys@), high_risk_list(values@));
    }
    keys
}

/// An untrusted workspace file gives a layer that is left out.
pub proof fn untrusted_workspace_is_disabled(
    facts: WorkspaceFacts,
    fingerprint: Seq<char>,
    v: TomlView,
)
    ensures
        (workspace_layer(facts, fingerprint, v).disabled_reason is None) == says_trusted(v),
        workspace_layer(facts, fingerprint, v).source == SourceView::Workspace(says_trusted(v)),
{
}

/// A workspace is trusted only where its own file says so, with a flag that is
/// true; otherwise its layer is left out. Its values are those of the file
/// either way.
pub proof fn trust_must_be_stated(facts: WorkspaceFacts, fingerprint: Seq<char>, v: TomlView)
    ensures
        ({
            let l = workspace_layer(facts, fingerprint, v);
            let stated = get(v, "workspace"@) matches Some(w) && get(w, "trusted"@) == Some(
                TomlView::Boolean(true),
            );
            &&& l.disabled_reason is None <==> stated
            &&& l.source == SourceView::Workspace(stated)
            &&& l.values == v
            &&& l.fingerprint == fingerprint
            &&& !stated ==> workspace_notes(facts, fingerprint, v).len() == 1
            &&& stated ==> (workspace_notes(facts, fingerprint, v).len() == 0 <==> high_risk_list(
                v,
            ).len() == 0)
        }),
{
}

/// A file that is not there changes nothing; one that cannot be read ends the
/// loading with its error.
pub proof fn missing_files_are_skipped(
    files: Seq<ConfigFile>,
    f: ConfigFile,
    facts: WorkspaceFacts,
)
    ensures
        f.read is Missing ==> load_files(files.push(f), facts) == load_files(files, facts),
        (f.read matches FileRead::Failed(m) && load_files(files, facts) is Ok) ==> load_files(
            files.push(f),
            facts,
        ) == Err::<(Seq<LayerView>, Seq<DiagnosticView>), Seq<char>>(f.read->Failed_0@),
        load_files(files, facts) is Err ==> load_files(files.push(f), facts) == load_files(
            files,
            facts,
        ),
        load_files(Seq::empty(), facts) == Ok::<(Seq<LayerView>, Seq<DiagnosticView>), Seq<char>>(
            (Seq::empty(), Seq::empty()),
        ),
{
    assert(files.push(f).drop_last() =~= files);
}

/// A file that is not TOML gives no layer and one error, which names the file
/// and says what is wrong; the other files count all the same.
pub proof fn broken_files_are_reported(
    files: Seq<ConfigFile>,
    f: ConfigFile,
    facts: WorkspaceFacts,
    text: String,
    error: Seq<char>,
)
    requires
        f.read == FileRead::Text(text),
        toml_parse_of(text@) == Err::<TomlView, Seq<char>>(error),
        load_files(files, facts) is Ok,
    ensures
        load_files(files.push(f), facts) matches Ok(p) && {
            let q = load_files(files, facts)->Ok_0;
            &&& p.0 == q.0
            &&& p.1.len() == q.1.len() + 1
            &&& p.1.drop_last() == q.1
            &&& p.1.last().level == DiagnosticLevel::Error
            &&& p.1.last().message == "failed to parse "@ + f.path@ + ": "@ + error
        },
{
    assert(files.push(f).drop_last() =~= files);
    let q = load_files(files, facts)->Ok_0;
    let p = load_files(files.push(f), facts)->Ok_0;
    assert(p.1.drop_last() =~= q.1);
}

/// A file that is TOML gives a layer on top of those before it, with the values
/// and the digest of its text. It is the layer of the place where the file
/// stands, and only the workspace's can be left out.
pub proof fn files_are_layers(
    files: Seq<ConfigFile>,
    f: ConfigFile,
    facts: WorkspaceFacts,
    text: String,
    v: TomlView,
)
    requires
        f.read == FileRead::Text(text),
        toml_parse_of(text@) == Ok::<TomlView, Seq<char>>(v),
        load_files(files, facts) is Ok,
    ensures
        load_files(files.push(f), facts) matches Ok(p) && {
            let q = load_files(files, facts)->Ok_0;
            let l = p.0.last();
            &&& p.0.len() == q.0.len() + 1
            &&& p.0.drop_last() == q.0
            &&& l.values == v
            &&& l.fingerprint == fingerprint_of(vstd::utf8::encode_utf8(text@))
            &&& f.slot == ConfigSlot::System ==> l.source == SourceView::System
            &&& f.slot == ConfigSlot::Enterprise ==> l.source == SourceView::EnterpriseManaged
            &&& f.slot == ConfigSlot::User ==> l.source == SourceView::User
            &&& f.slot == ConfigSlot::Profile ==> l.source is Profile
            &&& f.slot == ConfigSlot::Workspace ==> l.source is Workspace
            &&& f.slot != ConfigSlot::Workspace ==> l.disabled_reason is None && p.1 == q.1
        },
{
    assert(files.push(f).drop_last() =~= files);
    let q = load_files(files, facts)->Ok_0;
    let p = load_files(files.push(f), facts)->Ok_0;
    assert(p.0.drop_last() =~= q.0);
    assert(q.1 + Seq::<DiagnosticView>::empty() =~= q.1);
}

/// Whether a table has a key in a table of its own.
pub open spec fn says(v: TomlView, table: Seq<char>, key: Seq<char>) -> bool {
    get(v, table) matches Some(TomlView::Table(s)) && lookup(s, key) is Some
}

/// Each setting that gives a workspace power over the machine is among the risky
/// keys.
pub proof fn powerful_settings_are_risky(v: TomlView, l: Seq<Seq<char>>)
    requires
        lists_high_risk(v, l),
    ensures
        says(v, "mcp"@, "servers"@) ==> l.contains("mcp.servers"@),
        get(v, "skills"@) is Some ==> l.contains("skills"@),
        get(v, "plugins"@) is Some ==> l.contains("plugins"@),
        says(v, "network"@, "domains"@) ==> l.contains("network.domains"@),
        says(v, "network"@, "allow_list"@) ==> l.contains("network.allow_list"@),
        says(v, "network"@, "deny_list"@) ==> l.contains("network.deny_list"@),
        says(v, "network"@, "proxy"@) ==> l.contains("network.proxy"@),
        says(v, "security"@, "external_paths"@) ==> l.contains("security.external_paths"@),
        says(v, "sandbox"@, "allow_paths_outside_workspace"@) ==> l.contains(
            "sandbox.allow_paths_outside_workspace"@,
        ),
        says(v, "credential"@, "insecure_storage"@) ==> l.contains("credential.insecure_storage"@),
        says(v, "credential"@, "keychain_sharing"@) ==> l.contains("credential.keychain_sharing"@),
{
    let ps = seq![
        "mcp.servers"@,
        "skills"@,
        "plugins"@,
        "network.domains"@,
        "network.allow_list"@,
        "network.deny_list"@,
        "network.proxy"@,
        "security.external_paths"@,
        "sandbox.allow_paths_outside_workspace"@,
        "credential.insecure_storage"@,
        "credential.keychain_sharing"@,
    ];
    assert forall|i: int| 0 <= i < ps.len() implies (l.contains(#[trigger] ps[i]) <==> is_high_risk(
        v,
        ps[i],
    )) by {}
    assert(ps[0] == "mcp.servers"@ && ps[1] == "skills"@ && ps[2] == "plugins"@);
    assert(ps[3] == "network.domains"@ && ps[4] == "network.allow_list"@ && ps[5]
        == "network.deny_list"@ && ps[6] == "network.proxy"@);
    assert(ps[7] == "security.external_paths"@ && ps[8] == "sandbox.allow_paths_outside_workspace"@
        && ps[9] == "credential.insecure_storage"@ && ps[10] == "credential.keychain_sharing"@);
}

/// Every hook and every absolute path is among the risky keys, under its name.
pub proof fn hooks_and_absolute_paths_are_risky(
    v: TomlView,
    l: Seq<Seq<char>>,
    t: Seq<(Seq<char>, TomlView)>,
    i: int,
    s: Seq<char>,
)
    requires
        lists_high_risk(v, l),
        0 <= i < t.len(),
    ensures
        get(v, "hooks"@) == Some(TomlView::Table(t)) ==> l.contains("hooks."@ + t[i].0),
        get(v, "paths"@) == Some(TomlView::Table(t)) && t[i].1 == TomlView::Text(s) && s.len() > 0
            && s[0] == '/' ==> l.contains("paths."@ + t[i].0),
{
    reveal_strlit("/");
    let a = "hooks."@ + t[i].0;
    let b = "paths."@ + t[i].0;
    match v {
        TomlView::Table(top) => {
            if get(v, "hooks"@) == Some(TomlView::Table(t)) {
                assert(hook_among(t, t.len() as int, a));
                assert(is_high_risk(v, a));
                assert(l.contains(a));
            }
            if get(v, "paths"@) == Some(TomlView::Table(t)) && t[i].1 == TomlView::Text(s)
                && s.len() > 0 && s[0] == '/' {
                assert(s.take(1) =~= "/"@);
                assert(is_absolute(t[i].1));
                assert(absolute_among(t, t.len() as int, b));
                assert(is_high_risk(v, b));
                assert(l.contains(b));
            }
        },
        _ => {},
    }
}

/// Nothing else is among the risky keys: each is there for a setting that the
/// configuration has.
pub proof fn risky_keys_are_settings(v: TomlView, l: Seq<Seq<char>>, k: Seq<char>)
    requires
        lists_high_risk(v, l),
        l.contains(k),
    ensures
        ({
            ||| k == "mcp.servers"@ && says(v, "mcp"@, "servers"@)
            ||| k == "skills"@ && get(v, "skills"@) is Some
            ||| k == "plugins"@ && get(v, "plugins"@) is Some
            ||| k == "network.domains"@ && says(v, "network"@, "domains"@)
            ||| k == "network.allow_list"@ && says(v, "network"@, "allow_list"@)
            ||| k == "network.deny_list"@ && says(v, "network"@, "deny_list"@)
            ||| k == "network.proxy"@ && says(v, "network"@, "proxy"@)
            ||| k == "security.external_paths"@ && says(v, "security"@, "external_paths"@)
            ||| k == "sandbox.allow_paths_outside_workspace"@ && says(
                v,
                "sandbox"@,
                "allow_paths_outside_workspace"@,
            )
            ||| k == "credential.insecure_storage"@ && says(v, "credential"@, "insecure_storage"@)
            ||| k == "credential.keychain_sharing"@ && says(v, "credential"@, "keychain_sharing"@)
            ||| (get(v, "hooks"@) matches Some(TomlView::Table(t)) && exists|i: int|
                0 <= i < t.len() && k == "hooks."@ + (#[trigger] t[i]).0)
            ||| (get(v, "paths"@) matches Some(TomlView::Table(t)) && exists|i: int|
                0 <= i < t.len() && k == "paths."@ + (#[trigger] t[i]).0 && (t[i].1
                    matches TomlView::Text(s) && s.len() > 0 && s[0] == '/'))
        }),
{
    reveal_strlit("/");
    assert(is_high_risk(v, k));
    match v {
        TomlView::Table(top) => {
            if is_absolute_path(top, k) {
                let p = table_in(lookup(top, "paths"@))->0;
                let i = choose|i: int|
                    0 <= i < p.len() && k == "paths."@ + (#[trigger] p[i]).0 && is_absolute(p[i].1);
                match p[i].1 {
                    TomlView::Text(s) => {
                        assert(s.take(1)[0] == s[0]);
                    },
                    _ => {},
                }
            }
        },
        _ => {},
    }
}

/// The file of the system stands where its kind keeps such files, and nowhere on
/// a system of another kind.
pub proof fn systems_have_their_file(platform: Platform)
    ensures
        platform is Linux ==> system_path_of(platform) == Some("/etc/grodex/config.toml"@),
        platform is MacOs ==> system_path_of(platform) == Some(
            "/Library/Application Support/grodex/config.toml"@,
        ),
        system_path_of(platform) is Some ==> platform is Linux || platform is MacOs,
{
}

/// A file that is known is one source, and a missing one none.
pub proof fn known_files_are_sources(slot: ConfigSlot, p: String)
    ensures
        at_slot(slot, Some(p)) == seq![(slot, p@)],
        at_slot(slot, None).len() == 0,
{
}

/// The names of the places of a configuration.
pub proof fn places_have_names()
    ensures
        slot_name(ConfigSlot::System) == "system"@,
        slot_name(ConfigSlot::Enterprise) == "enterprise"@,
        slot_name(ConfigSlot::User) == "user"@,
        slot_name(ConfigSlot::Profile) == "profile"@,
        slot_name(ConfigSlot::Workspace) == "workspace"@,
{
}

} // verus!
