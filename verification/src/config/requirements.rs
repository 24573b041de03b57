//! Enterprise requirements: constraints that user values cannot override.
//!
//! A value that conflicts with a requirement is replaced by what is required,
//! and the replacement is reported.

use vstd::prelude::*;
use vstd::string::*;

use crate::config::glob::{glob_match, glob_matches};
use crate::config::values::{
    diagnostic, diagnostics_view, empty_table, new_table, report, ConfigDiagnostic, DiagnosticLevel,
    DiagnosticView,
};
use crate::entries::{lookup, lookup_after_put, put};
use crate::text::{
    clone_list, debug_list, debug_list_of, decimal, decimal_string, list_contains, opt_view, owned,
    same, views,
};
use crate::toml_value::{
    array_in, bool_in, entries_view, find, find_bool, find_text, find_texts, get, items_view,
    lemma_array_view, lemma_table_view, position, set_key, table_in, take_value, text_in, texts_of,
    TomlEntry, TomlValue, TomlView,
};

verus! {

/// What an enterprise requires of the configuration.
#[derive(Debug)]
pub struct RequirementBinding {
    /// Patterns that are always denied.
    pub managed_deny: Vec<String>,
    /// The only allowed model provider.
    pub forced_provider: Option<String>,
    /// The required type of sandbox.
    pub required_sandbox: Option<String>,
    /// Features that are switched off.
    pub disabled_features: Vec<String>,
    /// Globs of the allowed sources of MCP servers.
    pub allowed_mcp_sources: Vec<String>,
    /// Whether credentials must lie in the system's keychain.
    pub require_keychain_storage: bool,
}

/// The mathematical value of a [`RequirementBinding`].
pub struct RequirementView {
    pub managed_deny: Seq<Seq<char>>,
    pub forced_provider: Option<Seq<char>>,
    pub required_sandbox: Option<Seq<char>>,
    pub disabled_features: Seq<Seq<char>>,
    pub allowed_mcp_sources: Seq<Seq<char>>,
    pub require_keychain_storage: bool,
}

impl View for RequirementBinding {
    type V = RequirementView;

    open spec fn view(&self) -> RequirementView {
        RequirementView {
            managed_deny: views(self.managed_deny@),
            forced_provider: opt_view(self.forced_provider),
            required_sandbox: opt_view(self.required_sandbox),
            disabled_features: views(self.disabled_features@),
            allowed_mcp_sources: views(self.allowed_mcp_sources@),
            require_keychain_storage: self.require_keychain_storage,
        }
    }
}

impl RequirementView {
    /// Whether nothing is required.
    pub open spec fn is_empty(self) -> bool {
        &&& self.managed_deny.len() == 0
        &&& self.forced_provider is None
        &&& self.required_sandbox is None
        &&& self.disabled_features.len() == 0
        &&& self.allowed_mcp_sources.len() == 0
        &&& !self.require_keychain_storage
    }
}

/// No requirement at all.
pub open spec fn no_requirements() -> RequirementView {
    RequirementView {
        managed_deny: Seq::empty(),
        forced_provider: None,
        required_sandbox: None,
        disabled_features: Seq::empty(),
        allowed_mcp_sources: Seq::empty(),
        require_keychain_storage: false,
    }
}

/// The texts in the array of a key, or none.
pub open spec fn text_list(t: Seq<(Seq<char>, TomlView)>, key: Seq<char>) -> Seq<Seq<char>> {
    match array_in(lookup(t, key)) {
        Some(a) => texts_of(a),
        None => Seq::empty(),
    }
}

/// The requirements that the `[requirements]` table of a value states.
pub open spec fn requirements_in(v: TomlView) -> RequirementView {
    match table_in(get(v, "requirements"@)) {
        Some(t) => RequirementView {
            managed_deny: text_list(t, "managed_deny"@),
            forced_provider: text_in(lookup(t, "forced_provider"@)),
            required_sandbox: text_in(lookup(t, "required_sandbox"@)),
            disabled_features: text_list(t, "disabled_features"@),
            allowed_mcp_sources: text_list(t, "allowed_mcp_sources"@),
            require_keychain_storage: bool_in(lookup(t, "require_keychain_storage"@)) == Some(true),
        },
        None => no_requirements(),
    }
}

/// The table with `provider` set to the forced provider.
pub open spec fn with_provider(
    t: Seq<(Seq<char>, TomlView)>,
    forced: Seq<char>,
) -> Seq<(Seq<char>, TomlView)> {
    if text_in(lookup(t, "provider"@)) == Some(forced) {
        t
    } else {
        put(t, "provider"@, TomlView::Text(forced))
    }
}

/// A route candidate with its `provider_id`, if it has one, forced.
pub open spec fn forced_candidate(c: TomlView, forced: Seq<char>) -> TomlView {
    match c {
        TomlView::Table(t) => match lookup(t, "provider_id"@) {
            Some(p) => if p == TomlView::Text(forced) {
                c
            } else {
                TomlView::Table(put(t, "provider_id"@, TomlView::Text(forced)))
            },
            None => c,
        },
        _ => c,
    }
}

/// A route with each of its candidates forced.
pub open spec fn forced_route(r: TomlView, forced: Seq<char>) -> TomlView {
    match r {
        TomlView::Table(t) => match array_in(lookup(t, "candidates"@)) {
            Some(cs) => TomlView::Table(
                put(
                    t,
                    "candidates"@,
                    TomlView::Array(cs.map_values(|c: TomlView| forced_candidate(c, forced))),
                ),
            ),
            None => r,
        },
        _ => r,
    }
}

/// The table with every candidate of every model route forced.
pub open spec fn with_routes(
    t: Seq<(Seq<char>, TomlView)>,
    forced: Seq<char>,
) -> Seq<(Seq<char>, TomlView)> {
    match table_in(lookup(t, "model_routes"@)) {
        Some(routes) => put(
            t,
            "model_routes"@,
            TomlView::Table(
                routes.map_values(|e: (Seq<char>, TomlView)| (e.0, forced_route(e.1, forced))),
            ),
        ),
        None => t,
    }
}

/// The table with an entry for `key`: an empty table where there was none.
pub open spec fn with_entry(t: Seq<(Seq<char>, TomlView)>, key: Seq<char>) -> Seq<
    (Seq<char>, TomlView),
> {
    if lookup(t, key) is Some {
        t
    } else {
        put(t, key, empty_table())
    }
}

/// The table in which the text at `key.sub` is `required`. Where `key` holds
/// something else than a table it stays.
pub open spec fn with_text(
    t: Seq<(Seq<char>, TomlView)>,
    key: Seq<char>,
    sub: Seq<char>,
    required: Seq<char>,
) -> Seq<(Seq<char>, TomlView)> {
    let t1 = with_entry(t, key);
    match table_in(lookup(t1, key)) {
        Some(s) => if text_in(lookup(s, sub)) == Some(required) {
            t1
        } else {
            put(t1, key, TomlView::Table(put(s, sub, TomlView::Text(required))))
        },
        None => t1,
    }
}

/// The value at `key.sub` that gives way to `required`, if there is one.
pub open spec fn replaced_value(
    t: Seq<(Seq<char>, TomlView)>,
    key: Seq<char>,
    sub: Seq<char>,
    required: Seq<char>,
) -> Option<TomlView> {
    match table_in(lookup(t, key)) {
        Some(s) => match lookup(s, sub) {
            Some(p) => if p == TomlView::Text(required) {
                None
            } else {
                Some(p)
            },
            None => None,
        },
        None => None,
    }
}

/// How a report names a value that gave way: a text is quoted.
pub open spec fn given_up(v: TomlView) -> Seq<char> {
    match v {
        TomlView::Text(s) => "'"@ + s + "' "@,
        _ => Seq::empty(),
    }
}

/// The features with each of `names` switched off.
pub open spec fn switched_off(f: Seq<(Seq<char>, TomlView)>, names: Seq<Seq<char>>) -> Seq<
    (Seq<char>, TomlView),
>
    decreases names.len(),
{
    if names.len() == 0 {
        f
    } else {
        let g = switched_off(f, names.drop_last());
        if bool_in(lookup(g, names.last())) == Some(false) {
            g
        } else {
            put(g, names.last(), TomlView::Boolean(false))
        }
    }
}

/// One report for each feature that was not off.
pub open spec fn switched_off_reports(f: Seq<(Seq<char>, TomlView)>, names: Seq<Seq<char>>) -> Seq<
    DiagnosticView,
>
    decreases names.len(),
{
    if names.len() == 0 {
        Seq::empty()
    } else {
        let g = switched_off(f, names.drop_last());
        let below = switched_off_reports(f, names.drop_last());
        match lookup(g, names.last()) {
            Some(v) => if v == TomlView::Boolean(false) {
                below
            } else {
                below.push(
                    diagnostic(
                        DiagnosticLevel::Error,
                        "features."@ + names.last(),
                        "requirement override: features."@ + names.last() + (if v
                            == TomlView::Boolean(true) {
                            " = true"@
                        } else {
                            Seq::empty()
                        }) + " → false (enterprise disabled_features, cannot be re-enabled)"@,
                    ),
                )
            },
            None => below,
        }
    }
}

/// The table with the named features switched off.
pub open spec fn with_features_off(t: Seq<(Seq<char>, TomlView)>, names: Seq<Seq<char>>) -> Seq<
    (Seq<char>, TomlView),
> {
    if names.len() == 0 {
        t
    } else {
        let t1 = with_entry(t, "features"@);
        match table_in(lookup(t1, "features"@)) {
            Some(f) => put(t1, "features"@, TomlView::Table(switched_off(f, names))),
            None => t1,
        }
    }
}

/// The source by which an MCP server is judged: its `source`, else its
/// `command`, else nothing.
pub open spec fn server_source(s: TomlView) -> Seq<char> {
    match text_in(get(s, "source"@)) {
        Some(x) => x,
        None => match text_in(get(s, "command"@)) {
            Some(x) => x,
            None => Seq::empty(),
        },
    }
}

/// Whether one of the globs matches.
pub open spec fn matches_any(globs: Seq<Seq<char>>, text: Seq<char>) -> bool {
    exists|i: int| 0 <= i < globs.len() && #[trigger] glob_matches(globs[i], text)
}

/// The servers whose source is allowed, in order.
pub open spec fn allowed_servers(servers: Seq<TomlView>, globs: Seq<Seq<char>>) -> Seq<TomlView>
    decreases servers.len(),
{
    if servers.len() == 0 {
        Seq::empty()
    } else {
        let below = allowed_servers(servers.drop_last(), globs);
        if matches_any(globs, server_source(servers.last())) {
            below.push(servers.last())
        } else {
            below
        }
    }
}

/// The configured list of MCP servers.
pub open spec fn mcp_servers(t: Seq<(Seq<char>, TomlView)>) -> Option<Seq<TomlView>> {
    match table_in(lookup(t, "mcp"@)) {
        Some(m) => array_in(lookup(m, "servers"@)),
        None => None,
    }
}

/// The table with only the allowed MCP servers.
pub open spec fn with_servers_filtered(t: Seq<(Seq<char>, TomlView)>, globs: Seq<Seq<char>>) -> Seq<
    (Seq<char>, TomlView),
> {
    if globs.len() == 0 {
        t
    } else {
        match (table_in(lookup(t, "mcp"@)), mcp_servers(t)) {
            (Some(m), Some(a)) => put(
                t,
                "mcp"@,
                TomlView::Table(put(m, "servers"@, TomlView::Array(allowed_servers(a, globs)))),
            ),
            _ => t,
        }
    }
}

/// The table after the requirement on the provider.
pub open spec fn after_provider(
    req: RequirementView,
    t: Seq<(Seq<char>, TomlView)>,
) -> Seq<(Seq<char>, TomlView)> {
    match req.forced_provider {
        Some(p) => with_routes(with_provider(t, p), p),
        None => t,
    }
}

/// The table after the requirements on the provider and the sandbox.
pub open spec fn after_sandbox(
    req: RequirementView,
    t: Seq<(Seq<char>, TomlView)>,
) -> Seq<(Seq<char>, TomlView)> {
    match req.required_sandbox {
        Some(s) => with_text(after_provider(req, t), "sandbox"@, "type"@, s),
        None => after_provider(req, t),
    }
}

/// The table after the requirements on provider, sandbox and features.
pub open spec fn after_features(
    req: RequirementView,
    t: Seq<(Seq<char>, TomlView)>,
) -> Seq<(Seq<char>, TomlView)> {
    with_features_off(after_sandbox(req, t), req.disabled_features)
}

/// The table after all requirements but the one on MCP servers.
pub open spec fn after_keychain(
    req: RequirementView,
    t: Seq<(Seq<char>, TomlView)>,
) -> Seq<(Seq<char>, TomlView)> {
    if req.require_keychain_storage {
        with_text(after_features(req, t), "credential"@, "storage"@, "keychain"@)
    } else {
        after_features(req, t)
    }
}

/// The table that meets the requirements.
pub open spec fn enforced_table(
    req: RequirementView,
    t: Seq<(Seq<char>, TomlView)>,
) -> Seq<(Seq<char>, TomlView)> {
    with_servers_filtered(after_keychain(req, t), req.allowed_mcp_sources)
}

/// The value that meets the requirements.
pub open spec fn enforced(req: RequirementView, v: TomlView) -> TomlView {
    match v {
        TomlView::Table(t) => if req.is_empty() {
            v
        } else {
            TomlView::Table(enforced_table(req, t))
        },
        _ => v,
    }
}

/// An optional diagnostic as a list.
pub open spec fn at_most_one(d: Option<DiagnosticView>) -> Seq<DiagnosticView> {
    match d {
        Some(x) => seq![x],
        None => Seq::empty(),
    }
}

/// The report of a replaced provider.
pub open spec fn provider_report(req: RequirementView, t: Seq<(Seq<char>, TomlView)>) -> Option<
    DiagnosticView,
> {
    match (req.forced_provider, lookup(t, "provider"@)) {
        (Some(forced), Some(prev)) => if prev == TomlView::Text(forced) {
            None
        } else {
            Some(
                diagnostic(
                    DiagnosticLevel::Error,
                    "provider"@,
                    "requirement override: provider "@ + given_up(prev) + "→ '"@ + forced
                        + "' (enterprise forced_provider, cannot be overridden)"@,
                ),
            )
        },
        _ => None,
    }
}

/// The report of a replaced provider of a candidate of the route `name`.
pub open spec fn candidate_report(name: Seq<char>, c: TomlView, forced: Seq<char>) -> Option<
    DiagnosticView,
> {
    match get(c, "provider_id"@) {
        Some(prev) => if prev == TomlView::Text(forced) {
            None
        } else {
            Some(
                diagnostic(
                    DiagnosticLevel::Error,
                    "model_routes."@ + name,
                    "requirement override: model_routes."@ + name + " provider_id "@ + given_up(
                        prev,
                    ) + "→ '"@ + forced
                        + "' (enterprise forced_provider, cannot be overridden)"@,
                ),
            )
        },
        None => None,
    }
}

/// The reports of the replaced providers of candidates of the route `name`.
pub open spec fn candidate_reports(name: Seq<char>, cs: Seq<TomlView>, forced: Seq<char>) -> Seq<
    DiagnosticView,
>
    decreases cs.len(),
{
    if cs.len() == 0 {
        Seq::empty()
    } else {
        candidate_reports(name, cs.drop_last(), forced) + at_most_one(
            candidate_report(name, cs.last(), forced),
        )
    }
}

/// The candidates of a route.
pub open spec fn candidates_of(r: TomlView) -> Seq<TomlView> {
    match array_in(get(r, "candidates"@)) {
        Some(cs) => cs,
        None => Seq::empty(),
    }
}

/// The reports of the replaced providers of routes.
pub open spec fn route_reports(routes: Seq<(Seq<char>, TomlView)>, forced: Seq<char>) -> Seq<
    DiagnosticView,
>
    decreases routes.len(),
{
    if routes.len() == 0 {
        Seq::empty()
    } else {
        route_reports(routes.drop_last(), forced) + candidate_reports(
            routes.last().0,
            candidates_of(routes.last().1),
            forced,
        )
    }
}

/// The model routes of a table.
pub open spec fn routes_of(t: Seq<(Seq<char>, TomlView)>) -> Seq<(Seq<char>, TomlView)> {
    match table_in(lookup(t, "model_routes"@)) {
        Some(routes) => routes,
        None => Seq::empty(),
    }
}

/// The reports of replaced providers.
pub open spec fn provider_reports(req: RequirementView, t: Seq<(Seq<char>, TomlView)>) -> Seq<
    DiagnosticView,
> {
    match req.forced_provider {
        Some(forced) => at_most_one(provider_report(req, t)) + route_reports(
            routes_of(t),
            forced,
        ),
        None => Seq::empty(),
    }
}

/// The report of a replaced type of sandbox.
pub open spec fn sandbox_report(req: RequirementView, t: Seq<(Seq<char>, TomlView)>) -> Option<
    DiagnosticView,
> {
    match req.required_sandbox {
        Some(required) => match replaced_value(
            after_provider(req, t),
            "sandbox"@,
            "type"@,
            required,
        ) {
            Some(prev) => Some(
                diagnostic(
                    DiagnosticLevel::Error,
                    "sandbox.type"@,
                    "requirement override: sandbox.type "@ + given_up(prev) + "→ '"@ + required
                        + "' (enterprise required_sandbox, cannot be overridden)"@,
                ),
            ),
            None => None,
        },
        None => None,
    }
}

/// The reports of features that were not off.
pub open spec fn feature_reports(req: RequirementView, t: Seq<(Seq<char>, TomlView)>) -> Seq<
    DiagnosticView,
> {
    if req.disabled_features.len() == 0 {
        Seq::empty()
    } else {
        match table_in(lookup(with_entry(after_sandbox(req, t), "features"@), "features"@)) {
            Some(f) => switched_off_reports(f, req.disabled_features),
            None => Seq::empty(),
        }
    }
}

/// The report of a replaced place for credentials.
pub open spec fn keychain_report(req: RequirementView, t: Seq<(Seq<char>, TomlView)>) -> Option<
    DiagnosticView,
> {
    if req.require_keychain_storage {
        match replaced_value(after_features(req, t), "credential"@, "storage"@, "keychain"@) {
            Some(prev) => Some(
                diagnostic(
                    DiagnosticLevel::Error,
                    "credential.storage"@,
                    "requirement override: credential.storage "@ + given_up(prev)
                        + "→ 'keychain' (enterprise require_keychain_storage, cannot be overridden)"@,
                ),
            ),
            None => None,
        }
    } else {
        None
    }
}

/// The report of removed MCP servers.
pub open spec fn server_report(req: RequirementView, t: Seq<(Seq<char>, TomlView)>) -> Option<
    DiagnosticView,
> {
    let globs = req.allowed_mcp_sources;
    match mcp_servers(after_keychain(req, t)) {
        Some(a) => {
            let removed = a.len() - allowed_servers(a, globs).len();
            if globs.len() > 0 && removed > 0 {
                Some(
                    diagnostic(
                        DiagnosticLevel::Warning,
                        "mcp.servers"@,
                        "requirement filter: removed "@ + decimal(removed as nat)
                            + " MCP server(s) not matching allowed_mcp_sources "@ + debug_list_of(
                            globs,
                        ),
                    ),
                )
            } else {
                None
            }
        },
        None => None,
    }
}

/// The report of the denied patterns.
pub open spec fn deny_report(req: RequirementView) -> Option<DiagnosticView> {
    if req.managed_deny.len() == 0 {
        None
    } else {
        Some(
            diagnostic(
                DiagnosticLevel::Info,
                "requirements.managed_deny"@,
                "managed_deny patterns loaded ("@ + decimal(req.managed_deny.len())
                    + " path(s), enforced at permission layer): "@ + debug_list_of(req.managed_deny),
            ),
        )
    }
}

/// Everything that enforcing the requirements reports, in order.
pub open spec fn enforcement_reports(req: RequirementView, v: TomlView) -> Seq<DiagnosticView> {
    match v {
        TomlView::Table(t) => if req.is_empty() {
            Seq::empty()
        } else {
            provider_reports(req, t) + at_most_one(sandbox_report(req, t))
                + feature_reports(req, t) + at_most_one(keychain_report(req, t)) + at_most_one(
                server_report(req, t),
            ) + at_most_one(deny_report(req))
        },
        _ => Seq::empty(),
    }
}

impl Default for RequirementBinding {
    fn default() -> (r: Self)
        ensures
            r@ == no_requirements(),
    {
        let r = RequirementBinding {
            managed_deny: Vec::new(),
            forced_provider: None,
            required_sandbox: None,
            disabled_features: Vec::new(),
            allowed_mcp_sources: Vec::new(),
            require_keychain_storage: false,
        };
        assert(r@.managed_deny =~= Seq::empty());
        assert(r@.disabled_features =~= Seq::empty());
        assert(r@.allowed_mcp_sources =~= Seq::empty());
        r
    }
}

impl RequirementBinding {
    /// Whether the requirements switch `feature` off.
    pub fn is_feature_disabled(&self, feature: &str) -> (r: bool)
        ensures
            r == self@.disabled_features.contains(feature@),
    {
        list_contains(&self.disabled_features, feature)
    }

    /// The requirements that the `[requirements]` table of `values` states.
    /// What the table leaves out is not required.
    pub fn from_toml(values: &TomlValue) -> (r: Self)
        ensures
            r@ == requirements_in(values@),
    {
        match values.get("requirements") {
            Some(v) => match v.as_table() {
                Some(t) => {
                    let keychain = match find_bool(t, "require_keychain_storage") {
                        Some(b) => b,
                        None => false,
                    };
                    RequirementBinding {
                        managed_deny: find_texts(t, "managed_deny"),
                        forced_provider: find_text(t, "forced_provider"),
                        required_sandbox: find_text(t, "required_sandbox"),
                        disabled_features: find_texts(t, "disabled_features"),
                        allowed_mcp_sources: find_texts(t, "allowed_mcp_sources"),
                        require_keychain_storage: keychain,
                    }
                },
                None => Self::default(),
            },
            None => Self::default(),
        }
    }

    /// Whether nothing is required.
    pub fn is_empty(&self) -> (r: bool)
        ensures
            r == self@.is_empty(),
    {
        self.managed_deny.len() == 0 && self.forced_provider.is_none()
            && self.required_sandbox.is_none() && self.disabled_features.len() == 0
            && self.allowed_mcp_sources.len() == 0 && !self.require_keychain_storage
    }

    /// A copy of the requirements.
    pub fn duplicate(&self) -> (r: Self)
        ensures
            r@ == self@,
    {
        RequirementBinding {
            managed_deny: clone_list(&self.managed_deny),
            forced_provider: crate::text::opt_clone(&self.forced_provider),
            required_sandbox: crate::text::opt_clone(&self.required_sandbox),
            disabled_features: clone_list(&self.disabled_features),
            allowed_mcp_sources: clone_list(&self.allowed_mcp_sources),
            require_keychain_storage: self.require_keychain_storage,
        }
    }

    /// Makes `values` meet the requirements and reports what had to change.
    pub fn enforce(&self, values: TomlValue) -> (r: (TomlValue, Vec<ConfigDiagnostic>))
        ensures
            r.0@ == enforced(self@, values@),
            diagnostics_view(r.1@) == enforcement_reports(self@, values@),
    {
        broadcast use lemma_table_view;

        let mut diags: Vec<ConfigDiagnostic> = Vec::new();
        assert(diagnostics_view(diags@) =~= Seq::empty());
        if self.is_empty() {
            return (values, diags);
        }
        let mut table = match values {
            TomlValue::Table(t) => t,
            other => {
                return (other, diags);
            },
        };
        let ghost t0 = entries_view(table@);
        self.require_provider(&mut table, &mut diags);
        self.require_sandbox(&mut table, &mut diags, Ghost(t0));
        self.require_features_off(&mut table, &mut diags, Ghost(t0));
        self.require_keychain(&mut table, &mut diags, Ghost(t0));
        self.require_server_sources(&mut table, &mut diags, Ghost(t0));
        self.announce_denials(&mut diags);
        proof {
            lemma_table_view(table);
            let none = Seq::<DiagnosticView>::empty();
            assert(none + provider_reports(self@, t0) =~= provider_reports(self@, t0));
        }
        (TomlValue::Table(table), diags)
    }

    fn require_provider(&self, table: &mut Vec<TomlEntry>, diags: &mut Vec<ConfigDiagnostic>)
        ensures
            entries_view(final(table)@) == after_provider(self@, entries_view(old(table)@)),
            diagnostics_view(final(diags)@) == diagnostics_view(old(diags)@) + provider_reports(
                self@,
                entries_view(old(table)@),
            ),
    {
        let ghost t0 = entries_view(table@);
        let ghost d0 = diagnostics_view(diags@);
        if let Some(forced) = &self.forced_provider {
            force_provider(table, forced.as_str(), diags, Ghost(self@));
        }
        assert(diagnostics_view(diags@) =~= d0 + provider_reports(self@, t0));
    }

    fn require_sandbox(
        &self,
        table: &mut Vec<TomlEntry>,
        diags: &mut Vec<ConfigDiagnostic>,
        Ghost(t0): Ghost<Seq<(Seq<char>, TomlView)>>,
    )
        requires
            entries_view(old(table)@) == after_provider(self@, t0),
        ensures
            entries_view(final(table)@) == after_sandbox(self@, t0),
            diagnostics_view(final(diags)@) == diagnostics_view(old(diags)@) + at_most_one(
                sandbox_report(self@, t0),
            ),
    {
        let ghost d0 = diagnostics_view(diags@);
        if let Some(required) = &self.required_sandbox {
            let prev = force_text(table, "sandbox", "type", required.as_str());
            if let Some(prev) = prev {
                let mut m = owned("requirement override: sandbox.type ");
                m.append(prev.as_str());
                m.append("→ '");
                m.append(required.as_str());
                m.append("' (enterprise required_sandbox, cannot be overridden)");
                report(diags, DiagnosticLevel::Error, "sandbox.type", m);
            }
        }
        assert(diagnostics_view(diags@) =~= d0 + at_most_one(sandbox_report(self@, t0)));
    }

    fn require_features_off(
        &self,
        table: &mut Vec<TomlEntry>,
        diags: &mut Vec<ConfigDiagnostic>,
        Ghost(t0): Ghost<Seq<(Seq<char>, TomlView)>>,
    )
        requires
            entries_view(old(table)@) == after_sandbox(self@, t0),
        ensures
            entries_view(final(table)@) == after_features(self@, t0),
            diagnostics_view(final(diags)@) == diagnostics_view(old(diags)@) + feature_reports(
                self@,
                t0,
            ),
    {
        let ghost d0 = diagnostics_view(diags@);
        if self.disabled_features.len() > 0 {
            switch_features_off(table, &self.disabled_features, diags);
        }
        assert(diagnostics_view(diags@) =~= d0 + feature_reports(self@, t0));
    }

    fn require_keychain(
        &self,
        table: &mut Vec<TomlEntry>,
        diags: &mut Vec<ConfigDiagnostic>,
        Ghost(t0): Ghost<Seq<(Seq<char>, TomlView)>>,
    )
        requires
            entries_view(old(table)@) == after_features(self@, t0),
        ensures
            entries_view(final(table)@) == after_keychain(self@, t0),
            diagnostics_view(final(diags)@) == diagnostics_view(old(diags)@) + at_most_one(
                keychain_report(self@, t0),
            ),
    {
        let ghost d0 = diagnostics_view(diags@);
        if self.require_keychain_storage {
            let prev = force_text(table, "credential", "storage", "keychain");
            if let Some(prev) = prev {
                let mut m = owned("requirement override: credential.storage ");
                m.append(prev.as_str());
                m.append(
                    "→ 'keychain' (enterprise require_keychain_storage, cannot be overridden)",
                );
                report(diags, DiagnosticLevel::Error, "credential.storage", m);
            }
        }
        assert(diagnostics_view(diags@) =~= d0 + at_most_one(keychain_report(self@, t0)));
    }

    fn require_server_sources(
        &self,
        table: &mut Vec<TomlEntry>,
        diags: &mut Vec<ConfigDiagnostic>,
        Ghost(t0): Ghost<Seq<(Seq<char>, TomlView)>>,
    )
        requires
            entries_view(old(table)@) == after_keychain(self@, t0),
        ensures
            entries_view(final(table)@) == enforced_table(self@, t0),
            diagnostics_view(final(diags)@) == diagnostics_view(old(diags)@) + at_most_one(
                server_report(self@, t0),
            ),
    {
        let ghost d0 = diagnostics_view(diags@);
        if self.allowed_mcp_sources.len() > 0 {
            let removed: usize = filter_servers(table, &self.allowed_mcp_sources);
            if removed > 0 {
                let mut m = owned("requirement filter: removed ");
                m.append(decimal_string(removed as u64).as_str());
                m.append(" MCP server(s) not matching allowed_mcp_sources ");
                m.append(debug_list(&self.allowed_mcp_sources).as_str());
                report(diags, DiagnosticLevel::Warning, "mcp.servers", m);
            }
        }
        assert(diagnostics_view(diags@) =~= d0 + at_most_one(server_report(self@, t0)));
    }

    fn announce_denials(&self, diags: &mut Vec<ConfigDiagnostic>)
        ensures
            diagnostics_view(final(diags)@) == diagnostics_view(old(diags)@) + at_most_one(
                deny_report(self@),
            ),
    {
        let ghost d0 = diagnostics_view(diags@);
        if self.managed_deny.len() > 0 {
            let mut m = owned("managed_deny patterns loaded (");
            m.append(decimal_string(self.managed_deny.len() as u64).as_str());
            m.append(" path(s), enforced at permission layer): ");
            m.append(debug_list(&self.managed_deny).as_str());
            report(diags, DiagnosticLevel::Info, "requirements.managed_deny", m);
        }
        assert(diagnostics_view(diags@) =~= d0 + at_most_one(deny_report(self@)));
    }
}

/// How a report names a value that gave way.
fn name_given_up(v: &TomlValue) -> (r: String)
    ensures
        r@ == given_up(v@),
{
    match v.as_str() {
        Some(p) => {
            let mut s = owned("'");
            s.append(p);
            s.append("' ");
            s
        },
        None => {
            let none = String::new();
            assert(none@ =~= Seq::empty());
            none
        },
    }
}

/// The value of a key that gives way to a text, as a report names it.
fn giving_way(t: &Vec<TomlEntry>, key: &str, required: &str) -> (r: Option<String>)
    ensures
        match r {
            Some(s) => lookup(entries_view(t@), key@) matches Some(v) && v != TomlView::Text(
                required@,
            ) && s@ == given_up(v),
            None => match lookup(entries_view(t@), key@) {
                Some(v) => v == TomlView::Text(required@),
                None => true,
            },
        },
{
    match find(t, key) {
        Some(v) => {
            let settled = match v.as_str() {
                Some(p) => same(p, required),
                None => false,
            };
            if settled {
                None
            } else {
                Some(name_given_up(v))
            }
        },
        None => None,
    }
}

/// Sets `provider` and the provider of every route candidate.
fn force_provider(
    table: &mut Vec<TomlEntry>,
    forced: &str,
    diags: &mut Vec<ConfigDiagnostic>,
    Ghost(req): Ghost<RequirementView>,
)
    requires
        req.forced_provider == Some(forced@),
    ensures
        entries_view(final(table)@) == with_routes(
            with_provider(entries_view(old(table)@), forced@),
            forced@,
        ),
        diagnostics_view(final(diags)@) == diagnostics_view(old(diags)@) + provider_reports(
            req,
            entries_view(old(table)@),
        ),
{
    let ghost t0 = entries_view(table@);
    let ghost d0 = diagnostics_view(diags@);
    let existing = find_text(table, "provider");
    let settled = match &existing {
        Some(p) => same(p.as_str(), forced),
        None => false,
    };
    if let Some(prev) = giving_way(table, "provider", forced) {
        let mut m = owned("requirement override: provider ");
        m.append(prev.as_str());
        m.append("→ '");
        m.append(forced);
        m.append("' (enterprise forced_provider, cannot be overridden)");
        report(diags, DiagnosticLevel::Error, "provider", m);
    }
    assert(diagnostics_view(diags@) =~= d0 + at_most_one(provider_report(req, t0)));
    if !settled {
        set_key(table, "provider", TomlValue::Text(owned(forced)));
        proof {
            reveal_strlit("provider");
            reveal_strlit("model_routes");
            assert("provider"@.len() != "model_routes"@.len());
            lookup_after_put(t0, "provider"@, TomlView::Text(forced@), "model_routes"@);
        }
    }
    assert(routes_of(entries_view(table@)) == routes_of(t0));
    let ghost d1 = diagnostics_view(diags@);
    force_routes(table, forced, diags);
    assert(diagnostics_view(diags@) =~= d0 + provider_reports(req, t0));
}

/// Forces the provider of every candidate of every route.
fn force_routes(table: &mut Vec<TomlEntry>, forced: &str, diags: &mut Vec<ConfigDiagnostic>)
    ensures
        entries_view(final(table)@) == with_routes(entries_view(old(table)@), forced@),
        diagnostics_view(final(diags)@) == diagnostics_view(old(diags)@) + route_reports(
            routes_of(entries_view(old(table)@)),
            forced@,
        ),
{
    let ghost t = entries_view(table@);
    let ghost d0 = diagnostics_view(diags@);
    assert(d0 + route_reports(Seq::empty(), forced@) =~= d0);
    let at: usize = position(table, "model_routes");
    if at < table.len() {
        match take_value(&mut table[at].value) {
            TomlValue::Table(mut routes) => {
                proof {
                    lemma_table_view(routes);
                }
                let ghost r0 = entries_view(routes@);
                let mut i: usize = 0;
                assert(r0.take(0) =~= Seq::empty());
                while i < routes.len()
                    invariant
                        i <= routes@.len(),
                        routes@.len() == r0.len(),
                        diagnostics_view(diags@) == d0 + route_reports(
                            r0.take(i as int),
                            forced@,
                        ),
                        forall|k: int|
                            0 <= k < i ==> #[trigger] entries_view(routes@)[k] == (
                                r0[k].0,
                                forced_route(r0[k].1, forced@),
                            ),
                        forall|k: int|
                            i <= k < routes@.len() ==> #[trigger] entries_view(routes@)[k] == r0[k],
                    decreases routes@.len() - i,
                {
                    let ghost rs = routes@;
                    assert(entries_view(routes@)[i as int] == r0[i as int]);
                    let name = routes[i].key.clone();
                    let v = take_value(&mut routes[i].value);
                    let w = force_route(v, name.as_str(), forced, diags);
                    routes[i].value = w;
                    proof {
                        assert(r0.take(i as int + 1).drop_last() =~= r0.take(i as int));
                        assert(r0.take(i as int + 1).last() == r0[i as int]);
                        assert(diagnostics_view(diags@) =~= d0 + route_reports(
                            r0.take(i as int + 1),
                            forced@,
                        ));
                    }
                    assert forall|k: int| 0 <= k < routes@.len() && k != i implies
                        #[trigger] entries_view(routes@)[k] == entries_view(rs)[k] by {
                        assert(routes@[k] == rs[k]);
                    }
                    assert(entries_view(routes@)[i as int] == (
                        r0[i as int].0,
                        forced_route(r0[i as int].1, forced@),
                    ));
                    i = i + 1;
                }
                proof {
                    lemma_table_view(routes);
                    assert(r0.take(r0.len() as int) =~= r0);
                    assert(entries_view(routes@) =~= r0.map_values(
                        |e: (Seq<char>, TomlView)| (e.0, forced_route(e.1, forced@)),
                    ));
                }
                table[at].value = TomlValue::Table(routes);
                assert(entries_view(table@) =~= with_routes(t, forced@));
            },
            other => {
                table[at].value = other;
                assert(entries_view(table@) =~= t);
            },
        }
    }
}

/// Forces the provider of every candidate of a route.
fn force_route(
    route: TomlValue,
    name: &str,
    forced: &str,
    diags: &mut Vec<ConfigDiagnostic>,
) -> (r: TomlValue)
    ensures
        r@ == forced_route(route@, forced@),
        diagnostics_view(final(diags)@) == diagnostics_view(old(diags)@) + candidate_reports(
            name@,
            candidates_of(route@),
            forced@,
        ),
{
    let ghost d0 = diagnostics_view(diags@);
    assert(d0 + candidate_reports(name@, Seq::empty(), forced@) =~= d0);
    match route {
        TomlValue::Table(mut t) => {
            proof {
                lemma_table_view(t);
            }
            let ghost t0 = entries_view(t@);
            let at: usize = position(&t, "candidates");
            if at < t.len() {
                match take_value(&mut t[at].value) {
                    TomlValue::Array(cs) => {
                        proof {
                            lemma_array_view(cs);
                        }
                        let out = force_candidates(cs, name, forced, diags);
                        proof {
                            lemma_array_view(out);
                        }
                        t[at].value = TomlValue::Array(out);
                        assert(entries_view(t@) =~= put(
                            t0,
                            "candidates"@,
                            TomlView::Array(items_view(out@)),
                        ));
                    },
                    other => {
                        t[at].value = other;
                        assert(entries_view(t@) =~= t0);
                    },
                }
            }
            proof {
                lemma_table_view(t);
            }
            TomlValue::Table(t)
        },
        other => other,
    }
}

/// Forces the provider of every candidate.
fn force_candidates(
    cs: Vec<TomlValue>,
    name: &str,
    forced: &str,
    diags: &mut Vec<ConfigDiagnostic>,
) -> (r: Vec<TomlValue>)
    ensures
        items_view(r@) == items_view(cs@).map_values(|c: TomlView| forced_candidate(c, forced@)),
        diagnostics_view(final(diags)@) == diagnostics_view(old(diags)@) + candidate_reports(
            name@,
            items_view(cs@),
            forced@,
        ),
{
    let ghost d0 = diagnostics_view(diags@);
    let ghost c0 = items_view(cs@);
    assert(c0.take(0) =~= Seq::empty());
    assert(d0 + candidate_reports(name@, c0.take(0), forced@) =~= d0);
    let mut cs = cs;
    let mut i: usize = 0;
    while i < cs.len()
        invariant
            i <= cs@.len(),
            cs@.len() == c0.len(),
            diagnostics_view(diags@) == d0 + candidate_reports(
                name@,
                c0.take(i as int),
                forced@,
            ),
            forall|k: int|
                0 <= k < i ==> #[trigger] items_view(cs@)[k] == forced_candidate(c0[k], forced@),
            forall|k: int| i <= k < cs@.len() ==> #[trigger] items_view(cs@)[k] == c0[k],
        decreases cs@.len() - i,
    {
        let ghost before = cs@;
        assert(items_view(cs@)[i as int] == c0[i as int]);
        let mut v = take_value(&mut cs[i]);
        if let TomlValue::Table(mut t) = v {
            proof {
                lemma_table_view(t);
            }
            if let Some(prev) = giving_way(&t, "provider_id", forced) {
                let mut path = owned("model_routes.");
                path.append(name);
                let mut m = owned("requirement override: model_routes.");
                m.append(name);
                m.append(" provider_id ");
                m.append(prev.as_str());
                m.append("→ '");
                m.append(forced);
                m.append("' (enterprise forced_provider, cannot be overridden)");
                report(diags, DiagnosticLevel::Error, path.as_str(), m);
                set_key(&mut t, "provider_id", TomlValue::Text(owned(forced)));
            }
            proof {
                lemma_table_view(t);
            }
            v = TomlValue::Table(t);
        }
        cs[i] = v;
        assert forall|k: int| 0 <= k < cs@.len() && k != i implies #[trigger] items_view(cs@)[k]
            == items_view(before)[k] by {
            assert(cs@[k] == before[k]);
        }
        assert(items_view(cs@)[i as int] == forced_candidate(c0[i as int], forced@));
        proof {
            assert(c0.take(i as int + 1).drop_last() =~= c0.take(i as int));
            assert(c0.take(i as int + 1).last() == c0[i as int]);
            assert(diagnostics_view(diags@) =~= d0 + candidate_reports(
                name@,
                c0.take(i as int + 1),
                forced@,
            ));
        }
        i = i + 1;
    }
    assert(c0.take(c0.len() as int) =~= c0);
    assert(items_view(cs@) =~= c0.map_values(|c: TomlView| forced_candidate(c, forced@)));
    cs
}

/// Sets the text at `key.sub` and gives back the value that gave way, as a
/// report names it.
fn force_text(table: &mut Vec<TomlEntry>, key: &str, sub: &str, required: &str) -> (prev: Option<
    String,
>)
    ensures
        entries_view(final(table)@) == with_text(
            entries_view(old(table)@),
            key@,
            sub@,
            required@,
        ),
        match prev {
            Some(s) => replaced_value(
                entries_view(old(table)@),
                key@,
                sub@,
                required@,
            ) matches Some(v) && s@ == given_up(v),
            None => replaced_value(entries_view(old(table)@), key@, sub@, required@) is None,
        },
{
    let ghost t0 = entries_view(table@);
    let at0: usize = position(table, key);
    if at0 >= table.len() {
        set_key(table, key, new_table());
        proof {
            lookup_after_put(t0, key@, empty_table(), key@);
        }
    }
    let ghost t1 = entries_view(table@);
    assert(t1 == with_entry(t0, key@));
    let at: usize = position(table, key);
    match take_value(&mut table[at].value) {
        TomlValue::Table(mut s) => {
            proof {
                lemma_table_view(s);
            }
            let ghost s0 = entries_view(s@);
            assert(lookup(t1, key@) == Some(TomlView::Table(s0)));
            let replaced = giving_way(&s, sub, required);
            let existing = find_text(&s, sub);
            let settled = match &existing {
                Some(p) => same(p.as_str(), required),
                None => false,
            };
            if !settled {
                set_key(&mut s, sub, TomlValue::Text(owned(required)));
            }
            proof {
                lemma_table_view(s);
            }
            table[at].value = TomlValue::Table(s);
            if settled {
                assert(entries_view(table@) =~= t1);
                None
            } else {
                assert(entries_view(table@) =~= put(
                    t1,
                    key@,
                    TomlView::Table(put(s0, sub@, TomlView::Text(required@))),
                ));
                replaced
            }
        },
        other => {
            table[at].value = other;
            assert(entries_view(table@) =~= t1);
            None
        },
    }
}

/// Switches features off and reports those that were not.
fn switch_features_off(
    table: &mut Vec<TomlEntry>,
    names: &Vec<String>,
    diags: &mut Vec<ConfigDiagnostic>,
)
    requires
        names@.len() > 0,
    ensures
        entries_view(final(table)@) == with_features_off(entries_view(old(table)@), views(names@)),
        diagnostics_view(final(diags)@) == diagnostics_view(old(diags)@) + (match table_in(
            lookup(with_entry(entries_view(old(table)@), "features"@), "features"@),
        ) {
            Some(f) => switched_off_reports(f, views(names@)),
            None => Seq::empty(),
        }),
{
    let ghost t0 = entries_view(table@);
    let ghost d0 = diagnostics_view(diags@);
    let at0: usize = position(table, "features");
    if at0 >= table.len() {
        set_key(table, "features", new_table());
        proof {
            lookup_after_put(t0, "features"@, empty_table(), "features"@);
        }
    }
    let ghost t1 = entries_view(table@);
    let at: usize = position(table, "features");
    match take_value(&mut table[at].value) {
        TomlValue::Table(mut f) => {
            proof {
                lemma_table_view(f);
            }
            let ghost f0 = entries_view(f@);
            let ghost ns = views(names@);
            let mut i: usize = 0;
            assert(d0 + switched_off_reports(f0, ns.take(0)) =~= d0);
            while i < names.len()
                invariant
                    i <= names@.len(),
                    ns == views(names@),
                    entries_view(f@) == switched_off(f0, ns.take(i as int)),
                    diagnostics_view(diags@) == d0 + switched_off_reports(f0, ns.take(i as int)),
                decreases names@.len() - i,
            {
                proof {
                    assert(ns.take(i as int + 1).drop_last() =~= ns.take(i as int));
                    assert(ns.take(i as int + 1).last() == names@[i as int]@);
                }
                let feat = &names[i];
                let ghost g = entries_view(f@);
                let ghost before = diagnostics_view(diags@);
                let (given, on, off) = match find(&f, feat.as_str()) {
                    Some(v) => match v.as_bool() {
                        Some(b) => (true, b, !b),
                        None => (true, false, false),
                    },
                    None => (false, false, false),
                };
                if !off {
                    if given {
                        let mut path = owned("features.");
                        path.append(feat.as_str());
                        let mut m = owned("requirement override: features.");
                        m.append(feat.as_str());
                        let ghost named = m@;
                        if on {
                            m.append(" = true");
                        }
                        assert(m@ =~= named + (if on {
                            " = true"@
                        } else {
                            Seq::empty()
                        }));
                        m.append(" → false (enterprise disabled_features, cannot be re-enabled)");
                        report(diags, DiagnosticLevel::Error, path.as_str(), m);
                    }
                    set_key(&mut f, feat.as_str(), TomlValue::Boolean(false));
                }
                assert(diagnostics_view(diags@) =~= d0 + switched_off_reports(
                    f0,
                    ns.take(i as int + 1),
                ));
                i = i + 1;
            }
            assert(ns.take(names@.len() as int) =~= ns);
            proof {
                lemma_table_view(f);
            }
            table[at].value = TomlValue::Table(f);
            assert(entries_view(table@) =~= put(
                t1,
                "features"@,
                TomlView::Table(switched_off(f0, ns)),
            ));
        },
        other => {
            table[at].value = other;
            assert(entries_view(table@) =~= t1);
            assert(diagnostics_view(diags@) =~= d0 + Seq::empty());
        },
    }
}

/// The source by which a server is judged.
fn source_of(server: &TomlValue) -> (r: String)
    ensures
        r@ == server_source(server@),
{
    if let Some(v) = server.get("source") {
        if let Some(s) = v.as_str() {
            return owned(s);
        }
    }
    if let Some(v) = server.get("command") {
        if let Some(s) = v.as_str() {
            return owned(s);
        }
    }
    let none = String::new();
    assert(none@ =~= Seq::empty());
    none
}

/// Whether one of the globs matches.
fn any_match(globs: &Vec<String>, text: &str) -> (r: bool)
    ensures
        r == matches_any(views(globs@), text@),
{
    let mut i: usize = 0;
    while i < globs.len()
        invariant
            i <= globs@.len(),
            forall|k: int| 0 <= k < i ==> !(#[trigger] glob_matches(views(globs@)[k], text@)),
        decreases globs@.len() - i,
    {
        if glob_match(globs[i].as_str(), text) {
            assert(glob_matches(views(globs@)[i as int], text@));
            return true;
        }
        i = i + 1;
    }
    false
}

/// Keeps the allowed MCP servers and gives the number of the others.
fn filter_servers(table: &mut Vec<TomlEntry>, globs: &Vec<String>) -> (removed: usize)
    requires
        globs@.len() > 0,
    ensures
        entries_view(final(table)@) == with_servers_filtered(
            entries_view(old(table)@),
            views(globs@),
        ),
        match mcp_servers(entries_view(old(table)@)) {
            Some(a) => removed == a.len() - allowed_servers(a, views(globs@)).len(),
            None => removed == 0,
        },
{
    let ghost t0 = entries_view(table@);
    let at: usize = position(table, "mcp");
    if at >= table.len() {
        return 0;
    }
    match take_value(&mut table[at].value) {
        TomlValue::Table(mut m) => {
            proof {
                lemma_table_view(m);
            }
            let ghost m0 = entries_view(m@);
            let inner: usize = position(&m, "servers");
            if inner >= m.len() {
                table[at].value = TomlValue::Table(m);
                assert(entries_view(table@) =~= t0);
                return 0;
            }
            match take_value(&mut m[inner].value) {
                TomlValue::Array(servers) => {
                    proof {
                        lemma_array_view(servers);
                    }
                    let ghost a = items_view(servers@);
                    let total: usize = servers.len();
                    let kept = retain_servers(servers, globs);
                    let removed: usize = total - kept.len();
                    proof {
                        lemma_array_view(kept);
                    }
                    m[inner].value = TomlValue::Array(kept);
                    assert(entries_view(m@) =~= put(
                        m0,
                        "servers"@,
                        TomlView::Array(allowed_servers(a, views(globs@))),
                    ));
                    proof {
                        lemma_table_view(m);
                    }
                    table[at].value = TomlValue::Table(m);
                    assert(entries_view(table@) =~= with_servers_filtered(t0, views(globs@)));
                    removed
                },
                other => {
                    m[inner].value = other;
                    assert(entries_view(m@) =~= m0);
                    proof {
                        lemma_table_view(m);
                    }
                    table[at].value = TomlValue::Table(m);
                    assert(entries_view(table@) =~= t0);
                    0
                },
            }
        },
        other => {
            table[at].value = other;
            assert(entries_view(table@) =~= t0);
            0
        },
    }
}

/// The servers whose source is allowed, in order.
fn retain_servers(servers: Vec<TomlValue>, globs: &Vec<String>) -> (kept: Vec<TomlValue>)
    ensures
        items_view(kept@) == allowed_servers(items_view(servers@), views(globs@)),
        kept@.len() <= servers@.len(),
{
    let ghost a = items_view(servers@);
    let mut servers = servers;
    let mut kept: Vec<TomlValue> = Vec::new();
    let n: usize = servers.len();
    let mut i: usize = 0;
    assert(items_view(kept@) =~= allowed_servers(a.take(0), views(globs@)));
    while i < n
        invariant
            i <= n == servers@.len() == a.len(),
            kept@.len() <= i,
            forall|k: int| i <= k < n ==> servers@[k]@ == a[k],
            items_view(kept@) == allowed_servers(a.take(i as int), views(globs@)),
        decreases n - i,
    {
        proof {
            assert(a.take(i as int + 1).drop_last() =~= a.take(i as int));
            assert(a.take(i as int + 1).last() == a[i as int]);
        }
        let src = source_of(&servers[i]);
        if any_match(globs, src.as_str()) {
            let v = take_value(&mut servers[i]);
            let ghost before = kept@;
            kept.push(v);
            assert(items_view(kept@) =~= items_view(before).push(v@));
        }
        i = i + 1;
    }
    assert(a.take(n as int) =~= a);
    kept
}


} // verus!
