//! What a session runs with: the choices that follow from its configuration,
//! its environment and the flags of its caller.

use vstd::prelude::*;
use vstd::string::*;

use crate::auth::lease::{lease_roundtrip, BrokerView, CredentialBroker};
use crate::auth::store::{provider_key, AuthManager};
use crate::config::generation::LoadedConfig;
use crate::config::layer::{ConfigLayer, ConfigLayerSource, SourceView};
use crate::config::loader::Platform;
use crate::config::merge::{
    disabled_warnings, layer_traces, layers_view, merge_layers, merged_values, overlaid,
    traces_view, LayerView,
};
use crate::config::migration::{migrate, migrated, migration_notes};
use crate::config::enforcement::{forced_provider_wins, required_sandbox_wins, setting_at};
use crate::config::requirements::{enforced, enforcement_reports, RequirementView};
use crate::config::resolver::{larger, managed_layers, merge_generation, stated_requirements};
use crate::config::values::{diagnostics_view, report_all, EffectiveConfig};
use crate::domain::id::{random_uuid, uuid_text, uuid_text_of, SessionId};
use crate::entries::{lookup, lookup_after_put, put};
use crate::json::{json_text, json_text_of, JsonNumber, JsonValue, JsonView, NumberView};
use crate::paths::{expand_user_path, expanded_path, join_path, joined_path};
use crate::session::permission::{build_permission_policy, policy_of, PermissionPolicy};
use crate::text::{
    add_sorted, decimal, decimal_string, in_text_order, opt_clone, opt_view, owned, parse_u64,
    parsed_u64, same, views,
};
use crate::toml_value::{
    array_in, bool_in, get, integer_in, text_in, text_of, texts, texts_of, TomlValue, TomlView,
};

verus! {

/// How requests to a model are written.
#[derive(Debug, Clone, Copy, PartialEq, Eq, Structural)]
pub enum WireProtocol {
    ChatCompletions,
    Messages,
    Responses,
}

/// A model that a session can use.
#[derive(Debug)]
pub struct RouteCandidate {
    pub provider_id: String,
    pub model_id: String,
    pub wire_protocol: String,
    pub endpoint: String,
}

/// The models that a session tries in turn.
#[derive(Debug)]
pub struct ModelRoute {
    pub candidates: Vec<RouteCandidate>,
}

/// The model of a session.
#[derive(Debug)]
pub struct ModelConfig {
    pub provider: String,
    pub model: String,
    pub wire_protocol: WireProtocol,
    /// The number of tokens that the model can look at.
    pub context_window: u64,
}

/// The mathematical value of a [`ModelConfig`].
pub struct ModelView {
    pub provider: Seq<char>,
    pub model: Seq<char>,
    pub wire_protocol: WireProtocol,
    pub context_window: u64,
}

impl View for ModelConfig {
    type V = ModelView;

    open spec fn view(&self) -> ModelView {
        ModelView {
            provider: self.provider@,
            model: self.model@,
            wire_protocol: self.wire_protocol,
            context_window: self.context_window,
        }
    }
}

/// What a session learns from its environment.
#[derive(Debug)]
pub struct SessionEnv {
    /// `GRODEX_PROVIDER`.
    pub provider: Option<String>,
    /// `GRODEX_MODEL`.
    pub model: Option<String>,
    /// `GRODEX_WIRE_PROTOCOL`.
    pub wire_protocol: Option<String>,
    /// `GRODEX_API_ENDPOINT`.
    pub endpoint: Option<String>,
    /// `GRODEX_MEMORY_DB`.
    pub memory_db: Option<String>,
    /// `GRODEX_MEMORY_RESCAN_SECS`.
    pub rescan_secs: Option<String>,
    /// `HOME`.
    pub home: Option<String>,
    /// The home directory of the user.
    pub home_dir: Option<String>,
}

/// The first of three optional texts that is there.
pub open spec fn first_of(
    a: Option<Seq<char>>,
    b: Option<Seq<char>>,
    c: Option<Seq<char>>,
) -> Option<Seq<char>> {
    match (a, b) {
        (Some(x), _) => Some(x),
        (None, Some(x)) => Some(x),
        (None, None) => c,
    }
}

/// A text, or else another.
pub open spec fn text_else(a: Option<Seq<char>>, b: Seq<char>) -> Seq<char> {
    match a {
        Some(x) => x,
        None => b,
    }
}

/// The first candidate of a route.
pub open spec fn first_candidate(route: Option<ModelRoute>) -> Option<RouteCandidate> {
    match route {
        Some(r) => if r.candidates@.len() > 0 {
            Some(r.candidates@[0])
        } else {
            None
        },
        None => None,
    }
}

/// The protocol that a text names.
pub open spec fn wire_of(name: Option<Seq<char>>) -> WireProtocol {
    if name == Some("chat"@) || name == Some("chat_completions"@) {
        WireProtocol::ChatCompletions
    } else if name == Some("messages"@) {
        WireProtocol::Messages
    } else {
        WireProtocol::Responses
    }
}

/// Where a model is and how it is spoken to.
#[derive(Debug)]
pub struct ModelChoice {
    pub provider: String,
    pub model: String,
    pub wire_protocol: WireProtocol,
    pub endpoint: Option<String>,
    /// The endpoint that credentials are bound to.
    pub audience: String,
    /// The key in the configuration.
    pub api_key: Option<String>,
}

/// The mathematical value of a [`ModelChoice`].
pub struct ChoiceView {
    pub provider: Seq<char>,
    pub model: Seq<char>,
    pub wire_protocol: WireProtocol,
    pub endpoint: Option<Seq<char>>,
    pub audience: Seq<char>,
    pub api_key: Option<Seq<char>>,
}

impl View for ModelChoice {
    type V = ChoiceView;

    open spec fn view(&self) -> ChoiceView {
        ChoiceView {
            provider: self.provider@,
            model: self.model@,
            wire_protocol: self.wire_protocol,
            endpoint: opt_view(self.endpoint),
            audience: self.audience@,
            api_key: opt_view(self.api_key),
        }
    }
}

/// The choice of a model: the configuration comes before the first candidate
/// of the route, that before the environment, and that before the default.
pub open spec fn chosen(cfg: TomlView, route: Option<ModelRoute>, env: SessionEnv) -> ChoiceView {
    let c = first_candidate(route);
    let model_value = match get(cfg, "model_id"@) {
        Some(v) => Some(v),
        None => get(cfg, "model"@),
    };
    let endpoint = first_of(
        text_in(get(cfg, "endpoint"@)),
        match c {
            Some(x) => Some(x.endpoint@),
            None => None,
        },
        opt_view(env.endpoint),
    );
    ChoiceView {
        provider: text_else(
            first_of(
                text_in(get(cfg, "provider"@)),
                match c {
                    Some(x) => Some(x.provider_id@),
                    None => None,
                },
                opt_view(env.provider),
            ),
            "openai"@,
        ),
        model: text_else(
            first_of(
                text_in(model_value),
                match c {
                    Some(x) => Some(x.model_id@),
                    None => None,
                },
                opt_view(env.model),
            ),
            "gpt-5"@,
        ),
        wire_protocol: wire_of(
            first_of(
                text_in(get(cfg, "wire_protocol"@)),
                match c {
                    Some(x) => Some(x.wire_protocol@),
                    None => None,
                },
                opt_view(env.wire_protocol),
            ),
        ),
        endpoint,
        audience: text_else(endpoint, "https://api.openai.com/v1"@),
        api_key: text_in(get(cfg, "api_key"@)),
    }
}

fn pick(a: Option<String>, b: Option<&String>, c: &Option<String>) -> (r: Option<String>)
    ensures
        opt_view(r) == first_of(
            opt_view(a),
            match b {
                Some(x) => Some(x@),
                None => None,
            },
            opt_view(*c),
        ),
{
    match a {
        Some(x) => Some(x),
        None => match b {
            Some(x) => Some(x.clone()),
            None => opt_clone(c),
        },
    }
}

fn or_text(a: Option<String>, b: &str) -> (r: String)
    ensures
        r@ == text_else(opt_view(a), b@),
{
    match a {
        Some(x) => x,
        None => owned(b),
    }
}

fn read_text(v: &TomlValue, key: &str) -> (r: Option<String>)
    ensures
        opt_view(r) == text_in(get(v@, key@)),
{
    text_of(v.get(key))
}

fn read_wire(name: &Option<String>) -> (r: WireProtocol)
    ensures
        r == wire_of(opt_view(*name)),
{
    match name {
        Some(n) => {
            if same(n.as_str(), "chat") || same(n.as_str(), "chat_completions") {
                WireProtocol::ChatCompletions
            } else if same(n.as_str(), "messages") {
                WireProtocol::Messages
            } else {
                WireProtocol::Responses
            }
        },
        None => WireProtocol::Responses,
    }
}

/// Chooses the model of a session.
pub fn choose_model(cfg: &TomlValue, route: &Option<ModelRoute>, env: &SessionEnv) -> (r:
    ModelChoice)
    ensures
        r@ == chosen(cfg@, *route, *env),
{
    let c: Option<&RouteCandidate> = match route {
        Some(r) => if r.candidates.len() > 0 {
            Some(&r.candidates[0])
        } else {
            None
        },
        None => None,
    };
    let (of_provider, of_model, of_wire, of_endpoint) = match c {
        Some(x) => (
            Some(&x.provider_id),
            Some(&x.model_id),
            Some(&x.wire_protocol),
            Some(&x.endpoint),
        ),
        None => (None, None, None, None),
    };
    let model_value = match cfg.get("model_id") {
        Some(v) => text_of(Some(v)),
        None => read_text(cfg, "model"),
    };
    let provider = or_text(pick(read_text(cfg, "provider"), of_provider, &env.provider), "openai");
    let model = or_text(pick(model_value, of_model, &env.model), "gpt-5");
    let wire = pick(read_text(cfg, "wire_protocol"), of_wire, &env.wire_protocol);
    let endpoint = pick(read_text(cfg, "endpoint"), of_endpoint, &env.endpoint);
    let audience = or_text(opt_clone(&endpoint), "https://api.openai.com/v1");
    ModelChoice {
        provider,
        model,
        wire_protocol: read_wire(&wire),
        endpoint,
        audience,
        api_key: read_text(cfg, "api_key"),
    }
}

/// The unsigned number with the bits of an integer.
pub open spec fn bits_of(n: int) -> u64 {
    if n >= 0 {
        n as u64
    } else {
        (n + 0x1_0000_0000_0000_0000) as u64
    }
}

/// The context window: that of the configuration, or else what is known of the
/// model.
pub open spec fn window_of(cfg: TomlView, known: u64) -> u64 {
    match integer_in(get(cfg, "context_window"@)) {
        Some(n) => bits_of(n),
        None => known,
    }
}

fn read_integer(v: &TomlValue, key: &str) -> (r: Option<i64>)
    ensures
        match r {
            Some(n) => integer_in(get(v@, key@)) == Some(n as int),
            None => integer_in(get(v@, key@)) is None,
        },
{
    match v.get(key) {
        Some(x) => x.as_integer(),
        None => None,
    }
}

/// The context window of a model.
pub fn context_window(cfg: &TomlValue, known: u64) -> (r: u64)
    ensures
        r == window_of(cfg@, known),
{
    match read_integer(cfg, "context_window") {
        Some(n) => {
            if n >= 0 {
                n as u64
            } else {
                u64::MAX - (-(n + 1)) as u64
            }
        },
        None => known,
    }
}

/// The limits of a session. One that is missing is left to its default.
#[derive(Debug, Clone, Copy, PartialEq, Eq, Structural)]
pub struct SessionLimits {
    /// How full the context is before it is compacted, in percent.
    pub compaction_threshold: Option<u8>,
    pub max_tool_result_bytes: Option<u64>,
    pub max_steps_per_turn: Option<u64>,
    /// How long a tool can run, in seconds; 0 for no limit.
    pub tool_timeout_secs: Option<u64>,
    /// How many sub-agents run at a time.
    pub max_subagents: Option<u64>,
    /// How many sub-agents a session starts.
    pub max_subagents_total: Option<u64>,
}

/// A number between 1 and 100.
pub open spec fn percent(n: int) -> u8 {
    if n < 1 {
        1
    } else if n > 100 {
        100
    } else {
        n as u8
    }
}

/// An integer of the configuration that is no smaller than `least`.
pub open spec fn at_least(cfg: TomlView, key: Seq<char>, least: int) -> Option<u64> {
    match integer_in(get(cfg, key)) {
        Some(n) => if n >= least {
            Some(n as u64)
        } else {
            None
        },
        None => None,
    }
}

/// The limits of a configuration.
pub open spec fn limits_of(cfg: TomlView) -> SessionLimits {
    SessionLimits {
        compaction_threshold: match integer_in(get(cfg, "compaction_threshold_percent"@)) {
            Some(n) => Some(percent(n)),
            None => None,
        },
        max_tool_result_bytes: at_least(cfg, "max_tool_result_bytes"@, 1),
        max_steps_per_turn: at_least(cfg, "max_steps_per_turn"@, 1),
        tool_timeout_secs: at_least(cfg, "tool_timeout_secs"@, 0),
        max_subagents: at_least(cfg, "max_subagents"@, 1),
        max_subagents_total: at_least(cfg, "max_subagents_per_session"@, 1),
    }
}

fn read_at_least(cfg: &TomlValue, key: &str, least: i64) -> (r: Option<u64>)
    requires
        least >= 0,
    ensures
        r == at_least(cfg@, key@, least as int),
{
    match read_integer(cfg, key) {
        Some(n) => if n >= least {
            Some(n as u64)
        } else {
            None
        },
        None => None,
    }
}

/// The limits of a configuration.
pub fn session_limits(cfg: &TomlValue) -> (r: SessionLimits)
    ensures
        r == limits_of(cfg@),
{
    let compaction_threshold: Option<u8> = match read_integer(cfg, "compaction_threshold_percent") {
        Some(n) => Some(
            if n < 1 {
                1u8
            } else if n > 100 {
                100u8
            } else {
                n as u8
            },
        ),
        None => None,
    };
    SessionLimits {
        compaction_threshold,
        max_tool_result_bytes: read_at_least(cfg, "max_tool_result_bytes", 1),
        max_steps_per_turn: read_at_least(cfg, "max_steps_per_turn", 1),
        tool_timeout_secs: read_at_least(cfg, "tool_timeout_secs", 0),
        max_subagents: read_at_least(cfg, "max_subagents", 1),
        max_subagents_total: read_at_least(cfg, "max_subagents_per_session", 1),
    }
}

/// How commands are confined.
#[derive(Debug)]
pub enum SandboxClient {
    /// They are not.
    Off,
    /// By a supervisor of its own at `path`, or, where that cannot be had, by
    /// this process, with the supervisor that was configured.
    External { path: String, timeout_ms: u64, fallback: Option<String> },
    /// By this process, with the supervisor that was configured.
    InProcess { supervisor_path: Option<String> },
}

/// The mathematical value of a [`SandboxClient`].
pub enum SandboxView {
    Off,
    External(Seq<char>, u64, Option<Seq<char>>),
    InProcess(Option<Seq<char>>),
}

impl View for SandboxClient {
    type V = SandboxView;

    open spec fn view(&self) -> SandboxView {
        match *self {
            SandboxClient::Off => SandboxView::Off,
            SandboxClient::External { path, timeout_ms, fallback } => SandboxView::External(
                path@,
                timeout_ms,
                opt_view(fallback),
            ),
            SandboxClient::InProcess { supervisor_path } => SandboxView::InProcess(
                opt_view(supervisor_path),
            ),
        }
    }
}

/// Whether a flag of the table `sandbox` is on.
pub open spec fn sandbox_flag(cfg: TomlView, key: Seq<char>) -> bool {
    match get(cfg, "sandbox"@) {
        Some(s) => bool_in(get(s, key)) == Some(true),
        None => false,
    }
}

/// How a configuration confines commands. A supervisor of its own runs on
/// macOS only.
pub open spec fn sandbox_of(cfg: TomlView, platform: Platform) -> SandboxView {
    let path = match get(cfg, "sandbox"@) {
        Some(s) => text_in(get(s, "supervisor_path"@)),
        None => None,
    };
    let external = sandbox_flag(cfg, "external_supervisor"@);
    if !(sandbox_flag(cfg, "enforce"@) || external) {
        SandboxView::Off
    } else if external && platform == Platform::MacOs {
        SandboxView::External(text_else(path, "grodex-supervisor"@), 30_000, path)
    } else {
        SandboxView::InProcess(path)
    }
}

fn read_flag(v: Option<&TomlValue>, key: &str) -> (r: bool)
    ensures
        r == (match v {
            Some(s) => bool_in(get(s@, key@)) == Some(true),
            None => false,
        }),
{
    match v {
        Some(s) => match s.get(key) {
            Some(x) => match x.as_bool() {
                Some(b) => b,
                None => false,
            },
            None => false,
        },
        None => false,
    }
}

/// How a configuration confines commands.
pub fn sandbox_client(cfg: &TomlValue, platform: Platform) -> (r: SandboxClient)
    ensures
        r@ == sandbox_of(cfg@, platform),
{
    let t = cfg.get("sandbox");
    let enforce = read_flag(t, "enforce");
    let external = read_flag(t, "external_supervisor");
    let path = match t {
        Some(s) => read_text(s, "supervisor_path"),
        None => None,
    };
    if !(enforce || external) {
        SandboxClient::Off
    } else {
        let on_mac = match platform {
            Platform::MacOs => true,
            _ => false,
        };
        if external && on_mac {
            SandboxClient::External {
                path: or_text(opt_clone(&path), "grodex-supervisor"),
                timeout_ms: 30_000,
                fallback: path,
            }
        } else {
            SandboxClient::InProcess { supervisor_path: path }
        }
    }
}

/// The name of the sandbox profile of a configuration.
pub fn sandbox_profile_name(cfg: &TomlValue) -> (r: String)
    ensures
        r@ == text_else(text_in(get(cfg@, "sandbox_profile"@)), "workspace"@),
{
    or_text(read_text(cfg, "sandbox_profile"), "workspace")
}

/// The path of the memory database: the environment comes before the
/// configuration, and that before the home directory.
pub open spec fn memory_path_of(cfg: TomlView, env: SessionEnv) -> Option<Seq<char>> {
    let home = opt_view(env.home_dir);
    let configured = match get(cfg, "memory"@) {
        Some(m) => text_in(get(m, "path"@)),
        None => None,
    };
    match (opt_view(env.memory_db), configured) {
        (Some(p), _) => Some(expanded_path(p, home)),
        (None, Some(p)) => Some(expanded_path(p, home)),
        (None, None) => match home {
            Some(h) => Some(joined_path(joined_path(h, ".grodex"@), "memory.db"@)),
            None => None,
        },
    }
}

fn home_ref(home: &Option<String>) -> (r: Option<&str>)
    ensures
        match r {
            Some(s) => opt_view(*home) == Some(s@),
            None => opt_view(*home) is None,
        },
{
    match home {
        Some(h) => Some(h.as_str()),
        None => None,
    }
}

/// The path of the memory database, if there is one.
pub fn memory_db_path(cfg: &TomlValue, env: &SessionEnv) -> (r: Option<String>)
    ensures
        opt_view(r) == memory_path_of(cfg@, *env),
{
    let home = home_ref(&env.home_dir);
    if let Some(p) = &env.memory_db {
        return Some(expand_user_path(p.as_str(), home));
    }
    let configured = match cfg.get("memory") {
        Some(m) => read_text(m, "path"),
        None => None,
    };
    match configured {
        Some(p) => Some(expand_user_path(p.as_str(), home)),
        None => match home {
            Some(h) => Some(join_path(join_path(h, ".grodex").as_str(), "memory.db")),
            None => None,
        },
    }
}

/// How often the memory is indexed anew, in seconds.
pub open spec fn rescan_of(text: Option<Seq<char>>) -> u64 {
    match text {
        Some(t) => match parsed_u64(t) {
            Some(n) => n,
            None => 600,
        },
        None => 600,
    }
}

/// How often the memory is indexed anew, in seconds; never where it is 0.
pub fn rescan_interval(env: &SessionEnv) -> (r: u64)
    ensures
        r == rescan_of(opt_view(env.rescan_secs)),
{
    match &env.rescan_secs {
        Some(t) => match parse_u64(t.as_str()) {
            Some(n) => n,
            None => 600,
        },
        None => 600,
    }
}

/// The file that credentials are kept in, under a home directory.
pub fn credentials_path(home: &str) -> (r: String)
    ensures
        r@ == joined_path(joined_path(home@, ".grodex"@), "credentials.json"@),
{
    join_path(join_path(home, ".grodex").as_str(), "credentials.json")
}

/// The vendors whose instruction files are read too, sorted, each once. None
/// is read unless the configuration names it.
pub fn compat_vendors(cfg: &TomlValue) -> (r: Vec<String>)
    ensures
        in_text_order(views(r@)),
        forall|v: Seq<char>| #[trigger]
            views(r@).contains(v) <==> (match array_in(get(cfg@, "instruction_compat_vendors"@)) {
                Some(a) => texts_of(a).contains(v),
                None => false,
            }),
{
    let mut out: Vec<String> = Vec::new();
    assert(views(out@) =~= Seq::empty());
    if let Some(v) = cfg.get("instruction_compat_vendors") {
        if let Some(a) = v.as_array() {
            let names = texts(a);
            let ghost ns = views(names@);
            let mut i: usize = 0;
            while i < names.len()
                invariant
                    i <= names@.len(),
                    ns == views(names@),
                    in_text_order(views(out@)),
                    forall|v: Seq<char>| #[trigger]
                        views(out@).contains(v) <==> ns.take(i as int).contains(v),
                decreases names@.len() - i,
            {
                let ghost before = views(out@);
                add_sorted(&mut out, names[i].clone());
                proof {
                    let now = ns.take(i as int + 1);
                    assert(now =~= ns.take(i as int).push(ns[i as int]));
                    assert forall|v: Seq<char>| #[trigger] views(out@).contains(v) <==> now.contains(
                        v,
                    ) by {
                        assert(views(out@).contains(v) <==> (v == ns[i as int] || before.contains(
                            v,
                        )));
                        if v == ns[i as int] {
                            assert(now[i as int] == v);
                        }
                        if ns.take(i as int).contains(v) {
                            let k = choose|k: int| 0 <= k < i && ns.take(i as int)[k] == v;
                            assert(now[k] == v);
                        }
                        if now.contains(v) {
                            let k = choose|k: int| 0 <= k < now.len() && now[k] == v;
                            if k < i {
                                assert(ns.take(i as int)[k] == v);
                            }
                        }
                    }
                }
                i = i + 1;
            }
            assert(ns.take(ns.len() as int) =~= ns);
        }
    }
    out
}

/// Whether a layer is that of a workspace with the given trust.
pub open spec fn is_workspace(l: LayerView, trusted: bool) -> bool {
    l.source == SourceView::Workspace(trusted)
}

/// Whether some layer is that of a workspace with the given trust.
pub open spec fn has_workspace(layers: Seq<LayerView>, trusted: bool) -> bool {
    exists|i: int| 0 <= i < layers.len() && is_workspace(#[trigger] layers[i], trusted)
}

/// The layers with every workspace trusted. A workspace that was not is no
/// longer left out.
pub open spec fn all_trusted(layers: Seq<LayerView>) -> Seq<LayerView> {
    layers.map_values(
        |l: LayerView|
            if is_workspace(l, false) {
                LayerView {
                    source: SourceView::Workspace(true),
                    disabled_reason: None,
                    ..l
                }
            } else {
                l
            },
    )
}

fn any_workspace(layers: &Vec<ConfigLayer>, trusted: bool) -> (r: bool)
    ensures
        r == has_workspace(layers_view(layers@), trusted),
{
    let ghost ls = layers_view(layers@);
    let mut i: usize = 0;
    while i < layers.len()
        invariant
            i <= layers@.len(),
            ls == layers_view(layers@),
            forall|k: int| 0 <= k < i ==> !is_workspace(#[trigger] ls[k], trusted),
        decreases layers@.len() - i,
    {
        assert(ls[i as int] == layers@[i as int]@);
        if let ConfigLayerSource::Workspace { trusted: t } = &layers[i].source {
            if *t == trusted {
                return true;
            }
        }
        i = i + 1;
    }
    false
}

fn trust_workspaces(layers: Vec<ConfigLayer>) -> (r: Vec<ConfigLayer>)
    ensures
        layers_view(r@) == all_trusted(layers_view(layers@)),
{
    let ghost ls = layers_view(layers@);
    let mut out: Vec<ConfigLayer> = Vec::new();
    assert(layers_view(out@) =~= all_trusted(ls.take(0)));
    for l in it: layers
        invariant
            it.seq() == layers@,
            ls == layers_view(layers@),
            layers_view(out@) == all_trusted(ls.take(it.index() as int)),
    {
        let ghost i = it.index() as int;
        let ghost before = layers_view(out@);
        let ghost v = l@;
        let untrusted = match &l.source {
            ConfigLayerSource::Workspace { trusted } => !*trusted,
            _ => false,
        };
        let new = if untrusted {
            ConfigLayer {
                source: ConfigLayerSource::Workspace { trusted: true },
                values: l.values,
                fingerprint: l.fingerprint,
                disabled_reason: None,
            }
        } else {
            l
        };
        let ghost w = new@;
        out.push(new);
        proof {
            assert(layers_view(out@) =~= before.push(w));
            assert(ls[i] == v);
            assert(ls.take(i + 1) =~= ls.take(i).push(v));
            assert(all_trusted(ls.take(i + 1)) =~= all_trusted(ls.take(i)).push(w));
        }
    }
    assert(ls.take(ls.len() as int) =~= ls);
    out
}

/// Whether two lists of layers differ after a caller vouched for the workspace.
pub open spec fn is_vouched(layers: Seq<LayerView>, vouched: Option<bool>) -> bool {
    vouched == Some(true) && has_workspace(layers, false)
}

/// The layers after a caller vouched for the workspace, or not.
pub open spec fn vouched_layers(layers: Seq<LayerView>, vouched: Option<bool>) -> Seq<LayerView> {
    if is_vouched(layers, vouched) {
        all_trusted(layers)
    } else {
        layers
    }
}

/// Whether instructions of the workspace are followed.
pub open spec fn workspace_is_trusted(layers: Seq<LayerView>, vouched: Option<bool>) -> bool {
    has_workspace(vouched_layers(layers, vouched), true) || vouched == Some(true)
}

/// The values of trusted layers: merged, migrated and constrained.
pub open spec fn remerged(requirements: RequirementView, layers: Seq<LayerView>) -> TomlView {
    enforced(requirements, migrated(merged_values(all_trusted(layers))))
}

/// The values of a configuration after a caller's word on the workspace.
pub open spec fn vouched_values(config: LoadedConfig, vouched: Option<bool>) -> TomlView {
    if is_vouched(layers_view(config.raw_layers@), vouched) {
        remerged(config.requirements@, layers_view(config.raw_layers@))
    } else {
        config.effective.values@
    }
}

/// Takes a caller's word on the workspace. Where it makes a workspace trusted
/// that was not, the layers are merged anew, under the same requirements, and
/// the generation does not fall.
pub fn apply_trust(config: &mut LoadedConfig, vouched: Option<bool>) -> (r: bool)
    ensures
        r == workspace_is_trusted(layers_view(old(config).raw_layers@), vouched),
        layers_view(final(config).raw_layers@) == vouched_layers(
            layers_view(old(config).raw_layers@),
            vouched,
        ),
        final(config).requirements == old(config).requirements,
        final(config).generation == old(config).generation,
        final(config).paths == old(config).paths,
        final(config).effective.values@ == vouched_values(*old(config), vouched),
        if is_vouched(layers_view(old(config).raw_layers@), vouched) {
            let ls = all_trusted(layers_view(old(config).raw_layers@));
            &&& final(config).effective.merge_traces.wf()
            &&& traces_view(final(config).effective.merge_traces@) == layer_traces(ls)
            &&& final(config).effective.generation == larger(
                old(config).effective.generation,
                merge_generation(ls),
            )
            &&& diagnostics_view(final(config).effective.diagnostics@) == disabled_warnings(ls)
                + migration_notes(merged_values(ls)) + enforcement_reports(
                old(config).requirements@,
                migrated(merged_values(ls)),
            )
        } else {
            final(config).effective == old(config).effective
        },
{
    let vouch = match vouched {
        Some(v) => v,
        None => false,
    };
    if vouch {
        if any_workspace(&config.raw_layers, false) {
            let mut layers: Vec<ConfigLayer> = Vec::new();
            core::mem::swap(&mut config.raw_layers, &mut layers);
            config.raw_layers = trust_workspaces(layers);
            let merged = merge_layers(&config.raw_layers);
            let migration = migrate(merged.values);
            let (values, reports) = config.requirements.enforce(migration.values);
            let mut diagnostics = merged.diagnostics;
            report_all(&mut diagnostics, migration.diagnostics);
            report_all(&mut diagnostics, reports);
            config.effective = EffectiveConfig {
                values,
                merge_traces: merged.merge_traces,
                generation: if config.effective.generation < merged.generation {
                    merged.generation
                } else {
                    config.effective.generation
                },
                diagnostics,
            };
        }
    }
    any_workspace(&config.raw_layers, true) || vouch
}

/// The master key for the provider of a session: that of its account, or else
/// the one in the configuration. `from_env` is what the environment has now
/// under the name that the account manager gives.
pub fn master_key(auth: &AuthManager, choice: &ModelChoice, from_env: Option<String>) -> (r: Option<
    String,
>)
    requires
        auth.wf(),
    ensures
        opt_view(r) == (match provider_key(auth@, choice.provider@, opt_view(from_env)) {
            Some(k) => Some(k),
            None => opt_view(choice.api_key),
        }),
{
    match auth.resolve_for_provider(choice.provider.as_str(), from_env) {
        Some(k) => Some(k),
        None => opt_clone(&choice.api_key),
    }
}

/// Makes sure that the broker has a token for a provider, if one can be had:
/// the one it has, or what the secret store has, or the key of the environment
/// or the configuration. Gives what is to be written to the secret store.
pub fn prepare_credentials(
    broker: &mut CredentialBroker,
    provider: &str,
    stored: Option<String>,
    master_key: Option<String>,
) -> (r: Option<(String, String)>)
    requires
        old(broker).wf(),
    ensures
        final(broker).wf(),
        ({
            let had = old(broker)@.tokens.dom().contains(provider@);
            let usable = old(broker)@.durable && (opt_view(stored) matches Some(t) && t.len() > 0);
            if had {
                final(broker)@ == old(broker)@ && r is None
            } else if usable {
                &&& final(broker)@ == (BrokerView {
                    tokens: old(broker)@.tokens.insert(provider@, opt_view(stored)->0),
                    ..old(broker)@
                })
                &&& r is None
            } else {
                match opt_view(master_key) {
                    Some(k) => {
                        &&& final(broker)@ == (BrokerView {
                            tokens: old(broker)@.tokens.insert(provider@, k),
                            ..old(broker)@
                        })
                        &&& r is Some == old(broker)@.durable
                        &&& r matches Some(p) ==> p.0@ == "master:"@ + provider@ && p.1@ == k
                    },
                    None => final(broker)@ == old(broker)@ && r is None,
                }
            }
        }),
{
    if broker.hydrate_provider(provider, stored) {
        return None;
    }
    match master_key {
        Some(k) => {
            broker.register_provider(provider, k);
            broker.persist_provider(provider)
        },
        None => None,
    }
}

/// The key for requests to an endpoint: the provider's token, through a lease
/// that is used up at once.
pub fn lease_api_key(
    broker: &mut CredentialBroker,
    provider: &str,
    audience: &str,
    process_id: u32,
    now: u64,
) -> (r: Option<String>)
    requires
        old(broker).wf(),
    ensures
        final(broker).wf(),
        final(broker)@.tokens == old(broker)@.tokens,
        final(broker)@.epoch == old(broker)@.epoch,
        opt_view(r) == (if old(broker)@.tokens.dom().contains(provider@) {
            Some(old(broker)@.tokens[provider@])
        } else {
            None
        }),
{
    let ghost b0 = broker@;
    match broker.issue_lease(provider, audience, process_id, now) {
        Some(l) => {
            proof {
                lease_roundtrip(b0, l@, provider@, audience@, now);
            }
            match broker.resolve(&l, audience, now) {
                Ok(t) => Some(t),
                Err(_) => None,
            }
        },
        None => None,
    }
}

/// The tools that every session has, in the order in which they are registered.
pub open spec fn builtin_tools_of() -> Seq<Seq<char>> {
    seq![
        "read_file"@,
        "load_skill"@,
        "write_file"@,
        "edit_file"@,
        "exec"@,
        "apply_patch"@,
        "web_fetch"@,
        "grep"@,
        "glob"@,
        "delegate_task"@,
    ]
}

/// The tools that every session has.
pub fn builtin_tools() -> (r: Vec<String>)
    ensures
        views(r@) == builtin_tools_of(),
{
    let mut out: Vec<String> = Vec::new();
    out.push(owned("read_file"));
    out.push(owned("load_skill"));
    out.push(owned("write_file"));
    out.push(owned("edit_file"));
    out.push(owned("exec"));
    out.push(owned("apply_patch"));
    out.push(owned("web_fetch"));
    out.push(owned("grep"));
    out.push(owned("glob"));
    out.push(owned("delegate_task"));
    assert(views(out@) =~= builtin_tools_of());
    out
}

/// The tools of a sub-agent: those that only read.
pub open spec fn subagent_tools_of() -> Seq<Seq<char>> {
    seq!["read_file"@, "grep"@, "glob"@]
}

/// The tools of a sub-agent.
pub fn subagent_tools() -> (r: Vec<String>)
    ensures
        views(r@) == subagent_tools_of(),
{
    let mut out: Vec<String> = Vec::new();
    out.push(owned("read_file"));
    out.push(owned("grep"));
    out.push(owned("glob"));
    assert(views(out@) =~= subagent_tools_of());
    out
}

/// How many sub-agents run at a time and in all, 0 for the default, and how
/// many agents can speak to each other.
#[derive(Debug, Clone, Copy, PartialEq, Eq, Structural)]
pub struct DelegationLimits {
    pub at_a_time: u64,
    pub in_all: u64,
    pub peers: u64,
}

/// A number, or else a default.
pub open spec fn number_else(n: Option<u64>, default: u64) -> u64 {
    match n {
        Some(x) => x,
        None => default,
    }
}

impl SessionLimits {
    /// The limits for sub-agents.
    pub fn delegation(&self) -> (r: DelegationLimits)
        ensures
            r == (DelegationLimits {
                at_a_time: number_else(self.max_subagents, 0),
                in_all: number_else(self.max_subagents_total, 0),
                peers: number_else(self.max_subagents_total, 16),
            }),
    {
        let at_a_time: u64 = match self.max_subagents {
            Some(n) => n,
            None => 0,
        };
        let (in_all, peers): (u64, u64) = match self.max_subagents_total {
            Some(n) => (n, n),
            None => (0, 16),
        };
        DelegationLimits { at_a_time, in_all, peers }
    }
}

/// What commands of a session may touch.
#[derive(Debug)]
pub struct SandboxProfile {
    pub name: String,
    pub read_only_paths: Vec<String>,
    pub read_write_paths: Vec<String>,
    pub deny_paths: Vec<String>,
    /// Whether only this machine can be reached.
    pub local_network_only: bool,
    pub allow_exec: bool,
    pub allow_fork: bool,
}

/// The profile of a session where the one that was named is not known: all
/// files can be read but for the machine's settings and the user's keys, and
/// the working directory can be written to.
pub fn default_sandbox_profile() -> (r: SandboxProfile)
    ensures
        r.name@ == "workspace"@,
        views(r.read_only_paths@) == seq!["/"@],
        views(r.read_write_paths@) == seq!["."@],
        views(r.deny_paths@) == seq!["/etc"@, "/System"@, "~/.ssh"@],
        r.local_network_only,
        r.allow_exec,
        r.allow_fork,
{
    let mut read_only: Vec<String> = Vec::new();
    read_only.push(owned("/"));
    let mut read_write: Vec<String> = Vec::new();
    read_write.push(owned("."));
    let mut deny: Vec<String> = Vec::new();
    deny.push(owned("/etc"));
    deny.push(owned("/System"));
    deny.push(owned("~/.ssh"));
    assert(views(read_only@) =~= seq!["/"@]);
    assert(views(read_write@) =~= seq!["."@]);
    assert(views(deny@) =~= seq!["/etc"@, "/System"@, "~/.ssh"@]);
    SandboxProfile {
        name: owned("workspace"),
        read_only_paths: read_only,
        read_write_paths: read_write,
        deny_paths: deny,
        local_network_only: true,
        allow_exec: true,
        allow_fork: true,
    }
}

/// The path of the database of open questions of a session, beside its journal.
pub fn approvals_path(base: &str, session: SessionId) -> (r: String)
    ensures
        r@ == joined_path(
            joined_path(base@, uuid_text_of(session.value())),
            "approvals.db"@,
        ),
{
    join_path(join_path(base, session.to_string().as_str()).as_str(), "approvals.db")
}

/// An MCP server of the configuration.
#[derive(Debug)]
pub enum McpEntry {
    /// It is no server: the error.
    Invalid(String),
    Server { name: String, enabled: bool, requires_oauth: bool },
}

/// What is to be done about an MCP server of the configuration.
#[derive(Debug)]
pub enum McpStep {
    /// The user is warned.
    Warn(String),
    /// The server at this place is registered for authorization.
    Register(usize),
    /// The server at this place is started and asked for its tools.
    Start(usize),
}

/// The mathematical value of an [`McpStep`].
pub enum McpStepView {
    Warn(Seq<char>),
    Register(int),
    Start(int),
}

impl View for McpStep {
    type V = McpStepView;

    open spec fn view(&self) -> McpStepView {
        match *self {
            McpStep::Warn(m) => McpStepView::Warn(m@),
            McpStep::Register(i) => McpStepView::Register(i as int),
            McpStep::Start(i) => McpStepView::Start(i as int),
        }
    }
}

/// What is to be done about the first `n` MCP servers: those that are enabled
/// are started, after they were registered for authorization where they ask
/// for it. An entry that is no server stops none of the others.
pub open spec fn mcp_steps_of(entries: Seq<McpEntry>, n: int) -> Seq<McpStepView>
    decreases n,
{
    if n <= 0 {
        Seq::empty()
    } else {
        let below = mcp_steps_of(entries, n - 1);
        match entries[n - 1] {
            McpEntry::Invalid(e) => below.push(
                McpStepView::Warn("[warn] MCP server config parse error: "@ + e@),
            ),
            McpEntry::Server { enabled, requires_oauth, .. } => if !enabled {
                below
            } else if requires_oauth {
                below.push(McpStepView::Register(n - 1)).push(McpStepView::Start(n - 1))
            } else {
                below.push(McpStepView::Start(n - 1))
            },
        }
    }
}

/// The views of a list of steps.
pub open spec fn mcp_steps_view(v: Seq<McpStep>) -> Seq<McpStepView> {
    v.map_values(|s: McpStep| s@)
}

fn push_step(out: &mut Vec<McpStep>, s: McpStep)
    ensures
        mcp_steps_view(final(out)@) == mcp_steps_view(old(out)@).push(s@),
{
    let ghost before = mcp_steps_view(out@);
    let ghost v = s@;
    out.push(s);
    assert(mcp_steps_view(out@) =~= before.push(v));
}

/// What is to be done about the MCP servers of a configuration.
pub fn mcp_steps(entries: &Vec<McpEntry>) -> (r: Vec<McpStep>)
    ensures
        mcp_steps_view(r@) == mcp_steps_of(entries@, entries@.len() as int),
{
    let mut out: Vec<McpStep> = Vec::new();
    let mut i: usize = 0;
    assert(mcp_steps_view(out@) =~= Seq::empty());
    while i < entries.len()
        invariant
            i <= entries@.len(),
            mcp_steps_view(out@) == mcp_steps_of(entries@, i as int),
        decreases entries@.len() - i,
    {
        match &entries[i] {
            McpEntry::Invalid(e) => {
                let mut m = owned("[warn] MCP server config parse error: ");
                m.append(e.as_str());
                push_step(&mut out, McpStep::Warn(m));
            },
            McpEntry::Server { enabled, requires_oauth, .. } => {
                if *enabled {
                    if *requires_oauth {
                        push_step(&mut out, McpStep::Register(i));
                    }
                    push_step(&mut out, McpStep::Start(i));
                }
            },
        }
        i = i + 1;
    }
    out
}

/// What the user is told of the registration of an MCP server.
pub fn mcp_registered(name: &str, result: Result<(), String>) -> (r: String)
    ensures
        r@ == (match result {
            Ok(_) => "[mcp] server '"@ + name@
                + "' 需要 OAuth 授权（已注册，等待 begin_authorization）"@,
            Err(e) => "[warn] MCP server '"@ + name@ + "' OAuth 注册失败: "@ + e@,
        }),
{
    match result {
        Ok(_) => {
            let mut m = owned("[mcp] server '");
            m.append(name);
            m.append("' 需要 OAuth 授权（已注册，等待 begin_authorization）");
            m
        },
        Err(e) => {
            let mut m = owned("[warn] MCP server '");
            m.append(name);
            m.append("' OAuth 注册失败: ");
            m.append(e.as_str());
            m
        },
    }
}

/// What the user is told of an MCP server that could not be started or did not
/// tell its tools. The session goes on without it.
pub fn mcp_failed(name: &str, phase: &str, error: &str) -> (r: String)
    ensures
        r@ == "[warn] MCP server '"@ + name@ + "' "@ + phase@ + " failed: "@ + error@,
{
    let mut m = owned("[warn] MCP server '");
    m.append(name);
    m.append("' ");
    m.append(phase);
    m.append(" failed: ");
    m.append(error);
    m
}

/// How a session is set up.
#[derive(Debug)]
pub struct SessionRuntimeBuilder {
    cwd: String,
    trusted_override: Option<bool>,
    recovered_context: Option<Vec<JsonValue>>,
    model_config_override: Option<ModelConfig>,
    model_route: Option<ModelRoute>,
    telemetry: bool,
    run_id: String,
}

/// The mathematical value of a [`SessionRuntimeBuilder`].
pub struct BuilderView {
    pub cwd: Seq<char>,
    /// What the caller says of the workspace.
    pub trusted: Option<bool>,
    /// The context of an earlier session.
    pub recovered: Option<Vec<JsonValue>>,
    pub model: Option<ModelConfig>,
    pub route: Option<ModelRoute>,
    pub telemetry: bool,
    pub run_id: Seq<char>,
}

impl View for SessionRuntimeBuilder {
    type V = BuilderView;

    closed spec fn view(&self) -> BuilderView {
        BuilderView {
            cwd: self.cwd@,
            trusted: self.trusted_override,
            recovered: self.recovered_context,
            model: self.model_config_override,
            route: self.model_route,
            telemetry: self.telemetry,
            run_id: self.run_id@,
        }
    }
}

/// What a session runs with.
#[derive(Debug)]
pub struct SessionRuntime {
    pub cwd: String,
    pub run_id: String,
    pub telemetry: bool,
    pub recovered_context: Option<Vec<JsonValue>>,
    /// The configuration after the caller's word on the workspace.
    pub config: LoadedConfig,
    pub workspace_trusted: bool,
    pub compat_vendors: Vec<String>,
    pub choice: ModelChoice,
    pub model_config: ModelConfig,
    pub model_route: Option<ModelRoute>,
    pub limits: SessionLimits,
    /// The tools that are registered, and those of sub-agents.
    pub tools: Vec<String>,
    pub subagent_tools: Vec<String>,
    pub delegation: DelegationLimits,
    pub policy: PermissionPolicy,
    pub sandbox_profile: String,
    pub sandbox: SandboxClient,
    pub memory_db: Option<String>,
    pub rescan_secs: u64,
    /// The file that credentials are kept in, if there is a home directory.
    pub credentials: Option<String>,
}

impl SessionRuntimeBuilder {
    /// The set-up of a session in a directory.
    pub fn new(cwd: String) -> (r: Self)
        ensures
            exists|n: u128|
                r@ == (BuilderView {
                    cwd: cwd@,
                    trusted: None,
                    recovered: None,
                    model: None,
                    route: None,
                    telemetry: false,
                    run_id: #[trigger] uuid_text_of(n),
                }),
    {
        let n: u128 = random_uuid();
        let r = SessionRuntimeBuilder {
            cwd,
            trusted_override: None,
            recovered_context: None,
            model_config_override: None,
            model_route: None,
            telemetry: false,
            run_id: uuid_text(n),
        };
        assert(r@.run_id == uuid_text_of(n));
        r
    }

    /// Records what happens, or not.
    pub fn with_telemetry(self, on: bool) -> (r: Self)
        ensures
            r@ == (BuilderView { telemetry: on, ..self@ }),
    {
        SessionRuntimeBuilder { telemetry: on, ..self }
    }

    /// Says whether the workspace is to be trusted.
    pub fn with_trusted(self, trusted: bool) -> (r: Self)
        ensures
            r@ == (BuilderView { trusted: Some(trusted), ..self@ }),
    {
        SessionRuntimeBuilder { trusted_override: Some(trusted), ..self }
    }

    /// Takes over the context of an earlier session.
    pub fn with_recovered_context(self, ctx: Vec<JsonValue>) -> (r: Self)
        ensures
            r@ == (BuilderView { recovered: Some(ctx), ..self@ }),
    {
        SessionRuntimeBuilder { recovered_context: Some(ctx), ..self }
    }

    /// Fixes the model.
    pub fn with_model_config(self, cfg: ModelConfig) -> (r: Self)
        ensures
            r@ == (BuilderView { model: Some(cfg), ..self@ }),
    {
        SessionRuntimeBuilder { model_config_override: Some(cfg), ..self }
    }

    /// Fixes the models that are tried in turn, or leaves them to the
    /// configuration.
    pub fn with_model_route(self, route: Option<ModelRoute>) -> (r: Self)
        ensures
            r@ == (BuilderView { route, ..self@ }),
    {
        SessionRuntimeBuilder { model_route: route, ..self }
    }

    /// Works out what the session runs with. `route` is the route of the
    /// configuration after the caller's word on the workspace, `known_window`
    /// what is known of the context window of the model.
    pub fn build(
        self,
        config: LoadedConfig,
        route: Option<ModelRoute>,
        env: &SessionEnv,
        platform: Platform,
        known_window: u64,
    ) -> (r: SessionRuntime)
        ensures
            r.cwd@ == self@.cwd,
            r.run_id@ == self@.run_id,
            r.telemetry == self@.telemetry,
            r.recovered_context == self@.recovered,
            r.workspace_trusted == workspace_is_trusted(
                layers_view(config.raw_layers@),
                self@.trusted,
            ),
            layers_view(r.config.raw_layers@) == vouched_layers(
                layers_view(config.raw_layers@),
                self@.trusted,
            ),
            r.config.effective.values@ == vouched_values(config, self@.trusted),
            r.config.requirements == config.requirements,
            r.config.generation == config.generation,
            r.config.paths == config.paths,
            in_text_order(views(r.compat_vendors@)),
            forall|v: Seq<char>| #[trigger]
                views(r.compat_vendors@).contains(v) <==> (match array_in(
                    get(vouched_values(config, self@.trusted), "instruction_compat_vendors"@),
                ) {
                    Some(a) => texts_of(a).contains(v),
                    None => false,
                }),
            r.choice@ == chosen(vouched_values(config, self@.trusted), route, *env),
            r.model_config@ == (match self@.model {
                Some(m) => m@,
                None => ModelView {
                    provider: r.choice.provider@,
                    model: r.choice.model@,
                    wire_protocol: r.choice.wire_protocol,
                    context_window: window_of(vouched_values(config, self@.trusted), known_window),
                },
            }),
            r.model_route == (match self@.route {
                Some(x) => Some(x),
                None => route,
            }),
            r.limits == limits_of(vouched_values(config, self@.trusted)),
            views(r.tools@) == builtin_tools_of(),
            views(r.subagent_tools@) == subagent_tools_of(),
            r.delegation == (DelegationLimits {
                at_a_time: number_else(r.limits.max_subagents, 0),
                in_all: number_else(r.limits.max_subagents_total, 0),
                peers: number_else(r.limits.max_subagents_total, 16),
            }),
            r.policy@ == policy_of(vouched_values(config, self@.trusted)),
            r.sandbox_profile@ == text_else(
                text_in(get(vouched_values(config, self@.trusted), "sandbox_profile"@)),
                "workspace"@,
            ),
            r.sandbox@ == sandbox_of(vouched_values(config, self@.trusted), platform),
            opt_view(r.memory_db) == memory_path_of(vouched_values(config, self@.trusted), *env),
            r.rescan_secs == rescan_of(opt_view(env.rescan_secs)),
            opt_view(r.credentials) == (match opt_view(env.home) {
                Some(h) => Some(joined_path(joined_path(h, ".grodex"@), "credentials.json"@)),
                None => None,
            }),
    {
        let mut config = config;
        let workspace_trusted = apply_trust(&mut config, self.trusted_override);
        let vendors = compat_vendors(&config.effective.values);
        let choice = choose_model(&config.effective.values, &route, env);
        let model_config = match self.model_config_override {
            Some(m) => m,
            None => ModelConfig {
                provider: choice.provider.clone(),
                model: choice.model.clone(),
                wire_protocol: choice.wire_protocol,
                context_window: context_window(&config.effective.values, known_window),
            },
        };
        let limits = session_limits(&config.effective.values);
        let policy = build_permission_policy(&config.effective.values);
        let sandbox_profile = sandbox_profile_name(&config.effective.values);
        let sandbox = sandbox_client(&config.effective.values, platform);
        let memory_db = memory_db_path(&config.effective.values, env);
        let rescan_secs: u64 = rescan_interval(env);
        let credentials = match &env.home {
            Some(h) => Some(credentials_path(h.as_str())),
            None => None,
        };
        let model_route = match self.model_route {
            Some(x) => Some(x),
            None => route,
        };
        SessionRuntime {
            cwd: self.cwd,
            run_id: self.run_id,
            telemetry: self.telemetry,
            recovered_context: self.recovered_context,
            config,
            workspace_trusted,
            compat_vendors: vendors,
            choice,
            model_config,
            model_route,
            limits,
            tools: builtin_tools(),
            subagent_tools: subagent_tools(),
            delegation: limits.delegation(),
            policy,
            sandbox_profile,
            sandbox,
            memory_db,
            rescan_secs,
            credentials,
        }
    }
}

/// The JSON object that tells how the start of an MCP server went.
pub open spec fn mcp_lifecycle_object(
    server: Seq<char>,
    phase: Seq<char>,
    status: Seq<char>,
    duration_ms: u64,
    tool_count: u64,
    error: Option<Seq<char>>,
) -> JsonView {
    let none = Seq::<(Seq<char>, JsonView)>::empty();
    let e = match error {
        Some(s) => JsonView::Text(s),
        None => JsonView::Null,
    };
    JsonView::Object(
        put(
            put(
                put(
                    put(
                        put(
                            put(
                                put(none, "server_name"@, JsonView::Text(server)),
                                "phase"@,
                                JsonView::Text(phase),
                            ),
                            "transport"@,
                            JsonView::Text("stdio"@),
                        ),
                        "tool_count"@,
                        JsonView::Number(NumberView::Unsigned(tool_count)),
                    ),
                    "status"@,
                    JsonView::Text(status),
                ),
                "error_class"@,
                e,
            ),
            "duration_ms"@,
            JsonView::Number(NumberView::Unsigned(duration_ms)),
        ),
    )
}

/// The telemetry record of the start of an MCP server: its payload, and
/// whether it is a warning.
pub fn mcp_lifecycle(
    server: &str,
    phase: &str,
    status: &str,
    duration_ms: u64,
    tool_count: u64,
    error: Option<&str>,
) -> (r: (String, bool))
    ensures
        r.0@ == json_text_of(
            mcp_lifecycle_object(
                server@,
                phase@,
                status@,
                duration_ms,
                tool_count,
                match error {
                    Some(e) => Some(e@),
                    None => None,
                },
            ),
        ),
        r.1 == (status@ == "failed"@),
{
    let e = match error {
        Some(s) => JsonValue::Text(owned(s)),
        None => JsonValue::Null,
    };
    let v = JsonValue::object().with("server_name", JsonValue::Text(owned(server))).with(
        "phase",
        JsonValue::Text(owned(phase)),
    ).with("transport", JsonValue::Text(owned("stdio"))).with(
        "tool_count",
        JsonValue::Number(JsonNumber::Unsigned(tool_count)),
    ).with("status", JsonValue::Text(owned(status))).with("error_class", e).with(
        "duration_ms",
        JsonValue::Number(JsonNumber::Unsigned(duration_ms)),
    );
    (json_text(&v), same(status, "failed"))
}

/// What is told of a pass over the files that memory is drawn from: the number
/// of new, changed and removed files, unless there are none.
pub fn reindex_notice(new: u64, changed: u64, removed: u64) -> (r: Option<String>)
    ensures
        opt_view(r) == (if new == 0 && changed == 0 && removed == 0 {
            None
        } else {
            Some(
                "[memory] reindex: +"@ + decimal(new as nat) + " new, ~"@ + decimal(changed as nat)
                    + " changed, -"@ + decimal(removed as nat) + " removed"@,
            )
        }),
{
    if new == 0 && changed == 0 && removed == 0 {
        return None;
    }
    let mut s = owned("[memory] reindex: +");
    s.append(decimal_string(new).as_str());
    s.append(" new, ~");
    s.append(decimal_string(changed).as_str());
    s.append(" changed, -");
    s.append(decimal_string(removed).as_str());
    s.append(" removed");
    Some(s)
}

/// What is told of the documents that were embedded at the start.
pub fn backfill_notice(result: Result<u64, String>) -> (r: Option<String>)
    ensures
        opt_view(r) == (match result {
            Ok(n) => if n == 0 {
                None
            } else {
                Some("[memory] embedding backfill: "@ + decimal(n as nat) + " documents"@)
            },
            Err(e) => Some("[warn] embedding backfill failed (staying pure FTS): "@ + e@),
        }),
{
    match result {
        Ok(n) => {
            if n == 0 {
                None
            } else {
                let mut s = owned("[memory] embedding backfill: ");
                s.append(decimal_string(n).as_str());
                s.append(" documents");
                Some(s)
            }
        },
        Err(e) => {
            let mut s = owned("[warn] embedding backfill failed (staying pure FTS): ");
            s.append(e.as_str());
            Some(s)
        },
    }
}

/// A caller's word never makes a workspace less trusted, and without it only
/// the configuration decides.
pub proof fn trust_needs_a_voucher(layers: Seq<LayerView>)
    ensures
        workspace_is_trusted(layers, Some(true)),
        workspace_is_trusted(layers, None) == has_workspace(layers, true),
        workspace_is_trusted(layers, Some(false)) == has_workspace(layers, true),
{
}

/// To trust a workspace changes no requirement: those come from layers that no
/// caller vouches for.
pub proof fn trust_keeps_requirements(layers: Seq<LayerView>)
    ensures
        stated_requirements(all_trusted(layers)) == stated_requirements(layers),
{
    lemma_managed_layers(layers);
}

proof fn lemma_managed_layers(layers: Seq<LayerView>)
    ensures
        managed_layers(all_trusted(layers)) == managed_layers(layers),
    decreases layers.len(),
{
    if layers.len() > 0 {
        lemma_managed_layers(layers.drop_last());
        assert(all_trusted(layers).drop_last() =~= all_trusted(layers.drop_last()));
    } else {
        assert(all_trusted(layers) =~= layers);
    }
}

/// The values of a workspace that a caller vouched for count: where its layer
/// is the highest, it decides.
pub proof fn vouched_workspaces_count(layers: Seq<LayerView>)
    requires
        layers.len() > 0,
        is_workspace(layers.last(), false),
    ensures
        merged_values(all_trusted(layers)) == overlaid(
            merged_values(all_trusted(layers.drop_last())),
            layers.last().values,
        ),
{
    assert(all_trusted(layers).drop_last() =~= all_trusted(layers.drop_last()));
}

/// A sub-agent has no tool that the session has not, and none that writes or
/// runs anything.
pub proof fn subagents_only_read(tool: Seq<char>)
    requires
        subagent_tools_of().contains(tool),
    ensures
        builtin_tools_of().contains(tool),
        tool == "read_file"@ || tool == "grep"@ || tool == "glob"@,
{
    let i = choose|i: int| 0 <= i < subagent_tools_of().len() && subagent_tools_of()[i] == tool;
    let b = builtin_tools_of();
    assert(b[0] == "read_file"@ && b[7] == "grep"@ && b[8] == "glob"@);
    if i == 0 {
        assert(b[0] == tool);
    } else if i == 1 {
        assert(b[7] == tool);
    } else {
        assert(b[8] == tool);
    }
}

/// A server that is disabled is neither registered nor started.
pub proof fn disabled_servers_are_left_alone(entries: Seq<McpEntry>, n: int, k: int, i: int)
    requires
        0 <= i < n <= entries.len(),
        entries[i] matches McpEntry::Server { enabled, .. } && !enabled,
        0 <= k < mcp_steps_of(entries, n).len(),
    ensures
        mcp_steps_of(entries, n)[k] != McpStepView::Register(i),
        mcp_steps_of(entries, n)[k] != McpStepView::Start(i),
    decreases n,
{
    let below = mcp_steps_of(entries, n - 1);
    if k < below.len() {
        if i < n - 1 {
            disabled_servers_are_left_alone(entries, n - 1, k, i);
        } else {
            lemma_steps_are_below(entries, n - 1, k);
        }
    }
}

proof fn lemma_steps_are_below(entries: Seq<McpEntry>, n: int, k: int)
    requires
        0 <= n <= entries.len(),
        0 <= k < mcp_steps_of(entries, n).len(),
    ensures
        match mcp_steps_of(entries, n)[k] {
            McpStepView::Register(i) => i < n,
            McpStepView::Start(i) => i < n,
            McpStepView::Warn(_) => true,
        },
    decreases n,
{
    if k < mcp_steps_of(entries, n - 1).len() {
        lemma_steps_are_below(entries, n - 1, k);
    }
}

/// What the configuration says of the model comes before all else.
pub proof fn configuration_comes_first(cfg: TomlView, route: Option<ModelRoute>, env: SessionEnv)
    ensures
        text_in(get(cfg, "provider"@)) matches Some(p) ==> chosen(cfg, route, env).provider == p,
        text_in(get(cfg, "model_id"@)) matches Some(m) ==> chosen(cfg, route, env).model == m,
        text_in(get(cfg, "endpoint"@)) matches Some(e) ==> chosen(cfg, route, env).endpoint
            == Some(e) && chosen(cfg, route, env).audience == e,
{
}

/// What the configuration does not say, the first candidate of the route says.
pub proof fn routes_come_second(cfg: TomlView, route: ModelRoute, env: SessionEnv)
    requires
        route.candidates@.len() > 0,
    ensures
        ({
            let r = chosen(cfg, Some(route), env);
            let first = route.candidates@[0];
            &&& text_in(get(cfg, "provider"@)) is None ==> r.provider == first.provider_id@
            &&& get(cfg, "model_id"@) is None && text_in(get(cfg, "model"@)) is None ==> r.model
                == first.model_id@
            &&& text_in(get(cfg, "endpoint"@)) is None ==> r.endpoint == Some(first.endpoint@) && r.audience
                == first.endpoint@
            &&& text_in(get(cfg, "wire_protocol"@)) is None ==> r.wire_protocol == wire_of(
                Some(first.wire_protocol@),
            )
        }),
{
}

/// Without a candidate the environment is asked, and behind it stand the
/// defaults.
pub proof fn the_environment_comes_third(cfg: TomlView, route: Option<ModelRoute>, env: SessionEnv)
    requires
        route matches Some(r) ==> r.candidates@.len() == 0,
    ensures
        ({
            let r = chosen(cfg, route, env);
            &&& text_in(get(cfg, "provider"@)) is None ==> r.provider == (match env.provider {
                Some(p) => p@,
                None => "openai"@,
            })
            &&& get(cfg, "model_id"@) is None && text_in(get(cfg, "model"@)) is None ==> r.model == (
            match env.model {
                Some(m) => m@,
                None => "gpt-5"@,
            })
            &&& text_in(get(cfg, "endpoint"@)) is None ==> r.endpoint == opt_view(env.endpoint)
                && r.audience == (match env.endpoint {
                Some(e) => e@,
                None => "https://api.openai.com/v1"@,
            })
            &&& text_in(get(cfg, "wire_protocol"@)) is None ==> r.wire_protocol == wire_of(
                opt_view(env.wire_protocol),
            )
        }),
{
}

/// The model is looked for under its new name, and under the old one only where
/// the new one is missing. The key of a model comes from the configuration
/// alone.
pub proof fn models_have_two_names(cfg: TomlView, route: Option<ModelRoute>, env: SessionEnv)
    ensures
        ({
            let r = chosen(cfg, route, env);
            &&& text_in(get(cfg, "model_id"@)) matches Some(m) ==> r.model == m
            &&& (get(cfg, "model_id"@) is None && text_in(get(cfg, "model"@)) is Some) ==> r.model
                == text_in(get(cfg, "model"@))->0
            &&& text_in(get(cfg, "wire_protocol"@)) matches Some(w) ==> r.wire_protocol == wire_of(Some(w))
            &&& r.api_key == text_in(get(cfg, "api_key"@))
        }),
{
}

/// The names of the ways to write a request. Any other name, and none, stands
/// for responses.
pub proof fn wire_protocols_have_names(name: Option<Seq<char>>)
    ensures
        wire_of(Some("chat"@)) is ChatCompletions,
        wire_of(Some("chat_completions"@)) is ChatCompletions,
        wire_of(Some("messages"@)) is Messages,
        wire_of(name) is ChatCompletions ==> name == Some("chat"@) || name == Some("chat_completions"@),
        wire_of(name) is Messages ==> name == Some("messages"@),
{
    reveal_strlit("chat");
    reveal_strlit("chat_completions");
    reveal_strlit("messages");
    assert("chat"@.len() == 4 && "chat_completions"@.len() == 16 && "messages"@.len() == 8);
}

/// A context window that is configured is taken, and otherwise what is known of
/// the model.
pub proof fn configured_windows_are_taken(cfg: TomlView, known: u64, n: u64)
    ensures
        integer_in(get(cfg, "context_window"@)) == Some(n as int) ==> window_of(cfg, known) == n,
        integer_in(get(cfg, "context_window"@)) is None ==> window_of(cfg, known) == known,
{
}

/// Each limit is read under its own key. A threshold is brought into the range
/// of percents; any other limit that is too small counts as not given.
pub proof fn limits_are_read(cfg: TomlView, n: u64)
    ensures
        ({
            let l = limits_of(cfg);
            let given = Some(n as int);
            &&& integer_in(get(cfg, "compaction_threshold_percent"@)) == given ==> l.compaction_threshold
                == Some((if n < 1 {
                1
            } else if n > 100 {
                100
            } else {
                n as int
            }) as u8)
            &&& integer_in(get(cfg, "compaction_threshold_percent"@)) is None
                ==> l.compaction_threshold is None
            &&& integer_in(get(cfg, "max_tool_result_bytes"@)) == given ==> l.max_tool_result_bytes == (
            if n > 0 {
                Some(n)
            } else {
                None
            })
            &&& integer_in(get(cfg, "max_tool_result_bytes"@)) is None ==> l.max_tool_result_bytes is None
            &&& integer_in(get(cfg, "max_steps_per_turn"@)) == given ==> l.max_steps_per_turn == (if n > 0 {
                Some(n)
            } else {
                None
            })
            &&& integer_in(get(cfg, "max_steps_per_turn"@)) is None ==> l.max_steps_per_turn is None
            &&& integer_in(get(cfg, "tool_timeout_secs"@)) == given ==> l.tool_timeout_secs == Some(n)
            &&& integer_in(get(cfg, "tool_timeout_secs"@)) is None ==> l.tool_timeout_secs is None
            &&& integer_in(get(cfg, "max_subagents"@)) == given ==> l.max_subagents == (if n > 0 {
                Some(n)
            } else {
                None
            })
            &&& integer_in(get(cfg, "max_subagents"@)) is None ==> l.max_subagents is None
            &&& integer_in(get(cfg, "max_subagents_per_session"@)) == given ==> l.max_subagents_total == (
            if n > 0 {
                Some(n)
            } else {
                None
            })
            &&& integer_in(get(cfg, "max_subagents_per_session"@)) is None ==> l.max_subagents_total is None
        }),
{
}

/// Limits below zero count as not given, and a threshold below zero is the least
/// one.
pub proof fn negative_limits_do_not_count(cfg: TomlView)
    ensures
        ({
            let l = limits_of(cfg);
            &&& (integer_in(get(cfg, "compaction_threshold_percent"@)) matches Some(n) && n < 0)
                ==> l.compaction_threshold == Some(1u8)
            &&& (integer_in(get(cfg, "max_tool_result_bytes"@)) matches Some(n) && n < 0)
                ==> l.max_tool_result_bytes is None
            &&& (integer_in(get(cfg, "max_steps_per_turn"@)) matches Some(n) && n < 0)
                ==> l.max_steps_per_turn is None
            &&& (integer_in(get(cfg, "tool_timeout_secs"@)) matches Some(n) && n < 0)
                ==> l.tool_timeout_secs is None
            &&& (integer_in(get(cfg, "max_subagents"@)) matches Some(n) && n < 0) ==> l.max_subagents is None
            &&& (integer_in(get(cfg, "max_subagents_per_session"@)) matches Some(n) && n < 0)
                ==> l.max_subagents_total is None
        }),
{
}

/// A sandbox is used where it is enforced or run by a process of its own. That
/// process is there on macOS only, for half a minute, and is the one that is
/// configured or else the usual one.
pub proof fn sandboxes_are_used_as_configured(cfg: TomlView, s: TomlView, platform: Platform)
    requires
        get(cfg, "sandbox"@) == Some(s),
    ensures
        ({
            let enforced = bool_in(get(s, "enforce"@)) == Some(true);
            let external = bool_in(get(s, "external_supervisor"@)) == Some(true);
            let path = text_in(get(s, "supervisor_path"@));
            let r = sandbox_of(cfg, platform);
            &&& r is Off <==> !enforced && !external
            &&& external && platform is MacOs ==> r == SandboxView::External(
                match path {
                    Some(p) => p,
                    None => "grodex-supervisor"@,
                },
                30_000,
                path,
            )
            &&& external && !(platform is MacOs) ==> r == SandboxView::InProcess(path)
            &&& enforced && !external ==> r == SandboxView::InProcess(path)
        }),
{
}

/// Without a word on it there is no sandbox.
pub proof fn sandboxes_are_asked_for(cfg: TomlView, platform: Platform)
    requires
        get(cfg, "sandbox"@) is None,
    ensures
        sandbox_of(cfg, platform) is Off,
{
}

/// The memory stands where the environment says, else where the configuration
/// says, else in the home directory, and nowhere where there is none.
pub proof fn memories_have_their_place(cfg: TomlView, env: SessionEnv)
    ensures
        ({
            let home = opt_view(env.home_dir);
            let r = memory_path_of(cfg, env);
            let said = match get(cfg, "memory"@) {
                Some(m) => text_in(get(m, "path"@)),
                None => None,
            };
            &&& env.memory_db matches Some(p) ==> r == Some(expanded_path(p@, home))
            &&& env.memory_db is None && said is Some ==> r == Some(expanded_path(said->0, home))
            &&& env.memory_db is None && said is None && env.home_dir is None ==> r is None
            &&& (env.memory_db is None && said is None && env.home_dir is Some && home->0.len() > 0
                && home->0.last() != '/') ==> r == Some(home->0 + "/"@ + ".grodex"@ + "/"@ + "memory.db"@)
        }),
{
    reveal_strlit(".grodex");
    reveal_strlit("memory.db");
    reveal_strlit("/");
    if let Some(h) = opt_view(env.home_dir) {
        if h.len() > 0 && h.last() != '/' {
            crate::paths::paths_are_joined_by_one_slash(h, ".grodex"@);
            let g = h + "/"@ + ".grodex"@;
            assert(g.last() == 'x');
            crate::paths::paths_are_joined_by_one_slash(g, "memory.db"@);
            assert(joined_path(joined_path(h, ".grodex"@), "memory.db"@) =~= h + "/"@ + ".grodex"@ + "/"@
                + "memory.db"@);
        }
    }
}

/// The memory is looked through again after the number of seconds that is given,
/// and every ten minutes where none is.
pub proof fn memories_are_looked_through_again(n: u64, text: Seq<char>)
    ensures
        rescan_of(Some(decimal(n as nat))) == n,
        rescan_of(None) == 600,
        parsed_u64(text) is None ==> rescan_of(Some(text)) == 600,
{
    crate::text::numbers_read_back(n);
}

/// To trust a workspace makes its layer count and changes no other layer, and
/// no value of any.
pub proof fn trust_changes_workspaces_only(layers: Seq<LayerView>, i: int)
    requires
        0 <= i < layers.len(),
    ensures
        ({
            let t = all_trusted(layers);
            &&& t.len() == layers.len()
            &&& t[i].values == layers[i].values
            &&& layers[i].source == SourceView::Workspace(false) ==> t[i].source == SourceView::Workspace(
                true,
            ) && t[i].disabled_reason is None
            &&& layers[i].source != SourceView::Workspace(false) ==> t[i] == layers[i]
        }),
{
}

/// Layers count with a workspace that is not trusted only where a caller vouches
/// for it.
pub proof fn callers_vouch_for_workspaces(layers: Seq<LayerView>, vouched: Option<bool>, i: int)
    ensures
        vouched != Some(true) ==> vouched_layers(layers, vouched) == layers,
        (vouched == Some(true) && 0 <= i < layers.len() && layers[i].source == SourceView::Workspace(false))
            ==> vouched_layers(layers, vouched) == all_trusted(layers),
        (forall|k: int| 0 <= k < layers.len() ==> (#[trigger] layers[k]).source != SourceView::Workspace(
            false,
        )) ==> vouched_layers(layers, vouched) == layers,
{
    if 0 <= i < layers.len() && layers[i].source == SourceView::Workspace(false) {
        assert(is_workspace(layers[i], false));
    }
}

/// The requirements hold of the values of a workspace that a caller vouched for
/// too.
pub proof fn vouched_values_meet_the_requirements(
    r: RequirementView,
    layers: Seq<LayerView>,
    t: Seq<(Seq<char>, TomlView)>,
)
    requires
        migrated(merged_values(all_trusted(layers))) == TomlView::Table(t),
    ensures
        r.forced_provider matches Some(p) ==> get(remerged(r, layers), "provider"@) == Some(
            TomlView::Text(p),
        ),
        (r.required_sandbox is Some && (lookup(t, "sandbox"@) is None || lookup(t, "sandbox"@)->0 is Table))
            ==> setting_at(remerged(r, layers), "sandbox"@, "type"@) == Some(
            TomlView::Text(r.required_sandbox->0),
        ),
{
    match r.forced_provider {
        Some(p) => forced_provider_wins(r, t, p),
        None => {},
    }
    if lookup(t, "sandbox"@) is None || lookup(t, "sandbox"@)->0 is Table {
        match r.required_sandbox {
            Some(s) => required_sandbox_wins(r, t, s),
            None => {},
        }
    }
}

/// Servers are taken in their order. One that is enabled is started, after it was
/// registered where it asks for authorization; one that is disabled is passed
/// over; and an entry that is none is warned about.
pub proof fn servers_are_taken_in_order(entries: Seq<McpEntry>, e: McpEntry)
    ensures
        ({
            let n = entries.len() as int;
            let before = mcp_steps_of(entries, n);
            let after = mcp_steps_of(entries.push(e), n + 1);
            match e {
                McpEntry::Invalid(m) => after.len() == before.len() + 1 && after.drop_last() == before
                    && (after.last() matches McpStepView::Warn(w) && crate::text::has_suffix(w, m@)),
                McpEntry::Server { enabled, requires_oauth, .. } => if !enabled {
                    after == before
                } else if requires_oauth {
                    after == before + seq![McpStepView::Register(n), McpStepView::Start(n)]
                } else {
                    after == before + seq![McpStepView::Start(n)]
                },
            }
        }),
        mcp_steps_of(entries, 0) == Seq::<McpStepView>::empty(),
{
    let n = entries.len() as int;
    let more = entries.push(e);
    lemma_steps_prefix(entries, more, n);
    let before = mcp_steps_of(entries, n);
    let after = mcp_steps_of(more, n + 1);
    assert(more[n] == e);
    match e {
        McpEntry::Invalid(m) => {
            let w = "[warn] MCP server config parse error: "@ + m@;
            assert(after.drop_last() =~= before);
            assert(w.skip(w.len() - m@.len()) =~= m@);
        },
        McpEntry::Server { enabled, requires_oauth, .. } => {
            if enabled && requires_oauth {
                assert(after =~= before + seq![McpStepView::Register(n), McpStepView::Start(n)]);
            } else if enabled {
                assert(after =~= before + seq![McpStepView::Start(n)]);
            }
        },
    }
}

proof fn lemma_steps_prefix(a: Seq<McpEntry>, b: Seq<McpEntry>, n: int)
    requires
        n <= a.len() <= b.len(),
        forall|i: int| 0 <= i < a.len() ==> a[i] == b[i],
    ensures
        mcp_steps_of(a, n) == mcp_steps_of(b, n),
    decreases n,
{
    if n > 0 {
        lemma_steps_prefix(a, b, n - 1);
    }
}

/// What is told of a server says which, what happened to it and how long it
/// took, each under its key.
pub proof fn server_events_say_what_happened(
    server: Seq<char>,
    phase: Seq<char>,
    status: Seq<char>,
    duration_ms: u64,
    tool_count: u64,
    error: Option<Seq<char>>,
)
    ensures
        mcp_lifecycle_object(server, phase, status, duration_ms, tool_count, error) matches JsonView::Object(o)
            && {
            &&& lookup(o, "server_name"@) == Some(JsonView::Text(server))
            &&& lookup(o, "phase"@) == Some(JsonView::Text(phase))
            &&& lookup(o, "transport"@) == Some(JsonView::Text("stdio"@))
            &&& lookup(o, "tool_count"@) == Some(JsonView::Number(NumberView::Unsigned(tool_count)))
            &&& lookup(o, "status"@) == Some(JsonView::Text(status))
            &&& error matches Some(e) ==> lookup(o, "error_class"@) == Some(JsonView::Text(e))
            &&& error is None ==> lookup(o, "error_class"@) == Some(JsonView::Null)
            &&& lookup(o, "duration_ms"@) == Some(JsonView::Number(NumberView::Unsigned(duration_ms)))
        },
{
    reveal_strlit("server_name");
    reveal_strlit("phase");
    reveal_strlit("transport");
    reveal_strlit("tool_count");
    reveal_strlit("status");
    reveal_strlit("error_class");
    reveal_strlit("duration_ms");
    assert("server_name"@[0] == 's' && "error_class"@[0] == 'e' && "duration_ms"@[0] == 'd');
    assert("server_name"@.len() == 11 && "phase"@.len() == 5 && "transport"@.len() == 9
        && "tool_count"@.len() == 10 && "status"@.len() == 6 && "error_class"@.len() == 11
        && "duration_ms"@.len() == 11);
    let ks = seq![
        "server_name"@,
        "phase"@,
        "transport"@,
        "tool_count"@,
        "status"@,
        "error_class"@,
        "duration_ms"@,
    ];
    let e = match error {
        Some(s) => JsonView::Text(s),
        None => JsonView::Null,
    };
    assert forall|i: int, j: int| 0 <= i < j < 7 implies #[trigger] ks[i] != #[trigger] ks[j] by {
        assert(ks[0] == "server_name"@ && ks[1] == "phase"@ && ks[2] == "transport"@ && ks[3]
            == "tool_count"@ && ks[4] == "status"@ && ks[5] == "error_class"@ && ks[6] == "duration_ms"@);
        assert(ks[i].len() == ks[j].len() ==> ks[i][0] != ks[j][0]);
    }
    let o0 = Seq::<(Seq<char>, JsonView)>::empty();
    let o1 = put(o0, ks[0], JsonView::Text(server));
    let o2 = put(o1, ks[1], JsonView::Text(phase));
    let o3 = put(o2, ks[2], JsonView::Text("stdio"@));
    let o4 = put(o3, ks[3], JsonView::Number(NumberView::Unsigned(tool_count)));
    let o5 = put(o4, ks[4], JsonView::Text(status));
    let o6 = put(o5, ks[5], e);
    let o7 = put(o6, ks[6], JsonView::Number(NumberView::Unsigned(duration_ms)));
    assert forall|i: int| #![trigger ks[i]] 0 <= i < 7 implies lookup(o7, ks[i]) == Some(
        if i == 0 {
            JsonView::Text(server)
        } else if i == 1 {
            JsonView::Text(phase)
        } else if i == 2 {
            JsonView::Text("stdio"@)
        } else if i == 3 {
            JsonView::Number(NumberView::Unsigned(tool_count))
        } else if i == 4 {
            JsonView::Text(status)
        } else if i == 5 {
            e
        } else {
            JsonView::Number(NumberView::Unsigned(duration_ms))
        },
    ) by {
        lookup_after_put(o0, ks[0], JsonView::Text(server), ks[i]);
        lookup_after_put(o1, ks[1], JsonView::Text(phase), ks[i]);
        lookup_after_put(o2, ks[2], JsonView::Text("stdio"@), ks[i]);
        lookup_after_put(o3, ks[3], JsonView::Number(NumberView::Unsigned(tool_count)), ks[i]);
        lookup_after_put(o4, ks[4], JsonView::Text(status), ks[i]);
        lookup_after_put(o5, ks[5], e, ks[i]);
        lookup_after_put(o6, ks[6], JsonView::Number(NumberView::Unsigned(duration_ms)), ks[i]);
    }
    assert(lookup(o7, ks[0]) is Some && lookup(o7, ks[1]) is Some && lookup(o7, ks[2]) is Some && lookup(
        o7,
        ks[3],
    ) is Some && lookup(o7, ks[4]) is Some && lookup(o7, ks[5]) is Some && lookup(o7, ks[6]) is Some);
}

/// The tools of a session and of its sub-agents.
pub proof fn tools_are_built_in(tool: Seq<char>)
    ensures
        tool == "read_file"@ || tool == "write_file"@ || tool == "edit_file"@ || tool == "apply_patch"@
            || tool == "exec"@ || tool == "grep"@ || tool == "glob"@ || tool == "web_fetch"@ || tool
            == "load_skill"@ || tool == "delegate_task"@ <==> builtin_tools_of().contains(tool),
        tool == "read_file"@ || tool == "grep"@ || tool == "glob"@ <==> subagent_tools_of().contains(tool),
        builtin_tools_of().len() == 10,
        subagent_tools_of().len() == 3,
{
    let b = builtin_tools_of();
    assert(b[0] == "read_file"@ && b[1] == "load_skill"@ && b[2] == "write_file"@ && b[3] == "edit_file"@
        && b[4] == "exec"@ && b[5] == "apply_patch"@ && b[6] == "web_fetch"@ && b[7] == "grep"@ && b[8]
        == "glob"@ && b[9] == "delegate_task"@);
    let s = subagent_tools_of();
    assert(s[0] == "read_file"@ && s[1] == "grep"@ && s[2] == "glob"@);
}

/// The values of a session are those of its configuration, unless a caller
/// vouches for a workspace that is not trusted.
pub proof fn values_change_with_a_voucher_only(config: LoadedConfig, i: int)
    ensures
        vouched_values(config, None) == config.effective.values@,
        vouched_values(config, Some(false)) == config.effective.values@,
        0 <= i < config.raw_layers@.len() && layers_view(config.raw_layers@)[i].source
            == SourceView::Workspace(false) ==> vouched_values(config, Some(true)) == enforced(
            config.requirements@,
            migrated(merged_values(all_trusted(layers_view(config.raw_layers@)))),
        ),
{
    let ls = layers_view(config.raw_layers@);
    if 0 <= i < config.raw_layers@.len() && ls[i].source == SourceView::Workspace(false) {
        assert(is_workspace(ls[i], false));
    }
}

} // verus!
