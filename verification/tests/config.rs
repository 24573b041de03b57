use grodex::config::fs_backend::{
    observe_fs_event, pump_event, validate_config, watch_sources, FsWatchSource, WatchedFiles,
};
use grodex::config::generation::ConfigGeneration;
use grodex::config::glob::glob_match;
use grodex::config::layer::{ConfigLayer, ConfigLayerSource};
use grodex::config::loader::{
    high_risk_keys, load_all_layers, load_toml, ConfigFile, ConfigPaths, ConfigSlot, FileRead,
    Platform, WorkspaceFacts,
};
use grodex::config::merge::{layer_precedence, merge_layers};
use grodex::config::migration::{migrate, CURRENT_SCHEMA_VERSION};
use grodex::config::requirements::RequirementBinding;
use grodex::config::resolver::ConfigResolver;
use grodex::config::trust::{remote_from_output, WorkspaceTrustBinding};
use grodex::config::values::DiagnosticLevel;
use grodex::config::watcher::{
    BreakerState, ConfigDomain, ConfigWatcher, PublishBreaker, PublishBreakerConfig, WatchOutcome,
};
use grodex::paths::{expand_user_path, nearest, plain_path, Place};
use grodex::toml_value::TomlValue;

const SECOND: u64 = 1_000_000_000;

fn toml(text: &str) -> TomlValue {
    load_toml("test.toml", text).unwrap().0
}

fn at<'a>(v: &'a TomlValue, keys: &[&str]) -> &'a TomlValue {
    let mut v = v;
    for k in keys {
        v = v.get(k).unwrap();
    }
    v
}

// ── paths ───────────────────────────────────────────────────────────

#[test]
fn expand_user_path_leaves_absolute_and_relative_untouched() {
    assert_eq!(expand_user_path("/tmp/x.db", Some("/home/u")), "/tmp/x.db");
    assert_eq!(
        expand_user_path("relative/x.db", Some("/home/u")),
        "relative/x.db"
    );
}

#[test]
fn expand_user_path_expands_tilde_prefix() {
    let home = "/home/u";
    assert_eq!(
        expand_user_path("~/.grodex/memory.db", Some(home)),
        "/home/u/.grodex/memory.db"
    );
    assert_eq!(expand_user_path("~", Some(home)), home);
    assert_eq!(expand_user_path("~/x", None), "~/x");
}

#[test]
fn expand_user_path_trims_whitespace() {
    assert_eq!(
        expand_user_path("  /tmp/x.db  ", Some("/home/u")),
        "/tmp/x.db"
    );
}

// ── merging ─────────────────────────────────────────────────────────

fn make_layer(source: ConfigLayerSource, toml_str: &str) -> ConfigLayer {
    ConfigLayer {
        source,
        values: toml(toml_str),
        fingerprint: "test".into(),
        disabled_reason: None,
    }
}

#[test]
fn merge_simple_override() {
    let base = make_layer(ConfigLayerSource::System, r#"key = "base""#);
    let overlay = make_layer(ConfigLayerSource::User, r#"key = "user""#);

    let result = merge_layers(&vec![base, overlay]);
    assert_eq!(at(&result.values, &["key"]).as_str(), Some("user"));
    assert_eq!(result.generation, 1);
}

#[test]
fn merge_nested_tables() {
    let base = make_layer(
        ConfigLayerSource::System,
        "[server]\nhost = \"localhost\"\nport = 8080",
    );
    let overlay = make_layer(ConfigLayerSource::User, "[server]\nport = 9090");

    let result = merge_layers(&vec![base, overlay]);
    assert_eq!(
        at(&result.values, &["server", "host"]).as_str(),
        Some("localhost")
    );
    assert_eq!(
        at(&result.values, &["server", "port"]).as_integer(),
        Some(9090)
    );
}

#[test]
fn merge_new_key_from_overlay() {
    let base = make_layer(ConfigLayerSource::System, r#"existing = 1"#);
    let overlay = make_layer(ConfigLayerSource::User, r#"new_key = "hello""#);

    let result = merge_layers(&vec![base, overlay]);
    assert_eq!(at(&result.values, &["existing"]).as_integer(), Some(1));
    assert_eq!(at(&result.values, &["new_key"]).as_str(), Some("hello"));
}

#[test]
fn empty_layers_returns_empty_config() {
    let result = merge_layers(&vec![]);
    assert_eq!(result.generation, 0);
}

#[test]
fn merge_traces_record_origin() {
    let base = make_layer(ConfigLayerSource::System, r#"key = "sys""#);
    let overlay = make_layer(ConfigLayerSource::User, r#"key2 = "usr""#);

    let result = merge_layers(&vec![base, overlay]);
    assert_eq!(
        result.merge_traces.get("key").unwrap().origin,
        ConfigLayerSource::System
    );
    assert_eq!(
        result.merge_traces.get("key2").unwrap().origin,
        ConfigLayerSource::User
    );
}

#[test]
fn disabled_layers_are_left_out() {
    let mut off = make_layer(ConfigLayerSource::User, "a = 2");
    off.disabled_reason = Some("why".into());
    let result = merge_layers(&vec![make_layer(ConfigLayerSource::System, "a = 1"), off]);
    assert_eq!(at(&result.values, &["a"]).as_integer(), Some(1));
    assert_eq!(result.diagnostics.len(), 1);
    assert_eq!(result.diagnostics[0].message, "layer User is disabled: why");
}

#[test]
fn layers_have_an_order() {
    assert!(
        layer_precedence(&ConfigLayerSource::System) < layer_precedence(&ConfigLayerSource::User)
    );
    assert!(
        layer_precedence(&ConfigLayerSource::User)
            < layer_precedence(&ConfigLayerSource::Workspace { trusted: true })
    );
}

// ── migration ───────────────────────────────────────────────────────

#[test]
fn missing_schema_version_defaults_to_v1() {
    let result = migrate(toml(r#"model = "gpt-4""#));
    assert_eq!(result.source_schema_version, 1);
    assert_eq!(result.target_schema_version, 2);
    assert!(result.values.get("model_id").is_some());
    assert!(result.values.get("model").is_none());
    assert!(
        !result.diagnostics.is_empty(),
        "should record migration diagnostics"
    );
}

#[test]
fn already_v2_no_migration() {
    let result = migrate(toml("schema_version = 2\nmodel_id = \"gpt-4\""));
    assert_eq!(result.source_schema_version, 2);
    assert_eq!(result.target_schema_version, 2);
    assert!(
        result.diagnostics.is_empty(),
        "v2 should not produce migration diagnostics"
    );
}

#[test]
fn v1_to_v2_renames_model() {
    let result = migrate(toml(r#"model = "opus""#));
    assert_eq!(
        at(&result.values, &["model_id"]).as_str(),
        Some("opus")
    );
    assert!(result.values.get("model").is_none());
}

#[test]
fn v1_to_v2_renames_provider_endpoint() {
    let result = migrate(toml("[provider]\nendpoint = \"https://api.openai.com\""));
    assert_eq!(
        at(&result.values, &["provider", "base_url"]).as_str(),
        Some("https://api.openai.com")
    );
}

#[test]
fn v1_to_v2_moves_mcp_servers() {
    let result = migrate(toml(r#"mcp_servers = ["github", "filesystem"]"#));
    assert!(at(&result.values, &["mcp", "servers"]).as_array().is_some());
}

#[test]
fn v1_to_v2_moves_max_turns_to_budget() {
    let result = migrate(toml(r#"max_turns = 50"#));
    assert_eq!(
        at(&result.values, &["budget", "max_turns"]).as_integer(),
        Some(50)
    );
}

#[test]
fn schema_version_stamped_in_result() {
    let result = migrate(toml(r#"model = "gpt-4""#));
    assert_eq!(
        at(&result.values, &["schema_version"]).as_integer(),
        Some(CURRENT_SCHEMA_VERSION as i64)
    );
}

#[test]
fn strict_zone_keys_warn() {
    let result = migrate(toml("[sandbox]\ntype = \"seatbelt\""));
    assert!(result
        .diagnostics
        .iter()
        .any(|d| d.key_path == "sandbox" && d.level == DiagnosticLevel::Warning));
}

#[test]
fn idempotent_migration() {
    let result1 = migrate(toml(r#"model = "gpt-4""#));
    let result2 = migrate(result1.values.duplicate());
    assert_eq!(result2.source_schema_version, 2);
    assert!(result2.diagnostics.is_empty());
    assert_eq!(result2.values, result1.values);
}

// ── requirements ────────────────────────────────────────────────────

#[test]
fn parse_full_requirements() {
    let values = toml(
        r#"
[requirements]
managed_deny = ["/etc/**", "/var/**"]
forced_provider = "anthropic"
required_sandbox = "landlock"
disabled_features = ["shell_exec"]
allowed_mcp_sources = ["github.com/my-org/*"]
require_keychain_storage = true
"#,
    );

    let req = RequirementBinding::from_toml(&values);
    assert_eq!(req.managed_deny, vec!["/etc/**", "/var/**"]);
    assert_eq!(req.forced_provider.as_deref(), Some("anthropic"));
    assert_eq!(req.required_sandbox.as_deref(), Some("landlock"));
    assert!(req.is_feature_disabled("shell_exec"));
    assert!(!req.is_feature_disabled("read_file"));
    assert_eq!(req.allowed_mcp_sources, vec!["github.com/my-org/*"]);
    assert!(req.require_keychain_storage);
    assert!(!req.is_empty());
}

#[test]
fn parse_empty_requirements_defaults() {
    let req = RequirementBinding::from_toml(&toml(r#"model = "gpt-4""#));
    assert!(req.is_empty());
    assert!(!req.require_keychain_storage);
}

#[test]
fn parse_partial_requirements() {
    let req = RequirementBinding::from_toml(&toml(
        r#"
[requirements]
forced_provider = "openai"
"#,
    ));
    assert_eq!(req.forced_provider.as_deref(), Some("openai"));
    assert!(req.managed_deny.is_empty());
    assert!(!req.is_empty());
}

#[test]
fn enforce_empty_requirements_noop() {
    let req = RequirementBinding::default();
    let values = toml(r#"provider = "anthropic""#);
    let (enforced, diags) = req.enforce(values.duplicate());
    assert_eq!(enforced, values);
    assert!(diags.is_empty());
}

#[test]
fn enforce_forced_provider_overrides_user_value() {
    let req = RequirementBinding {
        forced_provider: Some("anthropic".into()),
        ..Default::default()
    };
    let (enforced, diags) = req.enforce(toml(r#"provider = "openai""#));
    assert_eq!(at(&enforced, &["provider"]).as_str(), Some("anthropic"));
    assert!(diags.iter().any(|d| d.level == DiagnosticLevel::Error
        && d.key_path == "provider"
        && d.message.contains("→ 'anthropic'")));
}

#[test]
fn enforce_forced_provider_inserts_when_absent() {
    let req = RequirementBinding {
        forced_provider: Some("ollama".into()),
        ..Default::default()
    };
    let (enforced, _diags) = req.enforce(toml(r#"model_id = "qwen2.5""#));
    assert_eq!(at(&enforced, &["provider"]).as_str(), Some("ollama"));
}

#[test]
fn enforce_required_sandbox_overrides() {
    let req = RequirementBinding {
        required_sandbox: Some("landlock".into()),
        ..Default::default()
    };
    let (enforced, diags) = req.enforce(toml(
        r#"
[sandbox]
type = "none"
"#,
    ));
    assert_eq!(at(&enforced, &["sandbox", "type"]).as_str(), Some("landlock"));
    assert!(diags
        .iter()
        .any(|d| d.key_path == "sandbox.type" && d.level == DiagnosticLevel::Error));
}

#[test]
fn enforce_disabled_features_forces_false() {
    let req = RequirementBinding {
        disabled_features: vec!["shell_exec".into(), "code_interpreter".into()],
        ..Default::default()
    };
    let (enforced, diags) = req.enforce(toml(
        r#"
[features]
shell_exec = true
read_file = true
"#,
    ));
    assert_eq!(
        at(&enforced, &["features", "shell_exec"]).as_bool(),
        Some(false)
    );
    assert_eq!(
        at(&enforced, &["features", "code_interpreter"]).as_bool(),
        Some(false)
    );
    assert_eq!(
        at(&enforced, &["features", "read_file"]).as_bool(),
        Some(true)
    );
    assert!(diags.iter().any(|d| d.key_path == "features.shell_exec"));
}

#[test]
fn enforce_require_keychain_storage() {
    let req = RequirementBinding {
        require_keychain_storage: true,
        ..Default::default()
    };
    let (enforced, diags) = req.enforce(toml(
        r#"
[credential]
storage = "plaintext"
"#,
    ));
    assert_eq!(
        at(&enforced, &["credential", "storage"]).as_str(),
        Some("keychain")
    );
    assert!(diags.iter().any(|d| d.key_path == "credential.storage"));
}

#[test]
fn enforce_allowed_mcp_sources_filters_servers() {
    let req = RequirementBinding {
        allowed_mcp_sources: vec!["github.com/my-org/*".into()],
        ..Default::default()
    };
    let (enforced, diags) = req.enforce(toml(
        r#"
[[mcp.servers]]
name = "allowed-1"
source = "github.com/my-org/mcp-filesystem"
command = "npx"

[[mcp.servers]]
name = "disallowed"
source = "github.com/someone-else/evil-mcp"
command = "npx"

[[mcp.servers]]
name = "allowed-2"
source = "github.com/my-org/mcp-git"
command = "npx"
"#,
    ));
    let servers = at(&enforced, &["mcp", "servers"]).as_array().unwrap();
    assert_eq!(
        servers.len(),
        2,
        "should keep 2 matching servers, removed 1 disallowed"
    );
    assert!(diags
        .iter()
        .any(|d| d.key_path == "mcp.servers" && d.message.contains("removed 1")));
}

#[test]
fn enforce_managed_deny_emits_info_diagnostic() {
    let req = RequirementBinding {
        managed_deny: vec!["/etc/**".into()],
        ..Default::default()
    };
    let (_enforced, diags) = req.enforce(toml(r#"model_id = "gpt-4""#));
    assert!(diags
        .iter()
        .any(|d| d.key_path == "requirements.managed_deny"
            && d.level == DiagnosticLevel::Info
            && d.message.contains("/etc/**")));
}

#[test]
fn enforce_combined_all_constraints() {
    let req = RequirementBinding::from_toml(&toml(
        r#"
[requirements]
forced_provider = "anthropic"
required_sandbox = "landlock"
disabled_features = ["shell_exec"]
allowed_mcp_sources = ["internal.corp/**"]
require_keychain_storage = true
managed_deny = ["/proc/**"]
"#,
    ));

    let user_values = toml(
        r#"
provider = "openai"
[features]
shell_exec = true
[credential]
storage = "plaintext"
[[mcp.servers]]
name = "bad"
source = "github.com/evil/mcp"
[[mcp.servers]]
name = "good"
source = "internal.corp/mcp/internal-logs"
"#,
    );

    let (enforced, _diags) = req.enforce(user_values);
    assert_eq!(at(&enforced, &["provider"]).as_str(), Some("anthropic"));
    assert_eq!(at(&enforced, &["sandbox", "type"]).as_str(), Some("landlock"));
    assert_eq!(
        at(&enforced, &["features", "shell_exec"]).as_bool(),
        Some(false)
    );
    assert_eq!(
        at(&enforced, &["credential", "storage"]).as_str(),
        Some("keychain")
    );
    assert_eq!(
        at(&enforced, &["mcp", "servers"]).as_array().unwrap().len(),
        1
    );
    // What meets the requirements meets them still.
    let (again, _) = req.enforce(enforced.duplicate());
    assert_eq!(again, enforced);
}

// ── globs ───────────────────────────────────────────────────────────

#[test]
fn glob_match_literal() {
    assert!(glob_match("hello", "hello"));
    assert!(!glob_match("hello", "world"));
}

#[test]
fn glob_match_single_star_no_slash() {
    assert!(glob_match("foo/*/baz", "foo/bar/baz"));
    assert!(glob_match("*.md", "README.md"));
    assert!(!glob_match("*.md", "docs/README.md"));
}

#[test]
fn glob_match_double_star_crosses_slash() {
    assert!(glob_match("**/README.md", "README.md"));
    assert!(glob_match("**/README.md", "a/README.md"));
    assert!(glob_match("**/README.md", "a/b/c/README.md"));
}

#[test]
fn glob_match_double_star_trailing() {
    assert!(glob_match("github.com/my-org/**", "github.com/my-org/mcp-foo"));
    assert!(glob_match(
        "github.com/my-org/**",
        "github.com/my-org/nested/mcp-bar"
    ));
    assert!(!glob_match("github.com/my-org/**", "github.com/other-org/mcp"));
}

#[test]
fn glob_match_empty_pattern_and_text() {
    assert!(glob_match("", ""));
    assert!(!glob_match("x", ""));
    assert!(!glob_match("", "y"));
}

// ── loading ─────────────────────────────────────────────────────────

fn no_paths() -> ConfigPaths {
    ConfigPaths {
        system: None,
        enterprise: None,
        user: None,
        profile: None,
        workspace: None,
    }
}

fn facts() -> WorkspaceFacts {
    WorkspaceFacts {
        canonical_path: "/project".into(),
        remote: None,
    }
}

fn file(slot: ConfigSlot, text: &str) -> ConfigFile {
    ConfigFile {
        slot,
        path: "/c/config.toml".into(),
        read: FileRead::Text(text.into()),
    }
}

#[test]
fn load_empty_when_no_config_files() {
    let config = ConfigResolver::load(no_paths(), &vec![], &facts()).unwrap();
    assert_eq!(config.effective.generation, 0);
    assert!(config.raw_layers.is_empty());
}

#[test]
fn load_explicit_workspace_layer() {
    let text = "model = \"opus\"\n\n[workspace]\ntrusted = true\n";
    let files = vec![file(ConfigSlot::Workspace, text)];
    let config = ConfigResolver::load(no_paths(), &files, &facts()).unwrap();
    assert_eq!(config.raw_layers.len(), 1);
    let model_id = config.effective.values.get("model_id").unwrap();
    assert_eq!(model_id.as_str(), Some("opus"));
}

#[test]
fn enterprise_requirements_override_workspace_in_load_pipeline() {
    let system = r#"
[requirements]
forced_provider = "anthropic"
required_sandbox = "landlock"
disabled_features = ["shell_exec"]
"#;
    let workspace = r#"
provider = "openai"
model_id = "gpt-4o"

[sandbox]
type = "none"

[features]
shell_exec = true
read_file = true

[workspace]
trusted = true
"#;
    let files = vec![
        file(ConfigSlot::System, system),
        file(ConfigSlot::Workspace, workspace),
    ];
    let loaded = ConfigResolver::load(no_paths(), &files, &facts()).unwrap();
    let values = &loaded.effective.values;

    assert_eq!(at(values, &["provider"]).as_str(), Some("anthropic"));
    assert_eq!(at(values, &["sandbox", "type"]).as_str(), Some("landlock"));
    assert_eq!(
        at(values, &["features", "shell_exec"]).as_bool(),
        Some(false)
    );

    assert_eq!(at(values, &["model_id"]).as_str(), Some("gpt-4o"));
    assert_eq!(at(values, &["features", "read_file"]).as_bool(), Some(true));

    let override_diags: Vec<_> = loaded
        .effective
        .diagnostics
        .iter()
        .filter(|d| d.message.contains("requirement override"))
        .collect();
    assert!(
        override_diags.len() >= 3,
        "expected 3+ requirement override diagnostics, got: {:?}",
        loaded.effective.diagnostics
    );

    assert!(
        loaded.generation.root > 1,
        "root generation should be bumped after enforcement override"
    );
    assert!(
        loaded.generation.provider > 1,
        "provider generation should be bumped: forced_provider override"
    );
    assert!(
        loaded.generation.sandbox > 1,
        "sandbox generation should be bumped: required_sandbox override"
    );
    assert!(
        loaded.generation.policy > 1,
        "policy generation should be bumped: disabled_features override"
    );

    assert!(
        !loaded.requirements.is_empty(),
        "requirements should be populated from merged config"
    );
    assert_eq!(
        loaded.requirements.forced_provider.as_deref(),
        Some("anthropic")
    );
}

#[test]
fn user_requirements_are_ignored() {
    let files = vec![file(
        ConfigSlot::User,
        "provider = \"openai\"\n[requirements]\nforced_provider = \"x\"\n",
    )];
    let loaded = ConfigResolver::load(no_paths(), &files, &facts()).unwrap();
    assert!(loaded.requirements.is_empty());
    assert_eq!(
        at(&loaded.effective.values, &["provider"]).as_str(),
        Some("openai")
    );
}

#[test]
fn every_override_is_reported() {
    let req = RequirementBinding {
        forced_provider: Some("a".into()),
        disabled_features: vec!["web".into(), "shell".into()],
        ..Default::default()
    };
    let (enforced, diags) = req.enforce(toml(
        r#"
provider = 3
[features]
web = "yes"
shell = true
[[model_routes.fast.candidates]]
provider_id = "b"
[[model_routes.fast.candidates]]
provider_id = "a"
[[model_routes.fast.candidates]]
model_id = "m"
"#,
    ));
    let said: Vec<(&str, &str)> = diags
        .iter()
        .map(|d| (d.key_path.as_str(), d.message.as_str()))
        .collect();
    assert_eq!(
        said,
        vec![
            (
                "provider",
                "requirement override: provider → 'a' (enterprise forced_provider, cannot be overridden)"
            ),
            (
                "model_routes.fast",
                "requirement override: model_routes.fast provider_id 'b' → 'a' (enterprise forced_provider, cannot be overridden)"
            ),
            (
                "features.web",
                "requirement override: features.web → false (enterprise disabled_features, cannot be re-enabled)"
            ),
            (
                "features.shell",
                "requirement override: features.shell = true → false (enterprise disabled_features, cannot be re-enabled)"
            ),
        ]
    );
    let (again, diags) = req.enforce(enforced);
    assert!(diags.is_empty());
    assert_eq!(at(&again, &["features", "web"]).as_bool(), Some(false));
}

#[test]
fn reloads_only_raise_generations() {
    let mut resolver = ConfigResolver::new(no_paths());
    let files = vec![file(ConfigSlot::User, "provider = \"a\"")];
    let first = resolver.reload(&files, &facts()).unwrap();
    assert_eq!(first.generation.root, 1);
    assert_eq!(first.generation.ui, 2);
    let second = resolver.reload(&vec![], &facts()).unwrap();
    assert_eq!(second.generation.root, 2);
    assert_eq!(second.effective.generation, 2);
    assert_eq!(second.generation.ui, 3);
    let forced = "provider = \"a\"\n[requirements]\nforced_provider = \"b\"\n";
    let files = vec![file(ConfigSlot::System, forced)];
    let third = resolver.reload(&files, &facts()).unwrap();
    assert_eq!(third.generation.root, 4);
    assert_eq!(third.generation.ui, 4);
    assert_eq!(third.generation.provider, 5);
}

#[test]
fn untrusted_workspaces_are_quarantined() {
    let files = vec![
        file(ConfigSlot::User, "provider = \"a\""),
        file(ConfigSlot::Workspace, "provider = \"b\""),
    ];
    let loaded = ConfigResolver::load(no_paths(), &files, &facts()).unwrap();
    assert_eq!(
        at(&loaded.effective.values, &["provider"]).as_str(),
        Some("a")
    );
    assert!(loaded.raw_layers[1].disabled_reason.is_some());
}

#[test]
fn broken_files_are_reported() {
    let files = vec![file(ConfigSlot::User, "[[[broken")];
    let (layers, diags) = load_all_layers(&files, &facts()).unwrap();
    assert!(layers.is_empty());
    assert_eq!(diags.len(), 1);
    assert!(load_toml("x", "[[[broken").is_err());
}

#[test]
fn a_document_need_not_be_a_table() {
    let v = toml("\"$__toml_private_datetime\" = \"1979-05-27\"");
    assert!(matches!(v, TomlValue::Datetime(ref d) if d == "1979-05-27"));
    assert!(high_risk_keys(&v).is_empty());
}

#[test]
fn standard_places() {
    let p = ConfigPaths::discover(Platform::Linux, Some("/home/u"), Some("/w/c.toml".into()));
    assert_eq!(p.system.as_deref(), Some("/etc/grodex/config.toml"));
    assert_eq!(p.user.as_deref(), Some("/home/u/.grodex/config.toml"));
    let places = p.ordered_paths();
    assert_eq!(places.len(), 3);
    assert_eq!(places[2].0.name(), "workspace");
    let sources = watch_sources(&places, &vec![false, true, true]);
    assert_eq!(sources.len(), 2);
    assert_eq!(sources[0].source_id, "user");
    assert_eq!(sources[1].path, "/w/c.toml");
}

#[test]
fn trust_bindings_depend_on_every_part() {
    let a = WorkspaceTrustBinding::compute("/p".into(), None, "f".into(), vec!["k".into()]);
    let b = WorkspaceTrustBinding::compute("/p".into(), None, "g".into(), vec!["k".into()]);
    let c = WorkspaceTrustBinding::compute("/p".into(), Some("r".into()), "f".into(), vec![]);
    assert_ne!(a.binding_hash, b.binding_hash);
    assert_ne!(a.binding_hash, c.binding_hash);
    assert!(remote_from_output(false, b"x").is_none());
    assert_eq!(
        remote_from_output(true, b"git@x:y\n").as_deref(),
        Some("git@x:y")
    );
    assert!(remote_from_output(true, b" \n").is_none());
}

// ── watching ────────────────────────────────────────────────────────

fn ok_validate(generation: u64) -> impl FnOnce(&[u8]) -> Result<u64, String> {
    move |_| Ok(generation)
}

fn fail_validate(msg: &'static str) -> impl FnOnce(&[u8]) -> Result<u64, String> {
    move |_| Err(msg.into())
}

fn toml_validate(generation: u64) -> impl FnOnce(&[u8]) -> Result<u64, String> {
    move |c| {
        let mut next = generation;
        validate_config(c, &mut next)
    }
}

#[test]
fn duplicate_events_publish_once() {
    let mut w = ConfigWatcher::default();
    let now = 0;
    let content = b"[ui]\ntheme = \"dark\"";

    let r1 = w.observe(ConfigDomain::Ui, "workspace", content, now, ok_validate(1));
    assert_eq!(r1, WatchOutcome::Published { generation: 1 });
    for _ in 0..5 {
        let r = w.observe(ConfigDomain::Ui, "workspace", content, now, ok_validate(2));
        assert_eq!(r, WatchOutcome::Unchanged);
    }
    assert_eq!(w.total_publishes(), 1, "burst must publish exactly once");
    assert_eq!(w.compile_attempts(ConfigDomain::Ui), 1);
}

#[test]
fn atomic_save_two_events_one_publish() {
    let mut w = ConfigWatcher::default();
    let now = 0;
    let content = b"model_id = \"gpt-5\"";

    let r1 = w.observe(ConfigDomain::Root, "user", content, now, ok_validate(1));
    assert_eq!(r1, WatchOutcome::Published { generation: 1 });
    let r2 = w.observe(ConfigDomain::Root, "user", content, now, ok_validate(2));
    assert_eq!(r2, WatchOutcome::Unchanged);
    assert_eq!(w.total_publishes(), 1);
}

#[test]
fn malformed_content_never_replaces_valid_generation() {
    let mut w = ConfigWatcher::default();
    let now = 0;

    let r1 = w.observe(ConfigDomain::Root, "user", b"good = 1", now, ok_validate(7));
    assert_eq!(r1, WatchOutcome::Published { generation: 7 });

    let r2 = w.observe(
        ConfigDomain::Root,
        "user",
        b"[[[broken",
        now,
        fail_validate("toml parse error"),
    );
    assert!(matches!(r2, WatchOutcome::Rejected { .. }));
    assert_eq!(
        w.generation(ConfigDomain::Root),
        7,
        "live generation preserved"
    );
    let lkg = w.last_known_good(ConfigDomain::Root).unwrap();
    assert_eq!(lkg.generation, 7);
}

#[test]
fn same_bad_hash_reuses_cached_diagnostic_without_recompile() {
    let cfg = PublishBreakerConfig {
        failure_threshold: 10,
        ..Default::default()
    };
    let mut w = ConfigWatcher::with_breaker_config(cfg);
    let now = 0;
    let bad = b"[[[broken";

    let r1 = w.observe(ConfigDomain::Ui, "user", bad, now, fail_validate("boom"));
    assert!(matches!(r1, WatchOutcome::Rejected { .. }));
    for _ in 0..4 {
        let r = w.observe(ConfigDomain::Ui, "user", bad, now, fail_validate("boom"));
        assert_eq!(
            r,
            WatchOutcome::CachedFailure {
                diagnostic: "boom".into()
            }
        );
    }
    assert_eq!(
        w.compile_attempts(ConfigDomain::Ui),
        1,
        "no re-compile for same bad hash"
    );
}

#[test]
fn breaker_opens_and_recovers_via_halfopen_on_content_change() {
    let cfg = PublishBreakerConfig {
        failure_threshold: 2,
        base_cooldown: 600 * SECOND,
        ..Default::default()
    };
    let mut w = ConfigWatcher::with_breaker_config(cfg);
    let now = 0;

    for i in 0..2 {
        let r = w.observe(
            ConfigDomain::Mcp,
            "user",
            format!("bad-{i}").as_bytes(),
            now,
            fail_validate("invalid"),
        );
        assert!(matches!(r, WatchOutcome::Rejected { .. }));
    }
    assert_eq!(
        w.breaker_state(ConfigDomain::Mcp),
        Some(&BreakerState::Open {
            until: now + 600 * SECOND,
            cooldown: 600 * SECOND,
        })
    );

    let r = w.observe(ConfigDomain::Mcp, "user", b"bad-1", now, fail_validate("x"));
    assert!(matches!(r, WatchOutcome::BreakerOpen { .. }));

    let r = w.observe(ConfigDomain::Mcp, "user", b"fixed = true", now, ok_validate(3));
    assert_eq!(r, WatchOutcome::Published { generation: 3 });
    assert_eq!(
        w.breaker_state(ConfigDomain::Mcp),
        Some(&BreakerState::Closed)
    );
}

#[test]
fn halfopen_failure_doubles_cooldown() {
    let cfg = PublishBreakerConfig {
        failure_threshold: 1,
        base_cooldown: 10 * SECOND,
        max_cooldown: 300 * SECOND,
    };
    let mut w = ConfigWatcher::with_breaker_config(cfg);
    let now = 0;

    let _ = w.observe(ConfigDomain::Root, "user", b"bad1", now, fail_validate("e"));
    let probe_at = now + SECOND;
    let _ = w.observe(
        ConfigDomain::Root,
        "user",
        b"bad2",
        probe_at,
        fail_validate("e"),
    );
    assert_eq!(
        w.breaker_state(ConfigDomain::Root),
        Some(&BreakerState::Open {
            until: probe_at + 20 * SECOND,
            cooldown: 20 * SECOND,
        }),
        "failed HalfOpen probe must double the cooldown"
    );
}

#[test]
fn cooldown_expiry_rearms_halfopen() {
    let cfg = PublishBreakerConfig {
        failure_threshold: 1,
        base_cooldown: 5 * SECOND,
        max_cooldown: 300 * SECOND,
    };
    let mut w = ConfigWatcher::with_breaker_config(cfg);
    let now = 0;

    let _ = w.observe(
        ConfigDomain::Root,
        "user",
        b"same-bad",
        now,
        fail_validate("e"),
    );
    assert!(matches!(
        w.breaker_state(ConfigDomain::Root),
        Some(BreakerState::Open { .. })
    ));
    let r = w.observe(
        ConfigDomain::Root,
        "user",
        b"same-bad",
        now + SECOND,
        fail_validate("e"),
    );
    assert!(matches!(r, WatchOutcome::BreakerOpen { .. }));
    let r = w.observe(
        ConfigDomain::Root,
        "user",
        b"same-bad",
        now + 6 * SECOND,
        ok_validate(9),
    );
    assert_eq!(r, WatchOutcome::Published { generation: 9 });
}

#[test]
fn domain_failures_are_isolated() {
    let cfg = PublishBreakerConfig {
        failure_threshold: 1,
        ..Default::default()
    };
    let mut w = ConfigWatcher::with_breaker_config(cfg);
    let now = 0;

    let _ = w.observe(
        ConfigDomain::Ui,
        "user",
        b"bad-theme",
        now,
        fail_validate("theme broken"),
    );
    assert!(matches!(
        w.breaker_state(ConfigDomain::Ui),
        Some(BreakerState::Open { .. })
    ));

    let r = w.observe(
        ConfigDomain::Policy,
        "managed",
        b"policy = \"strict\"",
        now,
        ok_validate(4),
    );
    assert_eq!(
        r,
        WatchOutcome::Published { generation: 4 },
        "Policy publish must proceed despite UI breaker Open"
    );
}

#[test]
fn lkg_recorded_per_domain() {
    let mut w = ConfigWatcher::default();
    let now = 0;
    let _ = w.observe(
        ConfigDomain::Prompt,
        "user",
        b"prompt-a",
        now,
        ok_validate(2),
    );
    let _ = w.observe(
        ConfigDomain::Sandbox,
        "system",
        b"profile-a",
        now,
        ok_validate(5),
    );

    let prompt_lkg = w.last_known_good(ConfigDomain::Prompt).unwrap();
    assert_eq!(prompt_lkg.generation, 2);
    assert_eq!(
        prompt_lkg.content_hash,
        ConfigWatcher::content_hash(b"prompt-a")
    );
    assert_eq!(
        w.last_known_good(ConfigDomain::Sandbox).unwrap().generation,
        5
    );
    assert!(w.last_known_good(ConfigDomain::Ui).is_none());
}

#[test]
fn force_probe_never_skips_validation() {
    let cfg = PublishBreakerConfig {
        failure_threshold: 1,
        base_cooldown: 600 * SECOND,
        ..Default::default()
    };
    let mut w = ConfigWatcher::with_breaker_config(cfg);
    let now = 0;
    let bad = b"[[[broken";

    let _ = w.observe(ConfigDomain::Root, "user", bad, now, fail_validate("e"));
    let r = w.force_probe(ConfigDomain::Root, "user", bad, now, fail_validate("e"));
    assert!(matches!(r, WatchOutcome::Rejected { .. }));
    assert_eq!(w.compile_attempts(ConfigDomain::Root), 2);
}

#[test]
fn forced_probes_validate_what_is_live() {
    let mut w = ConfigWatcher::default();
    let good = b"good = 1";
    let r = w.observe(ConfigDomain::Root, "user", good, 0, ok_validate(7));
    assert_eq!(r, WatchOutcome::Published { generation: 7 });
    let r = w.force_probe(ConfigDomain::Root, "user", good, 0, ok_validate(8));
    assert_eq!(r, WatchOutcome::Published { generation: 8 });
    assert_eq!(w.compile_attempts(ConfigDomain::Root), 2);
    assert_eq!(w.total_publishes(), 2);
    assert_eq!(w.generation(ConfigDomain::Root), 8);
    let r = w.force_probe(ConfigDomain::Root, "user", good, 0, fail_validate("e"));
    assert!(matches!(r, WatchOutcome::Rejected { .. }));
    assert_eq!(w.compile_attempts(ConfigDomain::Root), 3);
    // What is live stays live.
    let r = w.observe(ConfigDomain::Root, "user", good, 0, ok_validate(9));
    assert_eq!(r, WatchOutcome::Unchanged);
}

#[test]
fn failures_are_remembered_by_source() {
    let mut w = ConfigWatcher::default();
    let bad = b"[[[broken";
    let _ = w.observe(ConfigDomain::Root, "user", bad, 0, fail_validate("e"));
    let r = w.observe(ConfigDomain::Root, "user", bad, 0, fail_validate("f"));
    assert_eq!(
        r,
        WatchOutcome::CachedFailure {
            diagnostic: "e".into()
        }
    );
    let r = w.observe(ConfigDomain::Root, "workspace", bad, 0, fail_validate("g"));
    assert_eq!(
        r,
        WatchOutcome::Rejected {
            diagnostic: "g".into()
        }
    );
    assert_eq!(w.compile_attempts(ConfigDomain::Root), 2);
}

#[test]
fn histories_decide_what_is_validated() {
    let cfg = PublishBreakerConfig {
        failure_threshold: 2,
        base_cooldown: 10,
        max_cooldown: 100,
    };
    let mut w = ConfigWatcher::with_breaker_config(cfg);
    let d = ConfigDomain::Ui;
    let _ = w.observe(d, "user", b"a", 0, ok_validate(1));
    let _ = w.observe(d, "user", b"b", 1, fail_validate("b1"));
    assert_eq!(w.observe(d, "user", b"a", 2, ok_validate(2)), WatchOutcome::Unchanged);
    assert_eq!(
        w.observe(d, "user", b"b", 3, ok_validate(2)),
        WatchOutcome::CachedFailure {
            diagnostic: "b1".into()
        }
    );
    let _ = w.observe(d, "user", b"c", 4, fail_validate("c1"));
    assert_eq!(
        w.observe(d, "user", b"c", 5, ok_validate(2)),
        WatchOutcome::BreakerOpen { retry_after: 9 }
    );
    assert_eq!(
        w.observe(d, "user", b"c", 14, ok_validate(2)),
        WatchOutcome::Published { generation: 2 }
    );
    assert_eq!(w.compile_attempts(d), 4);
}

#[test]
fn full_counters_still_open_the_breaker() {
    let mut b = PublishBreaker {
        config: PublishBreakerConfig {
            failure_threshold: u32::MAX,
            base_cooldown: 10,
            max_cooldown: 15,
        },
        state: BreakerState::HalfOpen,
        consecutive_failures: u32::MAX,
        last_cooldown: 10,
    };
    b.record_failure(100);
    assert_eq!(
        b.state,
        BreakerState::Open {
            until: 115,
            cooldown: 15
        }
    );
    assert_eq!(b.consecutive_failures, u32::MAX);
}

#[test]
fn content_hash_of_known_bytes() {
    assert_eq!(
        ConfigWatcher::content_hash(b"abc"),
        "ba7816bf8f01cfea414140de5dae2223b00361a396177a9cb410ff61f20015ad"
    );
}

#[test]
fn observe_fs_event_publishes_and_dedups() {
    let content: &[u8] = b"model_id = \"a\"";
    let mut w = ConfigWatcher::default();
    let now = 0;
    let r1 = observe_fs_event(
        &mut w,
        "user",
        ConfigDomain::Root,
        Some(content),
        now,
        ok_validate(1),
    );
    assert_eq!(r1, Some(WatchOutcome::Published { generation: 1 }));
    let r2 = observe_fs_event(
        &mut w,
        "user",
        ConfigDomain::Root,
        Some(content),
        now,
        ok_validate(2),
    );
    assert_eq!(r2, Some(WatchOutcome::Unchanged));
    assert_eq!(w.compile_attempts(ConfigDomain::Root), 1);
}

#[test]
fn observe_fs_event_missing_file_is_skipped() {
    let mut w = ConfigWatcher::default();
    let r = observe_fs_event(
        &mut w,
        "user",
        ConfigDomain::Root,
        None,
        0,
        ok_validate(1),
    );
    assert!(r.is_none(), "unreadable file must not reach the pipeline");
    assert_eq!(w.total_publishes(), 0);
}

#[test]
fn observe_fs_event_rejects_malformed_content() {
    let mut w = ConfigWatcher::default();
    let r = observe_fs_event(
        &mut w,
        "user",
        ConfigDomain::Root,
        Some(b"[[[broken"),
        0,
        toml_validate(1),
    );
    assert!(matches!(r, Some(WatchOutcome::Rejected { .. })));
    assert_eq!(w.total_publishes(), 0);
}

#[test]
fn only_watched_files_reach_the_watcher() {
    let mut files = WatchedFiles::new();
    files.register(
        "/c/config.toml".into(),
        FsWatchSource {
            source_id: "user".into(),
            path: "/c/config.toml".into(),
            domain: ConfigDomain::Root,
        },
    );
    let mut w = ConfigWatcher::default();
    let content: &[u8] = b"a = 1";
    let other = pump_event(
        &mut w,
        &files,
        true,
        "/d/config.toml",
        "/d/config.toml".into(),
        Some(content),
        0,
        toml_validate(1),
    );
    assert!(other.is_none());
    let p = pump_event(
        &mut w,
        &files,
        true,
        "/c/config.toml",
        "/c/config.toml".into(),
        Some(content),
        0,
        toml_validate(1),
    )
    .unwrap();
    assert!(p.is_adopted());
    assert_eq!(
        p.line().as_deref(),
        Some("[config] user hot-reload: published generation 1")
    );
}

#[test]
fn bumps_touch_the_whole_and_their_domain() {
    let mut g = ConfigGeneration::initial();
    g.bump_ui();
    assert_eq!((g.root, g.ui, g.policy), (2, 2, 1));
    g.bump_policy();
    assert_eq!((g.root, g.ui, g.policy), (3, 2, 2));
    g.bump_all();
    assert_eq!((g.root, g.ui, g.policy, g.memory), (4, 3, 3, 2));
}

#[test]
fn risky_keys_are_listed_in_order() {
    let v = toml(
        r#"
skills = true
[hooks]
post = "x"
[network]
proxy = "p"
domains = []
[paths]
data = "/var/data"
cache = "cache"
[mcp]
servers = []
"#,
    );
    assert_eq!(
        high_risk_keys(&v),
        vec![
            "hooks.post",
            "mcp.servers",
            "network.domains",
            "network.proxy",
            "paths.data",
            "skills"
        ]
    );
    assert!(high_risk_keys(&toml("provider = \"a\"")).is_empty());
}

#[test]
fn contents_are_validated_as_bytes() {
    let mut next = 5;
    assert_eq!(validate_config("a = \"é\"".as_bytes(), &mut next), Ok(5));
    assert_eq!(next, 6);
    assert_eq!(
        validate_config(b"a = \"\xff\"", &mut next),
        Err("invalid utf-8 sequence of 1 bytes from index 5".to_string())
    );
    assert!(validate_config(b"[[[", &mut next).is_err());
    assert_eq!(next, 6);
}

#[test]
fn paths_are_compared_by_components() {
    assert_eq!(plain_path("/a//b/./c/"), "/a/b/c");
    assert_eq!(plain_path("./a/."), "./a");
    assert_eq!(plain_path("a/../b"), "a/../b");
    assert_eq!(plain_path("/./"), "/");
    assert_eq!(plain_path(""), "");
    for (a, b) in [
        ("/a//b/./c/", "/a/b/c"),
        ("/a/b/", "/a/b"),
        ("./a", "a"),
        ("/a", "a"),
        ("a/../b", "b"),
        (".", "./"),
    ] {
        assert_eq!(
            plain_path(a) == plain_path(b),
            std::path::Path::new(a) == std::path::Path::new(b),
            "{a} {b}"
        );
    }
}

#[test]
fn the_nearest_place_is_taken() {
    let place = |path: &str, found: bool| Place {
        path: path.into(),
        found,
    };
    let places = vec![
        place("/a/b/c", false),
        place("/a/b", true),
        place("/a", true),
        place("/", false),
    ];
    assert_eq!(nearest(&places).as_deref(), Some("/a/b"));
    assert!(nearest(&vec![place("/", false)]).is_none());
}
