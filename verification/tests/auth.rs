use std::collections::HashMap;

use grodex::auth::lease::{
    ActiveLease, CredentialBroker, CredentialError, HydrateStep, LeaseError, LEASE_TTL,
};
use grodex::auth::oauth::{
    parse_github_form_response, secret_mode_for_provider, ClientSecretMode, DiscoveryStep,
    McpoAuthBroker, McpoAuthError, OAuthClientConfig, OIDCMetadata, ProviderKind, TokenReply,
    TokenResponse,
};
use grodex::auth::redirect::{redirect_params, server_to_authorize, ConfiguredServer};
use grodex::auth::resilience::{
    AuthBreakerState, AuthCircuitBreaker, AuthErrorKind, FlightRole, RefreshPolicy,
    SingleFlightRefresher,
};
use grodex::auth::secret_store::{
    keychain_error, keychain_secret, list_ids, FileSecretStore, InMemorySecretStore,
    MacKeychainSecretStore, SecretFile, SecretStore, SecretStoreError,
};
use grodex::auth::store::{AuthManager, CredentialStore};
use grodex::auth::types::{AccountDescriptor, AccountStatus, AuthMethod};
use grodex::auth::urlcode::{
    base64_encode_url_safe, form_value, pkce_challenge_s256, random_token, token_from_bytes,
    urldecode, urlencode,
};

const PID: u32 = 4242;

// ── leases ──────────────────────────────────────────────────────────

#[test]
fn issued_lease_carries_no_token() {
    let mut broker = CredentialBroker::new("sk-master-secret".into());
    let lease = broker
        .issue_lease("default", "https://api.openai.com/v1", PID, 0)
        .unwrap();
    assert!(!format!("{lease:?}").contains("sk-master-secret"));
}

#[test]
fn resolve_consumes_single_use_and_rejects_replay() {
    let mut broker = CredentialBroker::new("sk-master-secret".into());
    let audience = "https://api.openai.com/v1";
    let lease = broker.issue_lease("default", audience, PID, 0).unwrap();
    let t1 = broker.resolve(&lease, audience, 0).expect("first resolve");
    assert_eq!(t1, "sk-master-secret");
    let err = broker.resolve(&lease, audience, 0).unwrap_err();
    assert_eq!(err, LeaseError::Exhausted, "replay must be rejected");
}

#[test]
fn resolve_rejects_wrong_audience() {
    let mut broker = CredentialBroker::new("sk-master-secret".into());
    let lease = broker
        .issue_lease("default", "https://api.openai.com/v1", PID, 0)
        .unwrap();
    let err = broker
        .resolve(&lease, "https://evil.example.com/v1", 0)
        .unwrap_err();
    assert_eq!(err, LeaseError::EndpointMismatch);
}

#[test]
fn revoke_all_invalidates_outstanding_leases() {
    let mut broker = CredentialBroker::new("sk-master-secret".into());
    let audience = "https://api.openai.com/v1";
    let lease = broker.issue_lease("default", audience, PID, 0).unwrap();
    broker.revoke_all();
    let err = broker.resolve(&lease, audience, 0).unwrap_err();
    assert_eq!(err, LeaseError::Revoked);
}

#[test]
fn unknown_provider_fail_closed() {
    let mut broker = CredentialBroker::new("sk-master-secret".into());
    assert!(broker
        .issue_lease("not-registered", "https://x", PID, 0)
        .is_none());
}

#[test]
fn persist_then_hydrate_roundtrip_survives_restart() {
    let mut store = InMemorySecretStore::new();
    let mut first = CredentialBroker::with_secret_store();
    first.register_provider("openai", "sk-durable".to_string());
    let (key, token) = first.persist_provider("openai").unwrap();
    store.store(&key, &token).unwrap();

    let mut second = CredentialBroker::with_secret_store();
    let asked = match second.hydrate_step("openai") {
        HydrateStep::Ask(k) => k,
        other => panic!("expected a question, got {other:?}"),
    };
    assert!(second.hydrate_provider("openai", store.retrieve(&asked).unwrap()));
    assert_eq!(
        second.resolve_token_for_provider("openai").as_deref(),
        Some("sk-durable")
    );
}

#[test]
fn persist_hydrate_noop_without_secret_store() {
    let mut broker = CredentialBroker::empty();
    broker.register_provider("openai", "sk-ephemeral".to_string());
    assert!(broker.persist_provider("openai").is_none());
    assert!(!broker.hydrate_provider("other", None));
    assert!(!broker.has_secret_store());
}

#[test]
fn leases_end_after_their_time() {
    let mut broker = CredentialBroker::new("t".into());
    let lease = broker.issue_lease("default", "https://x", PID, 100).unwrap();
    assert_eq!(
        broker.resolve(&lease, "https://x", 100 + LEASE_TTL),
        Err(LeaseError::Expired)
    );
    // It is forgotten now.
    assert_eq!(
        broker.resolve(&lease, "https://x", 100),
        Err(LeaseError::Unknown)
    );
    let other = broker.issue_lease("default", "https://x", PID, 100).unwrap();
    assert_eq!(
        broker.resolve(&other, "https://x", 99 + LEASE_TTL),
        Ok("t".to_string())
    );
}

#[test]
fn leases_name_provider_process_and_uuid() {
    let mut broker = CredentialBroker::new("t".into());
    let lease = broker
        .issue_lease_with("default", "https://x", 7, PID, 1_000, 0)
        .unwrap();
    assert_eq!(
        lease.lease_id,
        "lease-default-00000000-0000-0000-0000-000000000007"
    );
    assert_eq!(lease.handle_id, "handle-default");
    assert_eq!(lease.issued_to_process_identity, "4242");
    assert_eq!(lease.max_uses, 1);
    assert_eq!(lease.expires_at, 300_001_000);
    assert_eq!(lease.revocation_epoch, 1);
    assert_eq!(broker.outstanding_lease_count(), 1);
}

#[test]
fn tokens_are_those_of_registered_providers() {
    let broker = CredentialBroker::new("t".into());
    assert!(broker.resolve_token_for_provider("x").is_none());
    assert_eq!(
        broker.resolve_token_for_provider("default").as_deref(),
        Some("t")
    );
    assert_eq!(broker.resolve_token_for_provider("").as_deref(), Some("t"));
    assert!(CredentialBroker::empty()
        .resolve_token_for_provider("x")
        .is_none());
}

#[test]
fn hydration_needs_a_usable_secret() {
    let mut broker = CredentialBroker::with_secret_store();
    assert!(!broker.hydrate_provider("openai", Some(String::new())));
    assert!(!broker.hydrate_provider("openai", None));
    assert!(broker.hydrate_provider("openai", Some("k".into())));
    assert!(matches!(broker.hydrate_step("openai"), HydrateStep::Ready));
    assert!(matches!(
        CredentialBroker::empty().hydrate_step("openai"),
        HydrateStep::NoStore
    ));
}

#[test]
fn lease_messages() {
    assert_eq!(LeaseError::Unknown.message(), "unknown lease");
    assert_eq!(LeaseError::Expired.message(), "lease expired");
    assert_eq!(LeaseError::Exhausted.message(), "lease uses exhausted");
    assert_eq!(LeaseError::EndpointMismatch.message(), "lease endpoint mismatch");
    assert_eq!(LeaseError::Revoked.message(), "lease revoked (epoch advanced)");
    assert_eq!(
        CredentialError::SecretStore("x".into()).message(),
        "credential secret store error: x"
    );
}

// ── accounts ────────────────────────────────────────────────────────

fn account(id: &str, provider: &str) -> AccountDescriptor {
    AccountDescriptor {
        account_id: id.into(),
        provider_id: provider.into(),
        principal_display: "test".into(),
        auth_method: AuthMethod::ApiKey,
        tenant_id: None,
        scopes: vec![],
        audiences: vec![],
        status: AccountStatus::Active,
        metadata_generation: 1,
    }
}

#[test]
fn auto_discovers_env_keys() {
    let mut store = CredentialStore::new();
    store.discover_from_iter(
        vec![("GRODEX_TEST_OPENAI_API_KEY".into(), "sk-test123".into())],
        "GRODEX_TEST",
    );
    assert!(store.find_by_provider("grodex_test_openai").is_some());
}

#[test]
fn no_credentials_for_unknown_provider() {
    let mgr = AuthManager::new(vec![("PATH".into(), "/bin".into())]);
    assert!(!mgr.has_credentials("unknown_provider_xyz"));
    assert!(mgr
        .resolve_for_provider("unknown_provider_xyz", None)
        .is_none());
}

#[test]
fn register_and_resolve() {
    let mut store = CredentialStore::new();
    store.register(account("test", "openai"));
    assert!(store.get("test").is_some());
}

#[test]
fn find_by_provider() {
    let mut store = CredentialStore::new();
    store.register(account("acc1", "anthropic"));
    let found = store.find_by_provider("anthropic");
    assert!(found.is_some());
    assert!(store.find_by_provider("nonexistent").is_none());
}

#[test]
fn discovered_keys_are_kept_for_every_prefix() {
    let mut store = CredentialStore::new();
    store.discover_from_iter(
        vec![
            ("OPENAI_API_KEY".into(), "sk-1".into()),
            ("X_OTHER_API_KEY".into(), "sk-2".into()),
            ("HOME".into(), "/root".into()),
        ],
        "X_",
    );
    // Only variables with the prefix become accounts.
    assert!(store.find_by_provider("openai").is_none());
    let other = store.find_by_provider("x_other").unwrap();
    assert_eq!(other.account_id, "env:x_other");
    assert_eq!(
        other.principal_display,
        "environment variable X_OTHER_API_KEY"
    );
    assert_eq!(store.resolve_key("env:x_other", None).as_deref(), Some("sk-2"));
    assert!(store.resolve_key("nobody", None).is_none());
    assert_eq!(store.list().len(), 1);
}

#[test]
fn managers_list_their_providers() {
    let mut mgr = AuthManager::with_prefix(vec![("A_API_KEY".into(), "k".into())], "");
    mgr.register_account(account("acc", "b"));
    assert!(mgr.has_credentials("a"));
    assert_eq!(
        mgr.resolve_for_provider("a", Some("k".into())).as_deref(),
        Some("k")
    );
    assert_eq!(
        mgr.resolve_for_provider("a", Some("rotated".into())).as_deref(),
        Some("rotated")
    );
    // The variable was removed.
    assert!(mgr.resolve_for_provider("a", None).is_none());
    assert!(mgr.resolve_for_provider("c", Some("k".into())).is_none());
    assert!(!mgr.has_credentials("c"));
    assert_eq!(mgr.env_key_for_provider("a").as_deref(), Some("A_API_KEY"));
    assert_eq!(mgr.configured_providers(), vec!["a", "b"]);
    mgr.register_account(account("acc", "c"));
    assert_eq!(mgr.configured_providers(), vec!["a", "c"]);
    assert!(mgr.has_credentials("c"));
    assert!(!mgr.has_credentials("b"));
}

// ── OAuth ───────────────────────────────────────────────────────────

fn sample_cfg() -> OAuthClientConfig {
    OAuthClientConfig {
        client_id: "mcp-client-abc".into(),
        auth_endpoint: "https://auth.example.com/authorize".into(),
        token_endpoint: "https://auth.example.com/oauth/token".into(),
        scopes: vec!["openid".into(), "profile".into()],
        redirect_uri: "http://localhost:8080/callback".into(),
        audience: Some("https://mcp.example.com".into()),
        provider_kind: ProviderKind::Standard,
        client_secret: None,
    }
}

#[test]
fn new_broker_is_empty() {
    let b = McpoAuthBroker::new();
    assert_eq!(b.registered_server_ids().len(), 0);
    assert_eq!(b.in_flight_count(), 0);
}

#[test]
fn register_server_rejects_empty_client_id() {
    let mut b = McpoAuthBroker::new();
    let mut bad = sample_cfg();
    bad.client_id = "".into();
    let err = b.register_server("svc-1".into(), bad).unwrap_err();
    assert!(matches!(err, McpoAuthError::Protocol(_)));
}

#[test]
fn register_server_rejects_missing_endpoints() {
    let mut b = McpoAuthBroker::new();
    let mut bad = sample_cfg();
    bad.auth_endpoint = "".into();
    let err = b.register_server("svc-1".into(), bad).unwrap_err();
    assert!(matches!(err, McpoAuthError::Protocol(_)));
}

#[test]
fn register_server_ok_and_listed() {
    let mut b = McpoAuthBroker::new();
    b.register_server("svc-1".into(), sample_cfg()).unwrap();
    let ids = b.registered_server_ids();
    assert_eq!(ids.len(), 1);
    assert_eq!(ids[0], "svc-1");
}

#[test]
fn start_authorization_flow_missing_server() {
    let mut b = McpoAuthBroker::new();
    let err = b
        .start_authorization_flow("nope", &vec![], 0)
        .unwrap_err();
    assert!(matches!(err, McpoAuthError::MissingServerConfig(_)));
}

#[test]
fn start_authorization_flow_generates_url_and_state() {
    let mut b = McpoAuthBroker::new();
    b.register_server("svc-1".into(), sample_cfg()).unwrap();
    let url = b.start_authorization_flow("svc-1", &vec![], 0).unwrap();
    assert!(url.starts_with("https://auth.example.com/authorize"));
    assert!(url.contains("response_type=code"));
    assert!(url.contains("client_id=mcp-client-abc"));
    assert!(url.contains("state="));
    assert!(url.contains("nonce="));
    assert!(url.contains("code_challenge="));
    assert!(url.contains("code_challenge_method=S256"));
    assert!(url.contains("audience="));
    assert_eq!(b.in_flight_count(), 1);
}

#[test]
fn random_token_returns_correct_length() {
    for len in [8usize, 16, 32, 64] {
        let t = random_token(len);
        assert_eq!(t.len(), len);
    }
}

#[test]
fn urlencode_encodes_special_chars() {
    assert_eq!(urlencode("a b"), "a%20b");
    assert_eq!(
        urlencode("redirect://here?x=1&y=2"),
        "redirect%3A%2F%2Fhere%3Fx%3D1%26y%3D2"
    );
    assert_eq!(urlencode("safe-AZ_az.~"), "safe-AZ_az.~");
}

#[test]
fn pkce_challenge_is_deterministic() {
    let v = "dBjftJeZ4CVP-mB92K27uhbUJU1p1r_wW1gFWFOEjXk";
    let c = pkce_challenge_s256(v);
    assert!(!c.contains('+'));
    assert!(!c.contains('/'));
    assert!(!c.ends_with('='));
}

#[test]
fn pkce_challenge_of_a_known_verifier() {
    // The worked example of RFC 7636, appendix B.
    assert_eq!(
        pkce_challenge_s256("dBjftJeZ4CVP-mB92K27uhbUJU1p1r_wW1gFWFOEjXk"),
        "E9Melhoa2OwvFrEMTJguCHaoeK1t8URWbuGJSstw-cM"
    );
}

#[test]
fn test_start_authorization_pkce_fields_nonempty() {
    let mut b = McpoAuthBroker::new();
    b.register_server("svc-1".into(), sample_cfg()).unwrap();
    let url = b.start_authorization_flow("svc-1", &vec![], 0).unwrap();
    assert!(url.contains("response_type=code"));
    assert!(url.contains("code_challenge="));
    assert!(url.contains("code_challenge_method=S256"));
    assert!(url.contains("state="));
    assert!(url.contains("nonce="));
    let has_nonempty_challenge = url.split('&').any(|kv| {
        let mut it = kv.splitn(2, '=');
        let k = it.next().unwrap_or("");
        let v = it.next().unwrap_or("");
        k == "code_challenge" && !v.is_empty()
    });
    assert!(has_nonempty_challenge, "code_challenge must be non-empty");
    let has_nonempty_state = url.split('&').any(|kv| {
        let mut it = kv.splitn(2, '=');
        let k = it.next().unwrap_or("");
        let v = it.next().unwrap_or("");
        k == "state" && !v.is_empty()
    });
    assert!(has_nonempty_state, "state must be non-empty");
}

#[test]
fn test_state_uniqueness_100k() {
    let n = 100_000;
    let mut seen: HashMap<String, ()> = HashMap::with_capacity(n);
    for _ in 0..n {
        let s = random_token(32);
        assert!(seen.insert(s, ()).is_none(), "duplicate state generated");
    }
    assert_eq!(seen.len(), n);
}

#[test]
fn test_exchange_code_validates_state_first() {
    let mut b = McpoAuthBroker::new();
    b.register_server("svc-1".into(), sample_cfg()).unwrap();
    let err = b
        .exchange_code_for_token("fake-code", "ghost-state", 0)
        .unwrap_err();
    assert!(matches!(err, McpoAuthError::StateMismatch { .. }));
}

#[test]
fn exchange_code_state_mismatch() {
    let mut b = McpoAuthBroker::new();
    b.register_server("svc-1".into(), sample_cfg()).unwrap();
    let err = b
        .exchange_code_for_token("abc123", "ghost-state", 0)
        .unwrap_err();
    assert!(matches!(err, McpoAuthError::StateMismatch { .. }));
}

#[test]
fn provider_kind_display_and_default() {
    assert_eq!(ProviderKind::default(), ProviderKind::Standard);
    assert_eq!(ProviderKind::Standard.to_string(), "standard");
    assert_eq!(ProviderKind::Github.to_string(), "github");
    assert_eq!(ProviderKind::Slack.to_string(), "slack");
    assert_eq!(ProviderKind::Linear.to_string(), "linear");
    assert_eq!(ProviderKind::Custom("foo".into()).to_string(), "custom(foo)");
}

#[test]
fn parse_github_form_access_token_only() {
    let body = "access_token=gho_abc123&scope=repo%2Cuser&token_type=bearer";
    let r = parse_github_form_response(body).unwrap();
    assert_eq!(r.access_token, "gho_abc123");
    assert_eq!(r.token_type, "bearer");
    assert_eq!(r.scope.as_deref(), Some("repo,user"));
    assert!(r.refresh_token.is_none());
}

fn token(refresh: Option<&str>) -> TokenReply {
    TokenReply::Body {
        decoded: Ok(TokenResponse {
            access_token: "at-1".into(),
            token_type: "bearer".into(),
            expires_in: Some(60),
            refresh_token: refresh.map(|s| s.to_string()),
            scope: None,
        }),
        body: Vec::new(),
    }
}

#[test]
fn a_flow_from_start_to_refresh() {
    let mut b = McpoAuthBroker::new();
    b.register_server("svc-1".into(), sample_cfg()).unwrap();
    let url = b
        .start_flow_with(
            "svc-1",
            &vec!["mail".to_string(), "x y".to_string()],
            "st".into(),
            "no".into(),
            "dBjftJeZ4CVP-mB92K27uhbUJU1p1r_wW1gFWFOEjXk".into(),
            5,
        )
        .unwrap();
    assert_eq!(
        url,
        "https://auth.example.com/authorize?response_type=code&client_id=mcp-client-abc\
         &redirect_uri=http%3A%2F%2Flocalhost%3A8080%2Fcallback&state=st&scope=mail%20x%20y\
         &nonce=no&audience=https%3A%2F%2Fmcp.example.com\
         &code_challenge=E9Melhoa2OwvFrEMTJguCHaoeK1t8URWbuGJSstw-cM&code_challenge_method=S256"
    );
    let request = b.exchange_code_for_token("the-code", "st", 6).unwrap();
    assert_eq!(request.url, "https://auth.example.com/oauth/token");
    assert!(request
        .form
        .contains(&("code".to_string(), "the-code".to_string())));
    assert!(request.form.contains(&(
        "code_verifier".to_string(),
        "dBjftJeZ4CVP-mB92K27uhbUJU1p1r_wW1gFWFOEjXk".to_string()
    )));
    // A state is good once.
    assert!(matches!(
        b.exchange_code_for_token("the-code", "st", 6),
        Err(McpoAuthError::StateMismatch { .. })
    ));

    let mut broker = CredentialBroker::empty();
    let lease =
        McpoAuthBroker::finish_exchange(&request, token(Some("rt-1")), &mut broker, PID, 7).unwrap();
    assert_eq!(
        broker.resolve(&lease, "https://auth.example.com/oauth/token", 7),
        Ok("at-1".to_string())
    );
    let again = b.refresh_credential(&lease.lease_id, &broker).unwrap();
    assert!(again
        .form
        .contains(&("refresh_token".to_string(), "rt-1".to_string())));
    let next = McpoAuthBroker::finish_refresh(
        &lease.lease_id,
        &again,
        token(None),
        &mut broker,
        PID,
        8,
    )
    .unwrap();
    assert_ne!(next.lease_id, lease.lease_id);
    assert!(b.refresh_credential(&lease.lease_id, &broker).is_err());
}

#[test]
fn flows_expire() {
    let mut b = McpoAuthBroker::with_timeout(10);
    b.register_server("svc-1".into(), sample_cfg()).unwrap();
    b.start_flow_with("svc-1", &vec![], "st".into(), "n".into(), "v".into(), 0)
        .unwrap();
    assert!(matches!(
        b.exchange_code_for_token("c", "st", 11),
        Err(McpoAuthError::StateExpired(_))
    ));
}

#[test]
fn token_replies_that_fail() {
    let mut b = McpoAuthBroker::new();
    b.register_server("svc-1".into(), sample_cfg()).unwrap();
    b.start_flow_with("svc-1", &vec![], "st".into(), "n".into(), "v".into(), 0)
        .unwrap();
    let request = b.exchange_code_for_token("c", "st", 0).unwrap();
    let mut broker = CredentialBroker::empty();
    let replies = vec![
        TokenReply::NoClient("x".into()),
        TokenReply::NotSent("x".into()),
        TokenReply::Refused {
            status: "400 Bad Request".into(),
            body: Some("no".into()),
        },
        TokenReply::Unreadable("x".into()),
        TokenReply::Body {
            decoded: Err("not JSON".into()),
            body: b"junk\xff".to_vec(),
        },
    ];
    for reply in replies {
        let err =
            McpoAuthBroker::finish_exchange(&request, reply, &mut broker, PID, 0).unwrap_err();
        assert!(!err.message().is_empty());
        assert_eq!(broker.outstanding_lease_count(), 0);
    }
}

#[test]
fn discovery_asks_standard_providers() {
    let mut b = McpoAuthBroker::new();
    b.register_server("svc-1".into(), sample_cfg()).unwrap();
    let mut github = sample_cfg();
    github.provider_kind = ProviderKind::Github;
    b.register_server("svc-2".into(), github).unwrap();
    let mut broken = sample_cfg();
    broken.token_endpoint = "no url".into();
    b.register_server("svc-3".into(), broken).unwrap();

    match b.discover_metadata_if_openid("svc-1").unwrap() {
        DiscoveryStep::Fetch(url) => assert_eq!(
            url,
            "https://auth.example.com/oauth/.well-known/openid-configuration"
        ),
        other => panic!("expected a URL, got {other:?}"),
    }
    assert!(matches!(
        b.discover_metadata_if_openid("svc-2"),
        Ok(DiscoveryStep::NotAsked)
    ));
    assert!(matches!(
        b.discover_metadata_if_openid("svc-3"),
        Err(McpoAuthError::Protocol(_))
    ));
    assert!(matches!(
        b.discover_metadata_if_openid("nobody"),
        Err(McpoAuthError::MissingServerConfig(_))
    ));
    b.record_metadata(
        "svc-1",
        OIDCMetadata {
            issuer: "https://auth.example.com".into(),
            authorization_endpoint: None,
            token_endpoint: None,
            scopes_supported: None,
            response_types_supported: None,
            code_challenge_methods_supported: None,
        },
    );
    assert!(matches!(
        b.discover_metadata_if_openid("svc-1"),
        Ok(DiscoveryStep::Known)
    ));
    assert_eq!(
        b.cached_metadata("svc-1").unwrap().issuer,
        "https://auth.example.com"
    );
}

#[test]
fn secrets_are_sent_as_the_provider_wants() {
    assert_eq!(
        secret_mode_for_provider(&ProviderKind::Github),
        ClientSecretMode::RequiredInBody
    );
    assert_eq!(
        secret_mode_for_provider(&ProviderKind::Standard),
        ClientSecretMode::NonePKCEOnly
    );
}

#[test]
fn decoding_undoes_encoding() {
    for s in ["", "a b&c=d%", "héllo/wörld", "日本語?x=1"] {
        assert_eq!(urldecode(&urlencode(s)), s);
    }
    assert_eq!(urldecode("a+b%2"), "a b%2");
    assert_eq!(urldecode("%zz%41"), "%zzA");
}

#[test]
fn base64_of_known_bytes() {
    assert_eq!(base64_encode_url_safe(b""), "");
    assert_eq!(base64_encode_url_safe(b"f"), "Zg");
    assert_eq!(base64_encode_url_safe(b"fo"), "Zm8");
    assert_eq!(base64_encode_url_safe(b"foobar"), "Zm9vYmFy");
    assert_eq!(base64_encode_url_safe(&[0xfb, 0xff]), "-_8");
    assert_eq!(token_from_bytes(&[0, 25, 63, 64]), "AZ_A");
}

#[test]
fn form_values_take_the_last() {
    assert_eq!(form_value("a=1&b=2&a=3", "a").as_deref(), Some("3"));
    assert_eq!(form_value("a", "a").as_deref(), Some(""));
    assert!(form_value("a=1", "b").is_none());
}

#[test]
fn redirects_are_read() {
    assert_eq!(
        redirect_params(" http://localhost/cb?code=a%20b&state=s+1 \n"),
        Ok(("a b".to_string(), "s 1".to_string()))
    );
    assert_eq!(
        redirect_params("code=x&state=y"),
        Ok(("x".to_string(), "y".to_string()))
    );
    assert_eq!(
        redirect_params("http://localhost/cb?state=y"),
        Err("重定向 URL 中未找到 code 参数".to_string())
    );
    assert_eq!(
        redirect_params("http://localhost/cb?code=y"),
        Err("重定向 URL 中未找到 state 参数".to_string())
    );
}

#[test]
fn servers_to_authorize_are_found() {
    let servers = vec![
        ConfiguredServer {
            name: "plain".into(),
            requires_oauth: false,
        },
        ConfiguredServer {
            name: "svc".into(),
            requires_oauth: true,
        },
    ];
    assert_eq!(server_to_authorize(&servers, "svc"), Ok(1));
    assert_eq!(
        server_to_authorize(&servers, "plain"),
        Err("server 'plain' 没有配置 oauth 块，无需授权".to_string())
    );
    assert_eq!(
        server_to_authorize(&servers, "x"),
        Err("config 中未找到 MCP server 'x'".to_string())
    );
}

// ── resilience ──────────────────────────────────────────────────────

#[test]
fn taxonomy_http_status_mapping() {
    assert_eq!(AuthErrorKind::from_http_status(401), AuthErrorKind::Unauthorized);
    assert_eq!(AuthErrorKind::from_http_status(403), AuthErrorKind::PolicyDenied);
    assert_eq!(AuthErrorKind::from_http_status(429), AuthErrorKind::Transient);
    assert_eq!(AuthErrorKind::from_http_status(503), AuthErrorKind::Transient);
    assert_eq!(AuthErrorKind::from_http_status(418), AuthErrorKind::PolicyDenied);
}

#[test]
fn policy_rules_doc20_section9() {
    assert_eq!(
        RefreshPolicy::for_error(AuthErrorKind::PolicyDenied),
        RefreshPolicy::FailWithoutRefresh
    );
    assert_eq!(
        RefreshPolicy::for_error(AuthErrorKind::Unauthorized),
        RefreshPolicy::Refresh
    );
    assert_eq!(
        RefreshPolicy::for_error(AuthErrorKind::RefreshRevoked),
        RefreshPolicy::ReauthRequired
    );
    assert_eq!(
        RefreshPolicy::for_error(AuthErrorKind::Transient),
        RefreshPolicy::BackoffKeepToken
    );
    assert!(!AuthErrorKind::PolicyDenied.refresh_eligible());
    assert!(AuthErrorKind::Unauthorized.refresh_eligible());
}

#[test]
fn breaker_permanent_failure_terminal_no_loop() {
    let mut br = AuthCircuitBreaker::new();
    assert!(br.allow_refresh("k", 0));
    br.record_failure("k", AuthErrorKind::RefreshRevoked, 0);
    assert_eq!(br.state("k"), AuthBreakerState::ReauthRequired);
    assert!(!br.allow_refresh("k", 0));
    assert!(!br.allow_refresh("k", 0));
    br.reset_after_reauth("k");
    assert!(br.allow_refresh("k", 0));
    assert_eq!(br.state("k"), AuthBreakerState::Healthy);
}

#[test]
fn breaker_transient_trip_and_halfopen_single_probe() {
    let mut br = AuthCircuitBreaker::with_params(2, 0);
    br.record_failure("k", AuthErrorKind::Transient, 0);
    assert!(br.allow_refresh("k", 0), "below threshold still healthy");
    br.record_failure("k", AuthErrorKind::Transient, 0);
    assert_eq!(br.state("k"), AuthBreakerState::Degraded);
    assert!(br.allow_refresh("k", 0));
    assert!(
        !br.allow_refresh("k", 0),
        "second concurrent probe must be denied"
    );
    br.record_success("k");
    assert_eq!(br.state("k"), AuthBreakerState::Healthy);
    assert!(br.allow_refresh("k", 0));
}

#[test]
fn breaker_failed_probe_returns_to_degraded() {
    let mut br = AuthCircuitBreaker::with_params(1, 0);
    br.record_failure("k", AuthErrorKind::Transient, 0);
    assert!(br.allow_refresh("k", 0));
    br.record_failure("k", AuthErrorKind::Transient, 0);
    assert_eq!(br.state("k"), AuthBreakerState::Degraded);
}

#[test]
fn terminal_states_survive_transient_failures() {
    let mut br = AuthCircuitBreaker::with_params(1, 0);
    br.record_failure("k", AuthErrorKind::RefreshRevoked, 0);
    br.record_failure("k", AuthErrorKind::Transient, 0);
    assert_eq!(br.state("k"), AuthBreakerState::ReauthRequired);
    br.revoke("j");
    assert_eq!(br.state("j"), AuthBreakerState::Revoked);
    br.record_failure("j", AuthErrorKind::PolicyDenied, 0);
    assert_eq!(br.state("j"), AuthBreakerState::Revoked);
    assert!(!br.allow_refresh("j", u64::MAX));
}

#[test]
fn policy_failures_are_no_events_for_the_breaker() {
    let mut br = AuthCircuitBreaker::with_params(1, 0);
    br.record_failure("k", AuthErrorKind::PolicyDenied, 0);
    assert_eq!(br.state("k"), AuthBreakerState::Healthy);
    br.mark_refreshing("k");
    assert_eq!(br.state("k"), AuthBreakerState::Refreshing);
}

#[test]
fn resting_accounts_wait_for_the_cooldown() {
    let mut br = AuthCircuitBreaker::with_params(1, 100);
    br.record_failure("k", AuthErrorKind::Transient, 10);
    assert!(!br.allow_refresh("k", 109));
    assert!(br.allow_refresh("k", 110));
}

#[test]
fn single_flight_100_concurrent_401s_one_refresh() {
    let mut sf = SingleFlightRefresher::new();
    let mut leaders = 0;
    for _ in 0..100 {
        if sf.refresh_or_join("openai") == FlightRole::Leader {
            leaders += 1;
        }
    }
    assert_eq!(leaders, 1, "refresh must run exactly once");
    sf.finish("openai");
    assert_eq!(sf.in_flight(), 0, "flight must be evicted after completion");
}

#[test]
fn single_flight_error_shared_and_later_storm_refreshes_again() {
    let mut sf = SingleFlightRefresher::new();
    assert_eq!(sf.refresh_or_join("k"), FlightRole::Leader);
    for _ in 0..4 {
        assert_eq!(sf.refresh_or_join("k"), FlightRole::Follower);
    }
    sf.finish("k");
    assert_eq!(sf.refresh_or_join("k"), FlightRole::Leader);
}

#[test]
fn single_flight_distinct_keys_run_independently() {
    let mut sf = SingleFlightRefresher::new();
    for key in ["a", "b", "c"] {
        assert_eq!(sf.refresh_or_join(key), FlightRole::Leader);
    }
    assert_eq!(sf.in_flight(), 3);
}

// ── secret stores ───────────────────────────────────────────────────

#[test]
fn in_memory_store_retrieve_delete_roundtrip() {
    let mut store = InMemorySecretStore::new();
    assert_eq!(store.retrieve("missing").unwrap(), None);
    store.store("openai", "sk-master-secret").unwrap();
    assert_eq!(
        store.retrieve("openai").unwrap(),
        Some("sk-master-secret".to_string())
    );
    store.store("openai", "sk-rotated").unwrap();
    assert_eq!(
        store.retrieve("openai").unwrap(),
        Some("sk-rotated".to_string())
    );
    store.delete("openai").unwrap();
    assert_eq!(store.retrieve("openai").unwrap(), None);
    let err = store.delete("openai").unwrap_err();
    assert_eq!(err, SecretStoreError::NotFound);
}

#[test]
fn in_memory_store_isolates_keys() {
    let mut store = InMemorySecretStore::new();
    store.store("a", "alpha").unwrap();
    store.store("b", "beta").unwrap();
    assert_eq!(store.retrieve("a").unwrap(), Some("alpha".to_string()));
    assert_eq!(store.retrieve("b").unwrap(), Some("beta".to_string()));
    store.delete("a").unwrap();
    assert_eq!(store.retrieve("a").unwrap(), None);
    assert_eq!(store.retrieve("b").unwrap(), Some("beta".to_string()));
}

#[test]
fn file_store_retrieve_delete_roundtrip() {
    let store = FileSecretStore::new("/tmp/credentials.json");
    let mut file = SecretFile::Missing;

    assert_eq!(store.retrieve(&file, "master:openai").unwrap(), None);

    file = SecretFile::Text(store.store(&file, "master:openai", "sk-secret-1").unwrap());
    assert_eq!(
        store.retrieve(&file, "master:openai").unwrap(),
        Some("sk-secret-1".to_string())
    );

    file = SecretFile::Text(store.store(&file, "master:openai", "sk-secret-2").unwrap());
    assert_eq!(
        store.retrieve(&file, "master:openai").unwrap(),
        Some("sk-secret-2".to_string())
    );

    file = SecretFile::Text(store.store(&file, "master:anthropic", "sk-ant").unwrap());
    file = SecretFile::Text(store.delete(&file, "master:openai").unwrap());
    assert_eq!(store.retrieve(&file, "master:openai").unwrap(), None);
    assert_eq!(
        store.retrieve(&file, "master:anthropic").unwrap(),
        Some("sk-ant".to_string())
    );

    let err = store.delete(&file, "master:openai").unwrap_err();
    assert_eq!(err, SecretStoreError::NotFound);
}

#[test]
fn file_store_survives_reopen() {
    let text = FileSecretStore::new("/tmp/credentials.json")
        .store(&SecretFile::Missing, "master:openai", "sk-durable")
        .unwrap();
    let reopened = FileSecretStore::new("/tmp/credentials.json");
    assert_eq!(
        reopened
            .retrieve(&SecretFile::Text(text), "master:openai")
            .unwrap(),
        Some("sk-durable".to_string())
    );
}

#[test]
fn file_store_reports_broken_files() {
    let store = FileSecretStore::new("/c.json");
    assert!(store
        .retrieve(&SecretFile::Text("[1]".into()), "k")
        .is_err());
    assert!(store
        .retrieve(&SecretFile::Failed("denied".into()), "k")
        .is_err());
    assert_eq!(store.path(), "/c.json");
    assert_eq!(
        store.store(&SecretFile::Missing, "k", "v\"1").unwrap(),
        "{\n  \"k\": \"v\\\"1\"\n}"
    );
}

#[test]
fn keychain_statuses() {
    assert_eq!(keychain_error(-25300, "x"), SecretStoreError::NotFound);
    assert_eq!(keychain_error(-25293, "x"), SecretStoreError::AccessDenied);
    assert_eq!(
        keychain_error(-25291, "x"),
        SecretStoreError::BackendUnavailable
    );
    assert_eq!(
        keychain_error(-5, "odd"),
        SecretStoreError::IoError("security-framework (code -5): odd".into())
    );
    assert_eq!(keychain_secret(Err(keychain_error(-25300, "x"))), Ok(None));
    assert_eq!(keychain_secret(Ok("s".into())), Ok(Some("s".to_string())));
    assert_eq!(MacKeychainSecretStore::new("svc").service(), "svc");
    assert_eq!(list_ids("svc").unwrap().len(), 0);
}

#[test]
fn leases_count_their_uses() {
    let mut broker = CredentialBroker::new("t".into());
    let lease = broker.issue_lease("default", "https://x", PID, 100).unwrap();
    let mut active = ActiveLease {
        lease,
        issued_at: 100,
        ttl: 10,
        use_count: 0,
    };
    assert_eq!(active.remaining_uses(), 1);
    assert!(active.is_valid(109));
    assert!(!active.is_valid(110));
    active.use_count = 1;
    assert_eq!(active.remaining_uses(), 0);
    assert!(!active.is_valid(100));
}

#[test]
fn keys_are_looked_for_where_they_were_found() {
    let mgr = AuthManager::new(vec![("foo_API_KEY".into(), "k".into())]);
    assert!(mgr.has_credentials("foo"));
    assert_eq!(
        mgr.env_key_for_provider("foo").as_deref(),
        Some("foo_API_KEY")
    );
    assert_eq!(
        mgr.resolve_for_provider("foo", Some("k".into())).as_deref(),
        Some("k")
    );
}

#[test]
fn keys_are_looked_for_under_the_name_of_the_provider() {
    let mut store = CredentialStore::new();
    assert!(store.env_key_name("a").is_none());
    store.register(AccountDescriptor {
        account_id: "a".into(),
        provider_id: "openai".into(),
        principal_display: "A".into(),
        auth_method: AuthMethod::ApiKey,
        tenant_id: None,
        scopes: vec![],
        audiences: vec![],
        status: AccountStatus::Active,
        metadata_generation: 0,
    });
    assert_eq!(store.env_key_name("a").as_deref(), Some("OPENAI_API_KEY"));
    assert_eq!(
        store.resolve_key("a", Some("k".into())).as_deref(),
        Some("k")
    );
}
