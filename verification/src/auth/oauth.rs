//! The authorization code flow with PKCE, for MCP servers.
//!
//! The requests themselves are made by the caller: a flow gives the URL to
//! open, the request to send, and takes the reply. `now` and the time limit of
//! a flow are in nanoseconds on a monotonic clock.

use vstd::prelude::*;
use vstd::string::*;
use vstd::utf8::encode_utf8;

use crate::auth::lease::{
    after_issue, new_lease, redemption, BrokerView, CredentialBroker, CredentialError, LeaseError,
};
use crate::auth::types::CredentialLease;
use crate::auth::urlcode::{
    base64_is_url_safe, base64_of, challenge_of, encoded_values_read_back, form_value,
    form_value_of, is_token, pkce_challenge_s256, random_token, the_last_pair_decides, url_decoded,
    url_encoded, urlencode,
};
use crate::hash::sha256_of;
use crate::strmap::StrMap;
use crate::text::{
    add_sorted, clone_list, has_suffix, in_text_order, join, joined, opt_view, owned, utf8_lossy, utf8_lossy_of, views,
};

verus! {

/// The providers whose dialects of the flow are known.
#[derive(Debug, PartialEq, Eq)]
pub enum ProviderKind {
    Standard,
    Github,
    Slack,
    Linear,
    Custom(String),
}

/// The mathematical value of a [`ProviderKind`].
pub enum KindView {
    Standard,
    Github,
    Slack,
    Linear,
    Custom(Seq<char>),
}

impl View for ProviderKind {
    type V = KindView;

    open spec fn view(&self) -> KindView {
        match *self {
            ProviderKind::Standard => KindView::Standard,
            ProviderKind::Github => KindView::Github,
            ProviderKind::Slack => KindView::Slack,
            ProviderKind::Linear => KindView::Linear,
            ProviderKind::Custom(s) => KindView::Custom(s@),
        }
    }
}

/// The name of a kind of provider.
pub open spec fn kind_text(k: KindView) -> Seq<char> {
    match k {
        KindView::Standard => "standard"@,
        KindView::Github => "github"@,
        KindView::Slack => "slack"@,
        KindView::Linear => "linear"@,
        KindView::Custom(s) => "custom("@ + s + ")"@,
    }
}

impl ProviderKind {
    /// The name of the kind.
    pub fn to_string(&self) -> (r: String)
        ensures
            r@ == kind_text(self@),
    {
        match self {
            ProviderKind::Standard => owned("standard"),
            ProviderKind::Github => owned("github"),
            ProviderKind::Slack => owned("slack"),
            ProviderKind::Linear => owned("linear"),
            ProviderKind::Custom(s) => {
                let mut m = owned("custom(");
                m.append(s.as_str());
                m.append(")");
                m
            },
        }
    }
}

impl Default for ProviderKind {
    fn default() -> (r: Self)
        ensures
            r == ProviderKind::Standard,
    {
        ProviderKind::Standard
    }
}

impl Clone for ProviderKind {
    fn clone(&self) -> (r: Self)
        ensures
            r@ == self@,
    {
        match self {
            ProviderKind::Standard => ProviderKind::Standard,
            ProviderKind::Github => ProviderKind::Github,
            ProviderKind::Slack => ProviderKind::Slack,
            ProviderKind::Linear => ProviderKind::Linear,
            ProviderKind::Custom(s) => ProviderKind::Custom(s.clone()),
        }
    }
}

/// How a client is registered with a server.
#[derive(Debug)]
pub struct OAuthClientConfig {
    pub client_id: String,
    pub auth_endpoint: String,
    pub token_endpoint: String,
    pub scopes: Vec<String>,
    pub redirect_uri: String,
    pub audience: Option<String>,
    pub provider_kind: ProviderKind,
    pub client_secret: Option<String>,
}

/// The mathematical value of an [`OAuthClientConfig`].
pub struct ClientView {
    pub client_id: Seq<char>,
    pub auth_endpoint: Seq<char>,
    pub token_endpoint: Seq<char>,
    pub scopes: Seq<Seq<char>>,
    pub redirect_uri: Seq<char>,
    pub audience: Option<Seq<char>>,
    pub provider_kind: KindView,
    pub client_secret: Option<Seq<char>>,
}

impl View for OAuthClientConfig {
    type V = ClientView;

    open spec fn view(&self) -> ClientView {
        ClientView {
            client_id: self.client_id@,
            auth_endpoint: self.auth_endpoint@,
            token_endpoint: self.token_endpoint@,
            scopes: views(self.scopes@),
            redirect_uri: self.redirect_uri@,
            audience: opt_view(self.audience),
            provider_kind: self.provider_kind@,
            client_secret: opt_view(self.client_secret),
        }
    }
}

/// A flow that waits for its redirect.
#[derive(Debug)]
pub struct PendingAuthorization {
    pub server_id: String,
    pub state: String,
    pub nonce: String,
    pub created_at: u64,
    pub timeout: u64,
    pub scopes_requested: Vec<String>,
    pub code_verifier: Option<String>,
}

/// The mathematical value of a [`PendingAuthorization`].
pub struct FlowView {
    pub server_id: Seq<char>,
    pub state: Seq<char>,
    pub nonce: Seq<char>,
    pub created_at: u64,
    pub timeout: u64,
    pub scopes_requested: Seq<Seq<char>>,
    pub code_verifier: Option<Seq<char>>,
}

impl View for PendingAuthorization {
    type V = FlowView;

    open spec fn view(&self) -> FlowView {
        FlowView {
            server_id: self.server_id@,
            state: self.state@,
            nonce: self.nonce@,
            created_at: self.created_at,
            timeout: self.timeout,
            scopes_requested: views(self.scopes_requested@),
            code_verifier: opt_view(self.code_verifier),
        }
    }
}

/// What a token endpoint answers.
#[derive(Debug)]
pub struct TokenResponse {
    pub access_token: String,
    pub token_type: String,
    pub expires_in: Option<u64>,
    pub refresh_token: Option<String>,
    pub scope: Option<String>,
}

/// The mathematical value of a [`TokenResponse`].
pub struct TokenView {
    pub access_token: Seq<char>,
    pub token_type: Seq<char>,
    pub expires_in: Option<u64>,
    pub refresh_token: Option<Seq<char>>,
    pub scope: Option<Seq<char>>,
}

impl View for TokenResponse {
    type V = TokenView;

    open spec fn view(&self) -> TokenView {
        TokenView {
            access_token: self.access_token@,
            token_type: self.token_type@,
            expires_in: self.expires_in,
            refresh_token: opt_view(self.refresh_token),
            scope: opt_view(self.scope),
        }
    }
}

/// How a client shows its secret.
#[derive(Debug, Clone, Copy, PartialEq, Eq, Structural)]
pub enum ClientSecretMode {
    /// In the body.
    RequiredInBody,
    /// In the authorization header.
    BasicAuthOnly,
    /// Not at all.
    NonePKCEOnly,
}

/// How a client shows its secret to a kind of provider.
pub open spec fn secret_mode(k: KindView) -> ClientSecretMode {
    match k {
        KindView::Slack => ClientSecretMode::BasicAuthOnly,
        KindView::Github => ClientSecretMode::RequiredInBody,
        _ => ClientSecretMode::NonePKCEOnly,
    }
}

/// What an OpenID provider says of itself.
#[derive(Debug)]
pub struct OIDCMetadata {
    pub issuer: String,
    pub authorization_endpoint: Option<String>,
    pub token_endpoint: Option<String>,
    pub scopes_supported: Option<Vec<String>>,
    pub response_types_supported: Option<Vec<String>>,
    pub code_challenge_methods_supported: Option<Vec<String>>,
}

/// Why a flow failed.
#[derive(Debug)]
pub enum McpoAuthError {
    MissingServerConfig(String),
    StateMismatch { expected: String, received: String },
    StateExpired(String),
    Http(String),
    InvalidTokenResponse(String),
    Protocol(String),
    CredentialStore(CredentialError),
}

/// The mathematical value of an [`McpoAuthError`].
pub enum FlowError {
    MissingServerConfig(Seq<char>),
    StateMismatch(Seq<char>, Seq<char>),
    StateExpired(Seq<char>),
    Http(Seq<char>),
    InvalidTokenResponse(Seq<char>),
    Protocol(Seq<char>),
    CredentialStore(Seq<char>),
}

impl View for McpoAuthError {
    type V = FlowError;

    open spec fn view(&self) -> FlowError {
        match *self {
            McpoAuthError::MissingServerConfig(s) => FlowError::MissingServerConfig(s@),
            McpoAuthError::StateMismatch { expected, received } => FlowError::StateMismatch(
                expected@,
                received@,
            ),
            McpoAuthError::StateExpired(s) => FlowError::StateExpired(s@),
            McpoAuthError::Http(s) => FlowError::Http(s@),
            McpoAuthError::InvalidTokenResponse(s) => FlowError::InvalidTokenResponse(s@),
            McpoAuthError::Protocol(s) => FlowError::Protocol(s@),
            McpoAuthError::CredentialStore(e) => FlowError::CredentialStore(
                crate::auth::lease::credential_error_text(e),
            ),
        }
    }
}

/// The message of an error.
pub open spec fn flow_error_text(e: FlowError) -> Seq<char> {
    match e {
        FlowError::MissingServerConfig(s) => "missing OAuth client config for server id '"@ + s
            + "'"@,
        FlowError::StateMismatch(x, r) => "state token mismatch: expected '"@ + x
            + "', received '"@ + r + "'"@,
        FlowError::StateExpired(s) => "state token expired for server id '"@ + s + "'"@,
        FlowError::Http(s) => "OAuth HTTP request failed: "@ + s,
        FlowError::InvalidTokenResponse(s) => "token endpoint returned invalid response: "@ + s,
        FlowError::Protocol(s) => "OAuth protocol error: "@ + s,
        FlowError::CredentialStore(s) => s,
    }
}

fn three(a: &str, b: &str, c: &str) -> (r: String)
    ensures
        r@ == a@ + b@ + c@,
{
    let mut m = owned(a);
    m.append(b);
    m.append(c);
    m
}

fn two(a: &str, b: &str) -> (r: String)
    ensures
        r@ == a@ + b@,
{
    let mut m = owned(a);
    m.append(b);
    m
}

impl McpoAuthError {
    /// The message of the error.
    pub fn message(&self) -> (r: String)
        ensures
            r@ == flow_error_text(self@),
    {
        match self {
            McpoAuthError::MissingServerConfig(s) => three(
                "missing OAuth client config for server id '",
                s.as_str(),
                "'",
            ),
            McpoAuthError::StateMismatch { expected, received } => {
                let mut m = owned("state token mismatch: expected '");
                m.append(expected.as_str());
                m.append("', received '");
                m.append(received.as_str());
                m.append("'");
                m
            },
            McpoAuthError::StateExpired(s) => three(
                "state token expired for server id '",
                s.as_str(),
                "'",
            ),
            McpoAuthError::Http(s) => two("OAuth HTTP request failed: ", s.as_str()),
            McpoAuthError::InvalidTokenResponse(s) => two(
                "token endpoint returned invalid response: ",
                s.as_str(),
            ),
            McpoAuthError::Protocol(s) => two("OAuth protocol error: ", s.as_str()),
            McpoAuthError::CredentialStore(e) => e.message(),
        }
    }
}

/// The separator of scopes.
pub open spec fn scope_separator(k: KindView) -> Seq<char> {
    match k {
        KindView::Github => ","@,
        _ => " "@,
    }
}

/// The scopes that a flow asks for: those of the hint, or else those of the
/// client.
pub open spec fn scopes_for(c: ClientView, hint: Seq<Seq<char>>) -> Seq<Seq<char>> {
    if hint.len() == 0 {
        c.scopes
    } else {
        hint
    }
}

/// The audience parameter.
pub open spec fn audience_part(c: ClientView) -> Seq<char> {
    match (c.audience, c.provider_kind) {
        (Some(a), _) => "&audience="@ + url_encoded(a),
        (None, KindView::Linear) => "&audience=https%3A%2F%2Fapi.linear.dev"@,
        _ => Seq::empty(),
    }
}

/// The URL that the user opens.
pub open spec fn authorization_url(
    c: ClientView,
    scopes: Seq<Seq<char>>,
    state: Seq<char>,
    nonce: Seq<char>,
    verifier: Seq<char>,
) -> Seq<char> {
    c.auth_endpoint + "?response_type=code&client_id="@ + url_encoded(c.client_id)
        + "&redirect_uri="@ + url_encoded(c.redirect_uri) + "&state="@ + url_encoded(state)
        + "&scope="@ + url_encoded(joined(scopes, scope_separator(c.provider_kind))) + "&nonce="@
        + url_encoded(nonce) + audience_part(c) + "&code_challenge="@ + challenge_of(verifier)
        + "&code_challenge_method=S256"@
}

/// The views of a form.
pub open spec fn form_view(f: Seq<(String, String)>) -> Seq<(Seq<char>, Seq<char>)> {
    f.map_values(|p: (String, String)| (p.0@, p.1@))
}

/// The secret in the body, where it belongs there.
pub open spec fn secret_field(c: ClientView) -> Seq<(Seq<char>, Seq<char>)> {
    match (secret_mode(c.provider_kind), c.client_secret) {
        (ClientSecretMode::RequiredInBody, Some(s)) => seq![("client_secret"@, s)],
        _ => Seq::empty(),
    }
}

/// The secret in the header, where it belongs there.
pub open spec fn basic_auth_of(c: ClientView) -> Option<(Seq<char>, Seq<char>)> {
    match (secret_mode(c.provider_kind), c.client_secret) {
        (ClientSecretMode::BasicAuthOnly, Some(s)) => Some((c.client_id, s)),
        _ => None,
    }
}

/// The verifier in the body.
pub open spec fn verifier_field(v: Option<Seq<char>>) -> Seq<(Seq<char>, Seq<char>)> {
    match v {
        Some(s) => seq![("code_verifier"@, s)],
        None => Seq::empty(),
    }
}

/// The body that exchanges a code for a token.
pub open spec fn exchange_form(c: ClientView, f: FlowView, code: Seq<char>) -> Seq<
    (Seq<char>, Seq<char>),
> {
    seq![
        ("grant_type"@, "authorization_code"@),
        ("code"@, code),
        ("redirect_uri"@, c.redirect_uri),
        ("client_id"@, c.client_id),
    ] + verifier_field(f.code_verifier) + secret_field(c)
}

/// The body that renews a token.
pub open spec fn refresh_form(c: ClientView, refresh_token: Seq<char>) -> Seq<
    (Seq<char>, Seq<char>),
> {
    seq![
        ("grant_type"@, "refresh_token"@),
        ("refresh_token"@, refresh_token),
        ("client_id"@, c.client_id),
    ] + secret_field(c)
}

/// A request to a token endpoint.
#[derive(Debug)]
pub struct TokenRequest {
    pub server_id: String,
    pub url: String,
    pub form: Vec<(String, String)>,
    /// The user and the password of the authorization header.
    pub basic_auth: Option<(String, String)>,
    /// Whether the answer may be a form instead of JSON.
    pub form_reply: bool,
}

/// The mathematical value of a [`TokenRequest`].
pub struct RequestView {
    pub server_id: Seq<char>,
    pub url: Seq<char>,
    pub form: Seq<(Seq<char>, Seq<char>)>,
    pub basic_auth: Option<(Seq<char>, Seq<char>)>,
    pub form_reply: bool,
}

impl View for TokenRequest {
    type V = RequestView;

    open spec fn view(&self) -> RequestView {
        RequestView {
            server_id: self.server_id@,
            url: self.url@,
            form: form_view(self.form@),
            basic_auth: match self.basic_auth {
                Some(p) => Some((p.0@, p.1@)),
                None => None,
            },
            form_reply: self.form_reply,
        }
    }
}

/// The request that a client makes with a form.
pub open spec fn request_to(c: ClientView, server_id: Seq<char>, form: Seq<(Seq<char>, Seq<char>)>) -> RequestView {
    RequestView {
        server_id,
        url: c.token_endpoint,
        form,
        basic_auth: basic_auth_of(c),
        form_reply: c.provider_kind is Github,
    }
}

/// What came of a request.
#[derive(Debug)]
pub enum TokenReply {
    /// No client could be built.
    NoClient(String),
    /// The request could not be sent.
    NotSent(String),
    /// The status was not a success; the body, if it could be read.
    Refused { status: String, body: Option<String> },
    /// The body could not be read.
    Unreadable(String),
    /// The body, and what it decodes to as JSON.
    Body { decoded: Result<TokenResponse, String>, body: Vec<u8> },
}

/// What a form body says of a token.
pub open spec fn form_token(body: Seq<char>) -> Option<TokenView> {
    match form_value_of(body, "access_token"@) {
        Some(t) => Some(
            TokenView {
                access_token: t,
                token_type: match form_value_of(body, "token_type"@) {
                    Some(x) => x,
                    None => "bearer"@,
                },
                expires_in: None,
                refresh_token: None,
                scope: form_value_of(body, "scope"@),
            },
        ),
        None => None,
    }
}

/// The text of an optional body.
pub open spec fn body_or_note(b: Option<String>) -> Seq<char> {
    match b {
        Some(s) => s@,
        None => "<unreadable body>"@,
    }
}

/// The token in the answer to an exchange, or why there is none.
pub open spec fn exchanged_token(form_reply: bool, reply: TokenReply) -> Result<TokenView, FlowError> {
    match reply {
        TokenReply::NoClient(e) => Err(FlowError::Http("build client: "@ + e@)),
        TokenReply::NotSent(e) => Err(FlowError::Http("token POST: "@ + e@)),
        TokenReply::Refused { status, body } => Err(
            FlowError::InvalidTokenResponse(
                "status="@ + status@ + ", body="@ + body_or_note(body),
            ),
        ),
        TokenReply::Unreadable(e) => Err(FlowError::Http("read token body: "@ + e@)),
        TokenReply::Body { decoded, body } => match decoded {
            Ok(t) => Ok(t@),
            Err(e) => if form_reply {
                match form_token(utf8_lossy_of(body@)) {
                    Some(t) => Ok(t),
                    None => Err(
                        FlowError::InvalidTokenResponse(
                            "failed to decode github token response: "@ + utf8_lossy_of(body@),
                        ),
                    ),
                }
            } else {
                Err(
                    FlowError::InvalidTokenResponse(
                        "decode json failed: "@ + e@ + ", raw="@ + utf8_lossy_of(body@),
                    ),
                )
            },
        },
    }
}

/// The token in the answer to a renewal, or why there is none.
pub open spec fn refreshed_token(reply: TokenReply) -> Result<TokenView, FlowError> {
    match reply {
        TokenReply::NoClient(e) => Err(FlowError::Http("build client: "@ + e@)),
        TokenReply::NotSent(e) => Err(FlowError::Http("refresh POST: "@ + e@)),
        TokenReply::Refused { status, body } => Err(
            FlowError::InvalidTokenResponse(
                "refresh status="@ + status@ + ", body="@ + body_or_note(body),
            ),
        ),
        TokenReply::Unreadable(e) => Err(FlowError::InvalidTokenResponse("decode json: "@ + e@)),
        TokenReply::Body { decoded, .. } => match decoded {
            Ok(t) => Ok(t@),
            Err(e) => Err(FlowError::InvalidTokenResponse("decode json: "@ + e@)),
        },
    }
}

/// The provider under which the broker keeps the token of a server.
pub open spec fn oauth_provider(server_id: Seq<char>) -> Seq<char> {
    "oauth:"@ + server_id
}

/// The broker after it took a token over and issued a lease for it.
pub open spec fn broker_with_token(
    b: BrokerView,
    server_id: Seq<char>,
    t: TokenView,
    l: crate::auth::types::LeaseView,
    now: u64,
) -> BrokerView {
    let b1 = BrokerView { tokens: b.tokens.insert(oauth_provider(server_id), t.access_token), ..b };
    let b2 = after_issue(b1, l, now);
    match t.refresh_token {
        Some(rt) => BrokerView {
            refresh_tokens: b2.refresh_tokens.insert(l.lease_id, (server_id, rt)),
            ..b2
        },
        None => b2,
    }
}

/// Whether `l` is a lease for the token of a server.
pub open spec fn is_server_lease(
    l: crate::auth::types::LeaseView,
    request: RequestView,
    process_id: u32,
    epoch: u64,
) -> bool {
    exists|uuid: u128, utc: i64|
        l == #[trigger] new_lease(
            oauth_provider(request.server_id),
            request.url,
            uuid,
            process_id,
            utc,
            epoch,
        )
}

/// The state of the flows.
#[derive(Debug)]
pub struct McpoAuthBroker {
    client_registry: StrMap<OAuthClientConfig>,
    in_flight: StrMap<PendingAuthorization>,
    default_flow_timeout: u64,
    oidc_cache: StrMap<OIDCMetadata>,
}

/// What is to be done to know what a provider says of itself.
#[derive(Debug)]
pub enum DiscoveryStep {
    /// Nothing: it is known.
    Known,
    /// Nothing: the provider is not asked.
    NotAsked,
    /// This URL is to be read.
    Fetch(String),
}

impl Default for McpoAuthBroker {
    fn default() -> (r: Self)
        ensures
            r.wf(),
            r.clients() == Map::<Seq<char>, ClientView>::empty(),
            r.flows() == Map::<Seq<char>, FlowView>::empty(),
            r.metadata() == Map::<Seq<char>, OIDCMetadata>::empty(),
            r.time_limit() == 600_000_000_000,
    {
        McpoAuthBroker::new()
    }
}

impl McpoAuthBroker {
    /// The state is sound: every flow is kept under its state.
    pub closed spec fn wf(&self) -> bool {
        &&& self.client_registry.wf()
        &&& self.in_flight.wf()
        &&& self.oidc_cache.wf()
        &&& forall|k: Seq<char>| #[trigger]
            self.flows().dom().contains(k) ==> self.flows()[k].state == k
    }

    /// The registered clients by server.
    pub closed spec fn clients(&self) -> Map<Seq<char>, ClientView> {
        self.client_registry@.map_values(|c: OAuthClientConfig| c@)
    }

    /// The flows that wait, by state.
    pub closed spec fn flows(&self) -> Map<Seq<char>, FlowView> {
        self.in_flight@.map_values(|f: PendingAuthorization| f@)
    }

    /// What the providers of servers said of themselves.
    pub closed spec fn metadata(&self) -> Map<Seq<char>, OIDCMetadata> {
        self.oidc_cache@
    }

    /// The servers whose providers are known.
    pub open spec fn known(&self) -> Set<Seq<char>> {
        self.metadata().dom()
    }

    /// What the provider of a server said of itself.
    pub open spec fn metadata_of(&self, id: Seq<char>) -> Option<OIDCMetadata> {
        if self.metadata().dom().contains(id) {
            Some(self.metadata()[id])
        } else {
            None
        }
    }

    /// How long a flow may wait.
    pub closed spec fn time_limit(&self) -> u64 {
        self.default_flow_timeout
    }

    /// No client and no flow; a flow may wait for ten minutes.
    pub fn new() -> (r: Self)
        ensures
            r.wf(),
            r.clients() == Map::<Seq<char>, ClientView>::empty(),
            r.flows() == Map::<Seq<char>, FlowView>::empty(),
            r.metadata() == Map::<Seq<char>, OIDCMetadata>::empty(),
            r.time_limit() == 600_000_000_000,
    {
        Self::with_timeout(600_000_000_000)
    }

    /// No client and no flow; a flow may wait for the given time.
    pub fn with_timeout(default_flow_timeout: u64) -> (r: Self)
        ensures
            r.wf(),
            r.clients() == Map::<Seq<char>, ClientView>::empty(),
            r.flows() == Map::<Seq<char>, FlowView>::empty(),
            r.metadata() == Map::<Seq<char>, OIDCMetadata>::empty(),
            r.time_limit() == default_flow_timeout,
    {
        let r = McpoAuthBroker {
            client_registry: StrMap::new(),
            in_flight: StrMap::new(),
            default_flow_timeout,
            oidc_cache: StrMap::new(),
        };
        assert(r.clients() =~= Map::<Seq<char>, ClientView>::empty());
        assert(r.flows() =~= Map::<Seq<char>, FlowView>::empty());
        r
    }

    /// Registers a client. It needs an identifier and both endpoints.
    pub fn register_server(&mut self, id: String, cfg: OAuthClientConfig) -> (r: Result<
        (),
        McpoAuthError,
    >)
        requires
            old(self).wf(),
        ensures
            final(self).wf(),
            final(self).flows() == old(self).flows(),
            final(self).metadata() == old(self).metadata(),
            final(self).time_limit() == old(self).time_limit(),
            if cfg@.client_id.len() == 0 {
                &&& r matches Err(e) && e@ == FlowError::Protocol(
                    "server '"@ + id@ + "' registered with empty client_id"@,
                )
                &&& final(self).clients() == old(self).clients()
            } else if cfg@.auth_endpoint.len() == 0 || cfg@.token_endpoint.len() == 0 {
                &&& r matches Err(e) && e@ == FlowError::Protocol(
                    "server '"@ + id@ + "' missing auth/token endpoint"@,
                )
                &&& final(self).clients() == old(self).clients()
            } else {
                &&& r is Ok
                &&& final(self).clients() == old(self).clients().insert(id@, cfg@)
            },
    {
        let ghost before = *self;
        if cfg.client_id.as_str().is_empty() {
            return Err(
                McpoAuthError::Protocol(
                    three("server '", id.as_str(), "' registered with empty client_id"),
                ),
            );
        }
        if cfg.auth_endpoint.as_str().is_empty() || cfg.token_endpoint.as_str().is_empty() {
            return Err(
                McpoAuthError::Protocol(
                    three("server '", id.as_str(), "' missing auth/token endpoint"),
                ),
            );
        }
        let ghost k = id@;
        let ghost c = cfg@;
        let _ = self.client_registry.insert(id, cfg);
        assert(self.clients() =~= before.clients().insert(k, c));
        assert(self.flows() =~= before.flows());
        Ok(())
    }

    /// Starts a flow with random state, nonce and verifier, and gives the URL
    /// that the user opens.
    pub fn start_authorization_flow(&mut self, id: &str, scopes_hint: &Vec<String>, now: u64) -> (r:
        Result<String, McpoAuthError>)
        requires
            old(self).wf(),
        ensures
            final(self).wf(),
            final(self).clients() == old(self).clients(),
            final(self).metadata() == old(self).metadata(),
            final(self).time_limit() == old(self).time_limit(),
            if old(self).clients().dom().contains(id@) {
                exists|state: Seq<char>, nonce: Seq<char>, verifier: Seq<char>|
                    is_flow(
                        old(self).clients()[id@],
                        id@,
                        views(scopes_hint@),
                        state,
                        nonce,
                        verifier,
                        now,
                        old(self).time_limit(),
                        r,
                    ) && is_token(state, 32) && is_token(nonce, 16) && is_token(verifier, 64)
                        && final(self).flows() == old(self).flows().insert(
                        state,
                        #[trigger] new_flow(
                            id@,
                            scopes_for(old(self).clients()[id@], views(scopes_hint@)),
                            state,
                            nonce,
                            verifier,
                            now,
                            old(self).time_limit(),
                        ),
                    )
            } else {
                &&& r matches Err(e) && e@ == FlowError::MissingServerConfig(id@)
                &&& final(self).flows() == old(self).flows()
            },
    {
        let state = random_token(32);
        let nonce = random_token(16);
        let verifier = random_token(64);
        self.start_flow_with(id, scopes_hint, state, nonce, verifier, now)
    }

    /// Starts a flow with given state, nonce and verifier.
    pub fn start_flow_with(
        &mut self,
        id: &str,
        scopes_hint: &Vec<String>,
        state: String,
        nonce: String,
        verifier: String,
        now: u64,
    ) -> (r: Result<String, McpoAuthError>)
        requires
            old(self).wf(),
        ensures
            final(self).wf(),
            final(self).clients() == old(self).clients(),
            final(self).metadata() == old(self).metadata(),
            final(self).time_limit() == old(self).time_limit(),
            if old(self).clients().dom().contains(id@) {
                &&& is_flow(
                    old(self).clients()[id@],
                    id@,
                    views(scopes_hint@),
                    state@,
                    nonce@,
                    verifier@,
                    now,
                    old(self).time_limit(),
                    r,
                )
                &&& final(self).flows() == old(self).flows().insert(
                    state@,
                    new_flow(
                        id@,
                        scopes_for(old(self).clients()[id@], views(scopes_hint@)),
                        state@,
                        nonce@,
                        verifier@,
                        now,
                        old(self).time_limit(),
                    ),
                )
            } else {
                &&& r matches Err(e) && e@ == FlowError::MissingServerConfig(id@)
                &&& final(self).flows() == old(self).flows()
            },
    {
        let ghost before = *self;
        let cfg = match self.client_registry.get(id) {
            Some(c) => c,
            None => {
                return Err(McpoAuthError::MissingServerConfig(owned(id)));
            },
        };
        let scopes = if scopes_hint.len() == 0 {
            clone_list(&cfg.scopes)
        } else {
            clone_list(scopes_hint)
        };
        let separator = match cfg.provider_kind {
            ProviderKind::Github => ",",
            _ => " ",
        };
        let scope = join(&scopes, separator);
        let mut url = cfg.auth_endpoint.clone();
        url.append("?response_type=code&client_id=");
        url.append(urlencode(cfg.client_id.as_str()).as_str());
        url.append("&redirect_uri=");
        url.append(urlencode(cfg.redirect_uri.as_str()).as_str());
        url.append("&state=");
        url.append(urlencode(state.as_str()).as_str());
        url.append("&scope=");
        url.append(urlencode(scope.as_str()).as_str());
        url.append("&nonce=");
        url.append(urlencode(nonce.as_str()).as_str());
        let audience = audience_parameter(cfg);
        url.append(audience.as_str());
        url.append("&code_challenge=");
        url.append(pkce_challenge_s256(verifier.as_str()).as_str());
        url.append("&code_challenge_method=S256");
        let pending = PendingAuthorization {
            server_id: owned(id),
            state: state.clone(),
            nonce,
            created_at: now,
            timeout: self.default_flow_timeout,
            scopes_requested: scopes,
            code_verifier: Some(verifier),
        };
        let ghost f = pending@;
        let ghost k = state@;
        let _ = self.in_flight.insert(state, pending);
        proof {
            assert(self.flows() =~= before.flows().insert(k, f));
            assert(self.clients() =~= before.clients());
        }
        Ok(url)
    }

    /// What to do to know what the provider of a server says of itself. Only
    /// standard providers are asked.
    pub fn discover_metadata_if_openid(&self, id: &str) -> (r: Result<DiscoveryStep, McpoAuthError>)
        requires
            self.wf(),
        ensures
            if self.known().contains(id@) {
                r matches Ok(DiscoveryStep::Known)
            } else if !self.clients().dom().contains(id@) {
                r matches Err(e) && e@ == FlowError::MissingServerConfig(id@)
            } else if !(self.clients()[id@].provider_kind is Standard) {
                r matches Ok(DiscoveryStep::NotAsked)
            } else {
                discovery_result(self.clients()[id@].token_endpoint, r)
            },
    {
        if self.oidc_cache.contains(id) {
            return Ok(DiscoveryStep::Known);
        }
        let cfg = match self.client_registry.get(id) {
            Some(c) => c,
            None => {
                return Err(McpoAuthError::MissingServerConfig(owned(id)));
            },
        };
        match cfg.provider_kind {
            ProviderKind::Standard => {},
            _ => {
                return Ok(DiscoveryStep::NotAsked);
            },
        }
        let base = match crate::auth::urls::parse_url(cfg.token_endpoint.as_str()) {
            Ok(u) => u,
            Err(e) => {
                return Err(McpoAuthError::Protocol(two("bad token_endpoint URL: ", e.as_str())));
            },
        };
        match crate::auth::urls::join_url(base.as_str(), ".well-known/openid-configuration") {
            Ok(u) => Ok(DiscoveryStep::Fetch(u)),
            Err(e) => Err(McpoAuthError::Protocol(two("join discovery path: ", e.as_str()))),
        }
    }

    /// Keeps what a provider says of itself, and what others said.
    pub fn record_metadata(&mut self, id: &str, metadata: OIDCMetadata)
        requires
            old(self).wf(),
        ensures
            final(self).wf(),
            final(self).clients() == old(self).clients(),
            final(self).flows() == old(self).flows(),
            final(self).time_limit() == old(self).time_limit(),
            final(self).metadata() == old(self).metadata().insert(id@, metadata),
            forall|k: Seq<char>|
                k != id@ ==> #[trigger] final(self).metadata_of(k) == old(self).metadata_of(k),
    {
        let ghost before = *self;
        let _ = self.oidc_cache.insert(owned(id), metadata);
        assert(self.flows() =~= before.flows());
        assert(self.clients() =~= before.clients());
    }

    /// What the provider of a server said of itself, if it is known.
    pub fn cached_metadata(&self, id: &str) -> (r: Option<&OIDCMetadata>)
        requires
            self.wf(),
        ensures
            match r {
                Some(m) => self.metadata_of(id@) == Some(*m),
                None => self.metadata_of(id@) is None,
            },
    {
        self.oidc_cache.get(id)
    }

    /// The request that exchanges the code of a redirect for a token. The
    /// state of the redirect must belong to a flow, which ends here, and the
    /// flow must not have waited too long.
    pub fn exchange_code_for_token(&mut self, code: &str, received_state: &str, now: u64) -> (r:
        Result<TokenRequest, McpoAuthError>)
        requires
            old(self).wf(),
        ensures
            final(self).wf(),
            final(self).clients() == old(self).clients(),
            final(self).metadata() == old(self).metadata(),
            final(self).time_limit() == old(self).time_limit(),
            final(self).flows() == old(self).flows().remove(received_state@),
            match exchange_outcome(
                old(self).clients(),
                old(self).flows(),
                code@,
                received_state@,
                now,
            ) {
                Ok(q) => r matches Ok(x) && x@ == q,
                Err(e) => r matches Err(x) && x@ == e,
            },
    {
        let ghost before = *self;
        let taken = self.in_flight.remove(received_state);
        proof {
            assert(self.flows() =~= before.flows().remove(received_state@));
            assert(self.clients() =~= before.clients());
        }
        let pending = match taken {
            Some(p) => p,
            None => {
                return Err(
                    McpoAuthError::StateMismatch {
                        expected: owned("<unknown>"),
                        received: owned(received_state),
                    },
                );
            },
        };
        let waited: u64 = if now < pending.created_at {
            0
        } else {
            now - pending.created_at
        };
        if waited > pending.timeout {
            return Err(McpoAuthError::StateExpired(pending.server_id));
        }
        let cfg = match self.client_registry.get(pending.server_id.as_str()) {
            Some(c) => c,
            None => {
                return Err(McpoAuthError::MissingServerConfig(pending.server_id));
            },
        };
        let mut form: Vec<(String, String)> = Vec::new();
        form.push((owned("grant_type"), owned("authorization_code")));
        form.push((owned("code"), owned(code)));
        form.push((owned("redirect_uri"), cfg.redirect_uri.clone()));
        form.push((owned("client_id"), cfg.client_id.clone()));
        if let Some(v) = &pending.code_verifier {
            form.push((owned("code_verifier"), v.clone()));
        }
        add_secret(&mut form, cfg);
        assert(form_view(form@) =~= exchange_form(cfg@, pending@, code@));
        Ok(make_request(cfg, pending.server_id, form))
    }

    /// Takes the answer to an exchange: the broker takes the token over and
    /// issues a lease for it.
    pub fn finish_exchange(
        request: &TokenRequest,
        reply: TokenReply,
        broker: &mut CredentialBroker,
        process_id: u32,
        now: u64,
    ) -> (r: Result<CredentialLease, McpoAuthError>)
        requires
            old(broker).wf(),
        ensures
            final(broker).wf(),
            match exchanged_token(request@.form_reply, reply) {
                Ok(t) => r matches Ok(l) && is_server_lease(
                    l@,
                    request@,
                    process_id,
                    old(broker)@.epoch,
                ) && final(broker)@ == broker_with_token(
                    old(broker)@,
                    request@.server_id,
                    t,
                    l@,
                    now,
                ),
                Err(e) => r matches Err(x) && x@ == e && final(broker)@ == old(broker)@,
            },
    {
        match token_from_exchange(request.form_reply, reply) {
            Ok(t) => take_over(request, t, broker, process_id, now),
            Err(e) => Err(e),
        }
    }

    /// The request that renews the token of a lease.
    pub fn refresh_credential(&self, lease_id: &str, broker: &CredentialBroker) -> (r: Result<
        TokenRequest,
        McpoAuthError,
    >)
        requires
            self.wf(),
            broker.wf(),
        ensures
            match refresh_outcome(self.clients(), broker@, lease_id@) {
                Ok(q) => r matches Ok(x) && x@ == q,
                Err(e) => r matches Err(x) && x@ == e,
            },
    {
        let (server_id, refresh_token) = match broker.get_refresh_token(lease_id) {
            Some(p) => p,
            None => {
                return Err(
                    McpoAuthError::Protocol(owned("no refresh token associated with this lease")),
                );
            },
        };
        let cfg = match self.client_registry.get(server_id.as_str()) {
            Some(c) => c,
            None => {
                return Err(McpoAuthError::MissingServerConfig(server_id));
            },
        };
        let mut form: Vec<(String, String)> = Vec::new();
        let ghost token = refresh_token@;
        form.push((owned("grant_type"), owned("refresh_token")));
        form.push((owned("refresh_token"), refresh_token));
        form.push((owned("client_id"), cfg.client_id.clone()));
        add_secret(&mut form, cfg);
        assert(form_view(form@) =~= refresh_form(cfg@, token));
        Ok(make_request(cfg, server_id, form))
    }

    /// Takes the answer to a renewal: the broker takes the token over, issues
    /// a lease for it and forgets the old lease.
    pub fn finish_refresh(
        lease_id: &str,
        request: &TokenRequest,
        reply: TokenReply,
        broker: &mut CredentialBroker,
        process_id: u32,
        now: u64,
    ) -> (r: Result<CredentialLease, McpoAuthError>)
        requires
            old(broker).wf(),
        ensures
            final(broker).wf(),
            match refreshed_token(reply) {
                Ok(t) => r matches Ok(l) && is_server_lease(
                    l@,
                    request@,
                    process_id,
                    old(broker)@.epoch,
                ) && final(broker)@ == without_lease(
                    broker_with_token(old(broker)@, request@.server_id, t, l@, now),
                    lease_id@,
                ),
                Err(e) => r matches Err(x) && x@ == e && final(broker)@ == old(broker)@,
            },
    {
        let t = match token_from_refresh(reply) {
            Ok(t) => t,
            Err(e) => {
                return Err(e);
            },
        };
        match take_over(request, t, broker, process_id, now) {
            Ok(lease) => {
                broker.revoke_by_id(lease_id);
                Ok(lease)
            },
            Err(e) => Err(e),
        }
    }

    /// The number of flows that wait.
    pub fn in_flight_count(&self) -> (r: usize)
        requires
            self.wf(),
        ensures
            r == self.flows().dom().len(),
    {
        assert(self.flows().dom() =~= self.in_flight@.dom());
        self.in_flight.len()
    }

    /// The servers with a registered client, in order.
    pub fn registered_server_ids(&self) -> (r: Vec<String>)
        requires
            self.wf(),
        ensures
            in_text_order(views(r@)),
            forall|k: Seq<char>| #[trigger]
                views(r@).contains(k) <==> self.clients().dom().contains(k),
    {
        let ids = self.client_registry.key_list();
        let mut out: Vec<String> = Vec::new();
        let ghost all = views(ids@);
        let mut i: usize = 0;
        assert(views(out@) =~= Seq::empty());
        while i < ids.len()
            invariant
                i <= ids@.len(),
                all == views(ids@),
                in_text_order(views(out@)),
                forall|k: Seq<char>| #[trigger]
                    views(out@).contains(k) <==> (exists|j: int| 0 <= j < i && all[j] == k),
            decreases ids@.len() - i,
        {
            assert(all[i as int] == ids@[i as int]@);
            add_sorted(&mut out, ids[i].clone());
            i = i + 1;
        }
        proof {
            self.client_registry.order_is_domain();
            assert(self.clients().dom() =~= self.client_registry@.dom());
            assert forall|k: Seq<char>| #[trigger] views(out@).contains(k)
                <==> self.clients().dom().contains(k) by {
                assert(self.client_registry.order().contains(k) <==> self.clients().dom().contains(
                    k,
                ));
                if all.contains(k) {
                    let j = choose|j: int| 0 <= j < all.len() && all[j] == k;
                    assert(all[j] == k);
                }
            }
        }
        out
    }
}

/// The broker without a lease and without the token that renews it.
pub open spec fn without_lease(b: BrokerView, lease_id: Seq<char>) -> BrokerView {
    BrokerView {
        leases: b.leases.remove(lease_id),
        refresh_tokens: b.refresh_tokens.remove(lease_id),
        ..b
    }
}

/// A flow that starts.
pub open spec fn new_flow(
    server_id: Seq<char>,
    scopes: Seq<Seq<char>>,
    state: Seq<char>,
    nonce: Seq<char>,
    verifier: Seq<char>,
    now: u64,
    timeout: u64,
) -> FlowView {
    FlowView {
        server_id,
        state,
        nonce,
        created_at: now,
        timeout,
        scopes_requested: scopes,
        code_verifier: Some(verifier),
    }
}

/// Whether `r` is the URL of a flow with the given state, nonce and verifier.
pub open spec fn is_flow(
    c: ClientView,
    server_id: Seq<char>,
    hint: Seq<Seq<char>>,
    state: Seq<char>,
    nonce: Seq<char>,
    verifier: Seq<char>,
    now: u64,
    timeout: u64,
    r: Result<String, McpoAuthError>,
) -> bool {
    r matches Ok(url) && url@ == authorization_url(
        c,
        scopes_for(c, hint),
        state,
        nonce,
        verifier,
    )
}

/// The request of an exchange, or why there is none.
pub open spec fn exchange_outcome(
    clients: Map<Seq<char>, ClientView>,
    flows: Map<Seq<char>, FlowView>,
    code: Seq<char>,
    state: Seq<char>,
    now: u64,
) -> Result<RequestView, FlowError> {
    if !flows.dom().contains(state) {
        Err(FlowError::StateMismatch("<unknown>"@, state))
    } else {
        let f = flows[state];
        if now - f.created_at > f.timeout {
            Err(FlowError::StateExpired(f.server_id))
        } else if !clients.dom().contains(f.server_id) {
            Err(FlowError::MissingServerConfig(f.server_id))
        } else {
            let c = clients[f.server_id];
            Ok(request_to(c, f.server_id, exchange_form(c, f, code)))
        }
    }
}

/// The request of a renewal, or why there is none.
pub open spec fn refresh_outcome(
    clients: Map<Seq<char>, ClientView>,
    b: BrokerView,
    lease_id: Seq<char>,
) -> Result<RequestView, FlowError> {
    if !b.refresh_tokens.dom().contains(lease_id) {
        Err(FlowError::Protocol("no refresh token associated with this lease"@))
    } else {
        let (server_id, token) = b.refresh_tokens[lease_id];
        if !clients.dom().contains(server_id) {
            Err(FlowError::MissingServerConfig(server_id))
        } else {
            let c = clients[server_id];
            Ok(request_to(c, server_id, refresh_form(c, token)))
        }
    }
}

/// Whether `r` is what the URL of a token endpoint leads to.
pub open spec fn discovery_result(
    token_endpoint: Seq<char>,
    r: Result<DiscoveryStep, McpoAuthError>,
) -> bool {
    match crate::auth::urls::url_parse_of(token_endpoint) {
        Err(e) => r matches Err(x) && x@ == FlowError::Protocol("bad token_endpoint URL: "@ + e),
        Ok(base) => match crate::auth::urls::url_join_of(
            base,
            ".well-known/openid-configuration"@,
        ) {
            Err(e) => r matches Err(x) && x@ == FlowError::Protocol("join discovery path: "@ + e),
            Ok(u) => r matches Ok(DiscoveryStep::Fetch(s)) && s@ == u,
        },
    }
}

fn audience_parameter(cfg: &OAuthClientConfig) -> (r: String)
    ensures
        r@ == audience_part(cfg@),
{
    match (&cfg.audience, &cfg.provider_kind) {
        (Some(a), _) => two("&audience=", urlencode(a.as_str()).as_str()),
        (None, ProviderKind::Linear) => owned("&audience=https%3A%2F%2Fapi.linear.dev"),
        _ => {
            let none = String::new();
            assert(none@ =~= Seq::empty());
            none
        },
    }
}

/// How a client shows its secret to a kind of provider.
pub fn secret_mode_for_provider(kind: &ProviderKind) -> (r: ClientSecretMode)
    ensures
        r == secret_mode(kind@),
{
    match kind {
        ProviderKind::Slack => ClientSecretMode::BasicAuthOnly,
        ProviderKind::Github => ClientSecretMode::RequiredInBody,
        _ => ClientSecretMode::NonePKCEOnly,
    }
}

fn add_secret(form: &mut Vec<(String, String)>, cfg: &OAuthClientConfig)
    ensures
        form_view(final(form)@) == form_view(old(form)@) + secret_field(cfg@),
{
    let ghost f0 = form_view(form@);
    match (secret_mode_for_provider(&cfg.provider_kind), &cfg.client_secret) {
        (ClientSecretMode::RequiredInBody, Some(s)) => {
            form.push((owned("client_secret"), s.clone()));
        },
        _ => {},
    }
    assert(form_view(form@) =~= f0 + secret_field(cfg@));
}

fn make_request(cfg: &OAuthClientConfig, server_id: String, form: Vec<(String, String)>) -> (r:
    TokenRequest)
    ensures
        r@ == request_to(cfg@, server_id@, form_view(form@)),
{
    let basic_auth = match (secret_mode_for_provider(&cfg.provider_kind), &cfg.client_secret) {
        (ClientSecretMode::BasicAuthOnly, Some(s)) => Some((cfg.client_id.clone(), s.clone())),
        _ => None,
    };
    let form_reply = match cfg.provider_kind {
        ProviderKind::Github => true,
        _ => false,
    };
    TokenRequest { server_id, url: cfg.token_endpoint.clone(), form, basic_auth, form_reply }
}

/// What a form body says of a token.
pub fn parse_github_form_response(body: &str) -> (r: Option<TokenResponse>)
    ensures
        match r {
            Some(t) => form_token(body@) == Some(t@),
            None => form_token(body@) is None,
        },
{
    match form_value(body, "access_token") {
        Some(access_token) => {
            let token_type = match form_value(body, "token_type") {
                Some(t) => t,
                None => owned("bearer"),
            };
            let scope = form_value(body, "scope");
            Some(
                TokenResponse {
                    access_token,
                    token_type,
                    expires_in: None,
                    refresh_token: None,
                    scope,
                },
            )
        },
        None => None,
    }
}

fn body_note(body: &Option<String>) -> (r: String)
    ensures
        r@ == body_or_note(*body),
{
    match body {
        Some(s) => s.clone(),
        None => owned("<unreadable body>"),
    }
}

fn token_from_exchange(form_reply: bool, reply: TokenReply) -> (r: Result<
    TokenResponse,
    McpoAuthError,
>)
    ensures
        match exchanged_token(form_reply, reply) {
            Ok(t) => r matches Ok(x) && x@ == t,
            Err(e) => r matches Err(x) && x@ == e,
        },
{
    match reply {
        TokenReply::NoClient(e) => Err(McpoAuthError::Http(two("build client: ", e.as_str()))),
        TokenReply::NotSent(e) => Err(McpoAuthError::Http(two("token POST: ", e.as_str()))),
        TokenReply::Refused { status, body } => {
            let mut m = three("status=", status.as_str(), ", body=");
            m.append(body_note(&body).as_str());
            Err(McpoAuthError::InvalidTokenResponse(m))
        },
        TokenReply::Unreadable(e) => Err(McpoAuthError::Http(two("read token body: ", e.as_str()))),
        TokenReply::Body { decoded, body } => match decoded {
            Ok(t) => Ok(t),
            Err(e) => {
                let text = utf8_lossy(body.as_slice());
                if form_reply {
                    match parse_github_form_response(text.as_str()) {
                        Some(t) => Ok(t),
                        None => Err(
                            McpoAuthError::InvalidTokenResponse(
                                two("failed to decode github token response: ", text.as_str()),
                            ),
                        ),
                    }
                } else {
                    let mut m = three("decode json failed: ", e.as_str(), ", raw=");
                    m.append(text.as_str());
                    Err(McpoAuthError::InvalidTokenResponse(m))
                }
            },
        },
    }
}

fn token_from_refresh(reply: TokenReply) -> (r: Result<TokenResponse, McpoAuthError>)
    ensures
        match refreshed_token(reply) {
            Ok(t) => r matches Ok(x) && x@ == t,
            Err(e) => r matches Err(x) && x@ == e,
        },
{
    match reply {
        TokenReply::NoClient(e) => Err(McpoAuthError::Http(two("build client: ", e.as_str()))),
        TokenReply::NotSent(e) => Err(McpoAuthError::Http(two("refresh POST: ", e.as_str()))),
        TokenReply::Refused { status, body } => {
            let mut m = three("refresh status=", status.as_str(), ", body=");
            m.append(body_note(&body).as_str());
            Err(McpoAuthError::InvalidTokenResponse(m))
        },
        TokenReply::Unreadable(e) => Err(
            McpoAuthError::InvalidTokenResponse(two("decode json: ", e.as_str())),
        ),
        TokenReply::Body { decoded, .. } => match decoded {
            Ok(t) => Ok(t),
            Err(e) => Err(McpoAuthError::InvalidTokenResponse(two("decode json: ", e.as_str()))),
        },
    }
}

/// Hands a token to the broker and takes a lease for it.
fn take_over(
    request: &TokenRequest,
    t: TokenResponse,
    broker: &mut CredentialBroker,
    process_id: u32,
    now: u64,
) -> (r: Result<CredentialLease, McpoAuthError>)
    requires
        old(broker).wf(),
    ensures
        final(broker).wf(),
        r matches Ok(l) && is_server_lease(l@, request@, process_id, old(broker)@.epoch) && final(broker)@ == broker_with_token(old(broker)@, request@.server_id, t@, l@, now),
{
    let provider = two("oauth:", request.server_id.as_str());
    broker.register_provider(provider.as_str(), t.access_token);
    let ghost b1 = broker@;
    assert(b1.tokens.dom().contains(provider@));
    match broker.issue_lease(provider.as_str(), request.url.as_str(), process_id, now) {
        Some(lease) => {
            assert(broker@ == after_issue(b1, lease@, now));
            if let Some(rt) = t.refresh_token {
                broker.store_refresh_token(lease.lease_id.clone(), request.server_id.clone(), rt);
            }
            proof {
                let (uuid, utc) = choose|uuid: u128, utc: i64|
                    lease@ == #[trigger] new_lease(
                        provider@,
                        request.url@,
                        uuid,
                        process_id,
                        utc,
                        b1.epoch,
                    );
                assert(lease@ == new_lease(
                    oauth_provider(request@.server_id),
                    request@.url,
                    uuid,
                    process_id,
                    utc,
                    old(broker)@.epoch,
                ));
            }
            Ok(lease)
        },
        None => Err(
            McpoAuthError::Protocol(
                three("failed to issue lease for provider '", provider.as_str(), "'"),
            ),
        ),
    }
}

/// A state that no flow has is refused, and a state is good for one exchange:
/// the flow ends with the first, whatever comes of it.
pub proof fn states_are_good_once(
    clients: Map<Seq<char>, ClientView>,
    flows: Map<Seq<char>, FlowView>,
    code: Seq<char>,
    state: Seq<char>,
    now: u64,
)
    ensures
        exchange_outcome(clients, flows.remove(state), code, state, now) == Err::<
            RequestView,
            FlowError,
        >(FlowError::StateMismatch("<unknown>"@, state)),
{
}

/// The verifier that a request shows is the one that the URL of its flow
/// committed to.
pub proof fn exchanges_show_the_committed_verifier(
    c: ClientView,
    server_id: Seq<char>,
    scopes: Seq<Seq<char>>,
    state: Seq<char>,
    nonce: Seq<char>,
    verifier: Seq<char>,
    started: u64,
    timeout: u64,
    clients: Map<Seq<char>, ClientView>,
    flows: Map<Seq<char>, FlowView>,
    code: Seq<char>,
    now: u64,
)
    requires
        clients.dom().contains(server_id),
        clients[server_id] == c,
        now <= started + timeout,
    ensures
        ({
            let f = new_flow(server_id, scopes, state, nonce, verifier, started, timeout);
            exchange_outcome(clients, flows.insert(state, f), code, state, now) matches Ok(q)
                && q.form[4] == ("code_verifier"@, verifier) && q.form[1] == ("code"@, code)
                && q.url == c.token_endpoint
        }),
{
}

/// A URL for a user says who asks, for what, where the answer goes, and which
/// answer is expected: each is what its key reads as.
pub proof fn authorization_urls_say_what_is_asked(
    c: ClientView,
    scopes: Seq<Seq<char>>,
    state: Seq<char>,
    nonce: Seq<char>,
    verifier: Seq<char>,
) -> (query: Seq<char>)
    ensures
        authorization_url(c, scopes, state, nonce, verifier) == c.auth_endpoint + "?"@ + query,
        form_value_of(query, "response_type"@) == Some(url_decoded("code"@)),
        form_value_of(query, "client_id"@) == Some(read_back(c.client_id)),
        form_value_of(query, "redirect_uri"@) == Some(read_back(c.redirect_uri)),
        form_value_of(query, "state"@) == Some(read_back(state)),
        form_value_of(query, "nonce"@) == Some(read_back(nonce)),
        form_value_of(query, "scope"@) == Some(
            read_back(
                joined(
                    scopes,
                    if c.provider_kind is Github {
                        ","@
                    } else {
                        " "@
                    },
                ),
            ),
        ),
        form_value_of(query, "code_challenge"@) == Some(
            url_decoded(base64_of(sha256_of(encode_utf8(verifier)))),
        ),
        form_value_of(query, "code_challenge_method"@) == Some(url_decoded("S256"@)),
        form_value_of(query, "audience"@) == (match c.audience {
            Some(a) => Some(read_back(a)),
            None => if c.provider_kind is Linear {
                Some(url_decoded("https%3A%2F%2Fapi.linear.dev"@))
            } else {
                None
            },
        }),
{
    lemma_keys_differ();
    let scope = joined(scopes, scope_separator(c.provider_kind));
    let e = Seq::<char>::empty();
    let q1 = "response_type"@ + "="@ + "code"@;
    let q2 = q1 + "&"@ + "client_id"@ + "="@ + url_encoded(c.client_id);
    let q3 = q2 + "&"@ + "redirect_uri"@ + "="@ + url_encoded(c.redirect_uri);
    let q4 = q3 + "&"@ + "state"@ + "="@ + url_encoded(state);
    let q5 = q4 + "&"@ + "scope"@ + "="@ + url_encoded(scope);
    let q6 = q5 + "&"@ + "nonce"@ + "="@ + url_encoded(nonce);
    let has_audience = c.audience is Some || c.provider_kind is Linear;
    let audience = match c.audience {
        Some(a) => url_encoded(a),
        None => "https%3A%2F%2Fapi.linear.dev"@,
    };
    let q7 = if has_audience {
        q6 + "&"@ + "audience"@ + "="@ + audience
    } else {
        q6
    };
    let challenge = challenge_of(verifier);
    let q8 = q7 + "&"@ + "code_challenge"@ + "="@ + challenge;
    let q9 = q8 + "&"@ + "code_challenge_method"@ + "="@ + "S256"@;
    encoded_values_read_back(c.client_id);
    encoded_values_read_back(c.redirect_uri);
    encoded_values_read_back(state);
    encoded_values_read_back(scope);
    encoded_values_read_back(nonce);
    if let Some(a) = c.audience {
        encoded_values_read_back(a);
    }
    base64_is_url_safe(sha256_of(encode_utf8(verifier)));
    assert(!challenge.contains('&'));
    let ks = all_keys();
    assert forall|i: int| #![trigger ks[i]] 0 <= i < ks.len() implies ({
        &&& form_value_of(q9, ks[i]) == (if i == 8 {
            Some(url_decoded("S256"@))
        } else {
            form_value_of(q8, ks[i])
        })
        &&& form_value_of(q8, ks[i]) == (if i == 7 {
            Some(url_decoded(challenge))
        } else {
            form_value_of(q7, ks[i])
        })
        &&& form_value_of(q7, ks[i]) == (if has_audience && i == 6 {
            Some(url_decoded(audience))
        } else {
            form_value_of(q6, ks[i])
        })
        &&& form_value_of(q6, ks[i]) == (if i == 5 {
            Some(read_back(nonce))
        } else {
            form_value_of(q5, ks[i])
        })
        &&& form_value_of(q5, ks[i]) == (if i == 4 {
            Some(read_back(scope))
        } else {
            form_value_of(q4, ks[i])
        })
        &&& form_value_of(q4, ks[i]) == (if i == 3 {
            Some(read_back(state))
        } else {
            form_value_of(q3, ks[i])
        })
        &&& form_value_of(q3, ks[i]) == (if i == 2 {
            Some(read_back(c.redirect_uri))
        } else {
            form_value_of(q2, ks[i])
        })
        &&& form_value_of(q2, ks[i]) == (if i == 1 {
            Some(read_back(c.client_id))
        } else {
            form_value_of(q1, ks[i])
        })
        &&& form_value_of(q1, ks[i]) == (if i == 0 {
            Some(url_decoded("code"@))
        } else {
            None
        })
    }) by {
        the_last_pair_decides(q8, ks[8], "S256"@, ks[i]);
        the_last_pair_decides(q7, ks[7], challenge, ks[i]);
        if has_audience {
            the_last_pair_decides(q6, ks[6], audience, ks[i]);
        }
        the_last_pair_decides(q5, ks[5], url_encoded(nonce), ks[i]);
        the_last_pair_decides(q4, ks[4], url_encoded(scope), ks[i]);
        the_last_pair_decides(q3, ks[3], url_encoded(state), ks[i]);
        the_last_pair_decides(q2, ks[2], url_encoded(c.redirect_uri), ks[i]);
        the_last_pair_decides(q1, ks[1], url_encoded(c.client_id), ks[i]);
        the_last_pair_decides(e, ks[0], "code"@, ks[i]);
    }
    assert(ks[0] == "response_type"@ && ks[1] == "client_id"@ && ks[2] == "redirect_uri"@ && ks[3]
        == "state"@ && ks[4] == "scope"@ && ks[5] == "nonce"@ && ks[6] == "audience"@ && ks[7]
        == "code_challenge"@ && ks[8] == "code_challenge_method"@);
    lemma_query_text(c, scopes, state, nonce, verifier, q6, q7, q9);
    q9
}

/// What an encoded text reads as: the text.
pub open spec fn read_back(s: Seq<char>) -> Seq<char> {
    utf8_lossy_of(encode_utf8(s))
}

spec fn all_keys() -> Seq<Seq<char>> {
    seq![
        "response_type"@,
        "client_id"@,
        "redirect_uri"@,
        "state"@,
        "scope"@,
        "nonce"@,
        "audience"@,
        "code_challenge"@,
        "code_challenge_method"@,
    ]
}

spec fn plain_key(k: Seq<char>) -> bool {
    !k.contains('&') && !k.contains('=')
}

proof fn lemma_keys_differ()
    ensures
        forall|i: int, j: int| 0 <= i < j < 9 ==> #[trigger] all_keys()[i] != #[trigger] all_keys()[j],
        forall|i: int| 0 <= i < 9 ==> plain_key(#[trigger] all_keys()[i]),
        !"code"@.contains('&'),
        !"S256"@.contains('&'),
        !"https%3A%2F%2Fapi.linear.dev"@.contains('&'),
{
    reveal_strlit("response_type");
    reveal_strlit("client_id");
    reveal_strlit("redirect_uri");
    reveal_strlit("state");
    reveal_strlit("scope");
    reveal_strlit("nonce");
    reveal_strlit("audience");
    reveal_strlit("code_challenge");
    reveal_strlit("code_challenge_method");
    reveal_strlit("code");
    reveal_strlit("S256");
    reveal_strlit("https%3A%2F%2Fapi.linear.dev");
    assert("state"@[1] == 't' && "scope"@[1] == 'c' && "nonce"@[1] == 'o');
    assert(plain_key("response_type"@));
    assert(plain_key("client_id"@));
    assert(plain_key("redirect_uri"@));
    assert(plain_key("state"@));
    assert(plain_key("scope"@));
    assert(plain_key("nonce"@));
    assert(plain_key("audience"@));
    assert(plain_key("code_challenge"@));
    assert(plain_key("code_challenge_method"@));
}

proof fn lemma_query_piece_a()
    ensures
        "?response_type=code&client_id="@ == "?"@ + ("response_type"@ + "="@ + "code"@ + "&"@
        + "client_id"@ + "="@),
{
    reveal_strlit("?response_type=code&client_id=");
    reveal_strlit("?");
    reveal_strlit("response_type");
    reveal_strlit("=");
    reveal_strlit("code");
    reveal_strlit("&");
    reveal_strlit("client_id");
    assert("?response_type=code&client_id="@ =~= "?"@ + ("response_type"@ + "="@ + "code"@ + "&"@
        + "client_id"@ + "="@));
}

proof fn lemma_query_piece_b()
    ensures
        "&redirect_uri="@ == "&"@ + "redirect_uri"@ + "="@,
{
    reveal_strlit("&redirect_uri=");
    reveal_strlit("redirect_uri");
    reveal_strlit("=");
    reveal_strlit("&");
    assert("&redirect_uri="@ =~= "&"@ + "redirect_uri"@ + "="@);
}

proof fn lemma_query_piece_c()
    ensures
        "&state="@ == "&"@ + "state"@ + "="@,
{
    reveal_strlit("&state=");
    reveal_strlit("state");
    reveal_strlit("=");
    reveal_strlit("&");
    assert("&state="@ =~= "&"@ + "state"@ + "="@);
}

proof fn lemma_query_piece_d()
    ensures
        "&scope="@ == "&"@ + "scope"@ + "="@,
{
    reveal_strlit("&scope=");
    reveal_strlit("scope");
    reveal_strlit("=");
    reveal_strlit("&");
    assert("&scope="@ =~= "&"@ + "scope"@ + "="@);
}

proof fn lemma_query_piece_e()
    ensures
        "&nonce="@ == "&"@ + "nonce"@ + "="@,
{
    reveal_strlit("&nonce=");
    reveal_strlit("nonce");
    reveal_strlit("=");
    reveal_strlit("&");
    assert("&nonce="@ =~= "&"@ + "nonce"@ + "="@);
}

proof fn lemma_query_piece_f()
    ensures
        "&audience="@ == "&"@ + "audience"@ + "="@,
{
    reveal_strlit("&audience=");
    reveal_strlit("audience");
    reveal_strlit("=");
    reveal_strlit("&");
    assert("&audience="@ =~= "&"@ + "audience"@ + "="@);
}

proof fn lemma_query_piece_g()
    ensures
        "&audience=https%3A%2F%2Fapi.linear.dev"@ == "&"@ + "audience"@ + "="@
        + "https%3A%2F%2Fapi.linear.dev"@,
{
    reveal_strlit("&audience=https%3A%2F%2Fapi.linear.dev");
    reveal_strlit("https%3A%2F%2Fapi.linear.dev");
    reveal_strlit("audience");
    reveal_strlit("=");
    reveal_strlit("&");
    assert("&audience=https%3A%2F%2Fapi.linear.dev"@ =~= "&"@ + "audience"@ + "="@
        + "https%3A%2F%2Fapi.linear.dev"@);
}

proof fn lemma_query_piece_h()
    ensures
        "&code_challenge="@ == "&"@ + "code_challenge"@ + "="@,
{
    reveal_strlit("&code_challenge=");
    reveal_strlit("code_challenge");
    reveal_strlit("=");
    reveal_strlit("&");
    assert("&code_challenge="@ =~= "&"@ + "code_challenge"@ + "="@);
}

proof fn lemma_query_piece_i()
    ensures
        "&code_challenge_method=S256"@ == "&"@ + "code_challenge_method"@ + "="@ + "S256"@,
{
    reveal_strlit("&code_challenge_method=S256");
    reveal_strlit("code_challenge_method");
    reveal_strlit("S256");
    reveal_strlit("=");
    reveal_strlit("&");
    assert("&code_challenge_method=S256"@ =~= "&"@ + "code_challenge_method"@ + "="@ + "S256"@);
}

proof fn lemma_query_text(
    c: ClientView,
    scopes: Seq<Seq<char>>,
    state: Seq<char>,
    nonce: Seq<char>,
    verifier: Seq<char>,
    q6: Seq<char>,
    q7: Seq<char>,
    q9: Seq<char>,
)
    requires
        q6 == "response_type"@ + "="@ + "code"@ + "&"@ + "client_id"@ + "="@ + url_encoded(c.client_id)
            + "&"@ + "redirect_uri"@ + "="@ + url_encoded(c.redirect_uri) + "&"@ + "state"@ + "="@
            + url_encoded(state) + "&"@ + "scope"@ + "="@ + url_encoded(
            joined(scopes, scope_separator(c.provider_kind)),
        ) + "&"@ + "nonce"@ + "="@ + url_encoded(nonce),
        q7 == (match c.audience {
            Some(a) => q6 + "&"@ + "audience"@ + "="@ + url_encoded(a),
            None => if c.provider_kind is Linear {
                q6 + "&"@ + "audience"@ + "="@ + "https%3A%2F%2Fapi.linear.dev"@
            } else {
                q6
            },
        }),
        q9 == q7 + "&"@ + "code_challenge"@ + "="@ + challenge_of(verifier) + "&"@
            + "code_challenge_method"@ + "="@ + "S256"@,
    ensures
        authorization_url(c, scopes, state, nonce, verifier) == c.auth_endpoint + "?"@ + q9,
{
    lemma_query_piece_a();
    lemma_query_piece_b();
    lemma_query_piece_c();
    lemma_query_piece_d();
    lemma_query_piece_e();
    lemma_query_piece_f();
    lemma_query_piece_g();
    lemma_query_piece_h();
    lemma_query_piece_i();
    let pre = c.auth_endpoint + "?"@;
    let scope = joined(scopes, scope_separator(c.provider_kind));
    let q2 = "response_type"@ + "="@ + "code"@ + "&"@ + "client_id"@ + "="@ + url_encoded(c.client_id);
    let u2 = c.auth_endpoint + "?response_type=code&client_id="@ + url_encoded(c.client_id);
    lemma_first_text(
        c.auth_endpoint,
        "?"@,
        "response_type"@ + "="@ + "code"@ + "&"@ + "client_id"@ + "="@,
        url_encoded(c.client_id),
    );
    assert(u2 == pre + q2);
    let q3 = q2 + "&"@ + "redirect_uri"@ + "="@ + url_encoded(c.redirect_uri);
    lemma_pair_text(pre, q2, "redirect_uri"@, url_encoded(c.redirect_uri));
    let q4 = q3 + "&"@ + "state"@ + "="@ + url_encoded(state);
    lemma_pair_text(pre, q3, "state"@, url_encoded(state));
    let q5 = q4 + "&"@ + "scope"@ + "="@ + url_encoded(scope);
    lemma_pair_text(pre, q4, "scope"@, url_encoded(scope));
    lemma_pair_text(pre, q5, "nonce"@, url_encoded(nonce));
    match c.audience {
        Some(a) => {
            lemma_last_text(pre, q6, "audience"@, url_encoded(a));
        },
        None => {
            if c.provider_kind is Linear {
                lemma_last_text(pre, q6, "audience"@, "https%3A%2F%2Fapi.linear.dev"@);
            } else {
                assert(pre + q6 + Seq::<char>::empty() =~= pre + q7);
            }
        },
    }
    let q8 = q7 + "&"@ + "code_challenge"@ + "="@ + challenge_of(verifier);
    lemma_pair_text(pre, q7, "code_challenge"@, challenge_of(verifier));
    lemma_last_text(pre, q8, "code_challenge_method"@, "S256"@);
}

proof fn lemma_first_text(e: Seq<char>, mark: Seq<char>, q: Seq<char>, value: Seq<char>)
    ensures
        e + (mark + q) + value == e + mark + (q + value),
{
    assert(e + (mark + q) + value =~= e + mark + (q + value));
}

proof fn lemma_last_text(pre: Seq<char>, q: Seq<char>, key: Seq<char>, value: Seq<char>)
    ensures
        pre + q + ("&"@ + key + "="@ + value) == pre + (q + "&"@ + key + "="@ + value),
{
    assert(pre + q + ("&"@ + key + "="@ + value) =~= pre + (q + "&"@ + key + "="@ + value));
}

proof fn lemma_pair_text(pre: Seq<char>, q: Seq<char>, key: Seq<char>, value: Seq<char>)
    ensures
        pre + q + ("&"@ + key + "="@) + value == pre + (q + "&"@ + key + "="@ + value),
{
    assert(pre + q + ("&"@ + key + "="@) + value =~= pre + (q + "&"@ + key + "="@ + value));
}

/// The scopes that are asked for are those that are wished for, or else those
/// of the client.
pub proof fn scopes_are_those_wished_for(c: ClientView, hint: Seq<Seq<char>>)
    ensures
        hint.len() > 0 ==> scopes_for(c, hint) == hint,
        scopes_for(c, Seq::empty()) == c.scopes,
{
}

/// The request for a token shows the code, where the answer was to go, and the
/// verifier that was kept. GitHub gets the secret of the client in it, Slack
/// beside it, and no other provider gets it at all.
pub proof fn codes_are_exchanged(
    clients: Map<Seq<char>, ClientView>,
    flows: Map<Seq<char>, FlowView>,
    code: Seq<char>,
    state: Seq<char>,
    now: u64,
    key: Seq<char>,
    value: Seq<char>,
)
    requires
        flows.dom().contains(state),
        clients.dom().contains(flows[state].server_id),
        now <= flows[state].created_at + flows[state].timeout,
    ensures
        ({
            let f = flows[state];
            let c = clients[f.server_id];
            exchange_outcome(clients, flows, code, state, now) matches Ok(q) && {
                &&& q.server_id == f.server_id
                &&& q.url == c.token_endpoint
                &&& q.form_reply <==> c.provider_kind is Github
                &&& q.form.contains((key, value)) <==> {
                    ||| key == "grant_type"@ && value == "authorization_code"@
                    ||| key == "code"@ && value == code
                    ||| key == "redirect_uri"@ && value == c.redirect_uri
                    ||| key == "client_id"@ && value == c.client_id
                    ||| key == "code_verifier"@ && f.code_verifier == Some(value)
                    ||| key == "client_secret"@ && c.provider_kind is Github && c.client_secret == Some(
                        value,
                    )
                }
                &&& q.basic_auth == Some((key, value)) <==> c.provider_kind is Slack && key == c.client_id
                    && c.client_secret == Some(value)
            }
        }),
{
    let f = flows[state];
    let c = clients[f.server_id];
    let form = exchange_form(c, f, code);
    let first = seq![
        ("grant_type"@, "authorization_code"@),
        ("code"@, code),
        ("redirect_uri"@, c.redirect_uri),
        ("client_id"@, c.client_id),
    ];
    let second = verifier_field(f.code_verifier);
    let third = secret_field(c);
    assert(first[0] == ("grant_type"@, "authorization_code"@));
    assert(first[1] == ("code"@, code));
    assert(first[2] == ("redirect_uri"@, c.redirect_uri));
    assert(first[3] == ("client_id"@, c.client_id));
    lemma_contains_parts(first, second + third, (key, value));
    lemma_contains_parts(second, third, (key, value));
    assert(form =~= first + (second + third));
    if let Some(v) = f.code_verifier {
        assert(second[0] == ("code_verifier"@, v));
    }
    if let Some(v) = c.client_secret {
        if c.provider_kind is Github {
            assert(third[0] == ("client_secret"@, v));
        }
    }
}

proof fn lemma_contains_parts<T>(a: Seq<T>, b: Seq<T>, x: T)
    ensures
        (a + b).contains(x) <==> a.contains(x) || b.contains(x),
{
    if a.contains(x) {
        let k = choose|k: int| 0 <= k < a.len() && a[k] == x;
        assert((a + b)[k] == x);
    }
    if b.contains(x) {
        let k = choose|k: int| 0 <= k < b.len() && b[k] == x;
        assert((a + b)[a.len() + k] == x);
    }
}

/// The request for another token shows the token that was kept for it.
pub proof fn tokens_are_asked_for_again(
    clients: Map<Seq<char>, ClientView>,
    b: BrokerView,
    lease_id: Seq<char>,
    key: Seq<char>,
    value: Seq<char>,
)
    requires
        b.refresh_tokens.dom().contains(lease_id),
        clients.dom().contains(b.refresh_tokens[lease_id].0),
    ensures
        ({
            let (server_id, token) = b.refresh_tokens[lease_id];
            let c = clients[server_id];
            refresh_outcome(clients, b, lease_id) matches Ok(q) && {
                &&& q.server_id == server_id
                &&& q.url == c.token_endpoint
                &&& q.form.contains((key, value)) <==> {
                    ||| key == "grant_type"@ && value == "refresh_token"@
                    ||| key == "refresh_token"@ && value == token
                    ||| key == "client_id"@ && value == c.client_id
                    ||| key == "client_secret"@ && c.provider_kind is Github && c.client_secret == Some(
                        value,
                    )
                }
                &&& q.basic_auth == Some((key, value)) <==> c.provider_kind is Slack && key == c.client_id
                    && c.client_secret == Some(value)
            }
        }),
{
    let (server_id, token) = b.refresh_tokens[lease_id];
    let c = clients[server_id];
    let first = seq![
        ("grant_type"@, "refresh_token"@),
        ("refresh_token"@, token),
        ("client_id"@, c.client_id),
    ];
    let second = secret_field(c);
    assert(first[0] == ("grant_type"@, "refresh_token"@));
    assert(first[1] == ("refresh_token"@, token));
    assert(first[2] == ("client_id"@, c.client_id));
    lemma_contains_parts(first, second, (key, value));
    if let Some(v) = c.client_secret {
        if c.provider_kind is Github {
            assert(second[0] == ("client_secret"@, v));
        }
    }
}

/// When a code is not exchanged: where no flow has the state, where the flow is
/// too old, and where its server is no longer known, in this order.
pub proof fn codes_are_refused(
    clients: Map<Seq<char>, ClientView>,
    flows: Map<Seq<char>, FlowView>,
    code: Seq<char>,
    state: Seq<char>,
    now: u64,
)
    ensures
        ({
            let r = exchange_outcome(clients, flows, code, state, now);
            let f = flows[state];
            let known = flows.dom().contains(state);
            let late = now > f.created_at + f.timeout;
            &&& !known ==> (r matches Err(FlowError::StateMismatch(x, y)) && y == state)
            &&& known && late ==> (r matches Err(FlowError::StateExpired(id)) && id == f.server_id)
            &&& known && !late && !clients.dom().contains(f.server_id) ==> (r matches Err(
                FlowError::MissingServerConfig(id),
            ) && id == f.server_id)
            &&& known && !late && clients.dom().contains(f.server_id) ==> r is Ok
        }),
{
}

/// When no other token is asked for: where none was kept, and where the server
/// is no longer known.
pub proof fn refreshes_are_refused(
    clients: Map<Seq<char>, ClientView>,
    b: BrokerView,
    lease_id: Seq<char>,
)
    ensures
        !b.refresh_tokens.dom().contains(lease_id) ==> (refresh_outcome(clients, b, lease_id) matches Err(
            FlowError::Protocol(_),
        )),
        b.refresh_tokens.dom().contains(lease_id) && !clients.dom().contains(
            b.refresh_tokens[lease_id].0,
        ) ==> (refresh_outcome(clients, b, lease_id) matches Err(FlowError::MissingServerConfig(id)) && id
            == b.refresh_tokens[lease_id].0),
{
}

/// What a form body says of a token: its text, its kind and its scope, each
/// under its key. Without a text there is no token.
pub proof fn form_bodies_hold_tokens(body: Seq<char>)
    ensures
        form_token(body) is Some <==> form_value_of(body, "access_token"@) is Some,
        form_token(body) matches Some(t) ==> {
            &&& form_value_of(body, "access_token"@) == Some(t.access_token)
            &&& form_value_of(body, "token_type"@) matches Some(k) ==> t.token_type == k
            &&& form_value_of(body, "token_type"@) is None ==> t.token_type == "bearer"@
            &&& t.scope == form_value_of(body, "scope"@)
            &&& t.refresh_token is None
            &&& t.expires_in is None
        },
{
}

/// A token that a reply holds is taken. A form body is read only where the
/// provider answers so and the reply is nothing else.
pub proof fn replies_with_tokens_are_taken(form_reply: bool, t: TokenResponse, e: String, body: Vec<u8>)
    ensures
        exchanged_token(form_reply, TokenReply::Body { decoded: Ok(t), body }) == Ok::<
            TokenView,
            FlowError,
        >(t@),
        refreshed_token(TokenReply::Body { decoded: Ok(t), body }) == Ok::<TokenView, FlowError>(t@),
        exchanged_token(true, TokenReply::Body { decoded: Err(e), body }) is Ok <==> form_token(
            utf8_lossy_of(body@),
        ) is Some,
        form_token(utf8_lossy_of(body@)) matches Some(u) ==> exchanged_token(
            true,
            TokenReply::Body { decoded: Err(e), body },
        ) == Ok::<TokenView, FlowError>(u),
        exchanged_token(false, TokenReply::Body { decoded: Err(e), body }) is Err,
        refreshed_token(TokenReply::Body { decoded: Err(e), body }) is Err,
{
}

/// A reply without a body is no token, and says what went wrong.
pub proof fn other_replies_are_failures(form_reply: bool, m: String, status: String, body: Option<String>)
    ensures
        exchanged_token(form_reply, TokenReply::NoClient(m)) matches Err(FlowError::Http(s)) && has_suffix(
            s,
            m@,
        ),
        exchanged_token(form_reply, TokenReply::NotSent(m)) matches Err(FlowError::Http(s)) && has_suffix(
            s,
            m@,
        ),
        exchanged_token(form_reply, TokenReply::Unreadable(m)) matches Err(FlowError::Http(s)) && has_suffix(
            s,
            m@,
        ),
        exchanged_token(form_reply, TokenReply::Refused { status, body }) matches Err(
            FlowError::InvalidTokenResponse(s),
        ) && s == "status="@ + status@ + ", body="@ + (match body {
            Some(b) => b@,
            None => "<unreadable body>"@,
        }),
        refreshed_token(TokenReply::Refused { status, body }) matches Err(
            FlowError::InvalidTokenResponse(s),
        ) && s == "refresh status="@ + status@ + ", body="@ + (match body {
            Some(b) => b@,
            None => "<unreadable body>"@,
        }),
        refreshed_token(TokenReply::NoClient(m)) matches Err(FlowError::Http(s)) && has_suffix(s, m@),
        refreshed_token(TokenReply::NotSent(m)) matches Err(FlowError::Http(s)) && has_suffix(s, m@),
        refreshed_token(TokenReply::Unreadable(m)) matches Err(FlowError::InvalidTokenResponse(s))
            && has_suffix(s, m@),
{
    lemma_suffix("build client: "@, m@);
    lemma_suffix("token POST: "@, m@);
    lemma_suffix("read token body: "@, m@);
    lemma_suffix("refresh POST: "@, m@);
    lemma_suffix("decode json: "@, m@);
}

proof fn lemma_suffix(a: Seq<char>, b: Seq<char>)
    ensures
        has_suffix(a + b, b),
{
    assert((a + b).skip((a + b).len() - b.len()) =~= b);
}

/// A token that came for a server is what a lease for the server gives, and the
/// token for asking again is kept with the lease.
pub proof fn tokens_are_kept_for_their_server(
    b: BrokerView,
    server_id: Seq<char>,
    t: TokenView,
    audience: Seq<char>,
    uuid: u128,
    process_id: u32,
    utc: i64,
    now: u64,
    other: Seq<char>,
)
    ensures
        ({
            let l = new_lease("oauth:"@ + server_id, audience, uuid, process_id, utc, b.epoch);
            let b1 = broker_with_token(b, server_id, t, l, now);
            &&& redemption(b1, l, audience, now).1 == Ok::<Seq<char>, LeaseError>(t.access_token)
            &&& (t.refresh_token matches Some(rt)) ==> b1.refresh_tokens.dom().contains(l.lease_id)
                && b1.refresh_tokens[l.lease_id] == (server_id, t.refresh_token->0)
            &&& t.refresh_token is None ==> b1.refresh_tokens == b.refresh_tokens
            &&& other != "oauth:"@ + server_id ==> (b1.tokens.dom().contains(other)
                <==> b.tokens.dom().contains(other)) && b1.tokens[other] == b.tokens[other]
            &&& b1.epoch == b.epoch
            &&& b1.durable == b.durable
        }),
{
    let p = "oauth:"@ + server_id;
    let l = new_lease(p, audience, uuid, process_id, utc, b.epoch);
    assert(crate::auth::lease::provider_of(crate::auth::lease::handle_of(p)) =~= p);
    let b1 = broker_with_token(b, server_id, t, l, now);
    assert(b1.leases[l.lease_id].lease == l);
}

/// A lease that was given back is gone, with the token for asking again.
pub proof fn returned_leases_are_gone(
    clients: Map<Seq<char>, ClientView>,
    b: BrokerView,
    lease_id: Seq<char>,
    other: Seq<char>,
)
    ensures
        ({
            let b1 = without_lease(b, lease_id);
            &&& !b1.leases.dom().contains(lease_id)
            &&& refresh_outcome(clients, b1, lease_id) is Err
            &&& other != lease_id ==> refresh_outcome(clients, b1, other) == refresh_outcome(
                clients,
                b,
                other,
            )
            &&& other != lease_id ==> b1.leases[other] == b.leases[other]
            &&& b1.tokens == b.tokens
        }),
{
}

/// The messages of a flow that failed hold what it was about.
pub proof fn failures_say_what_they_are_about(s: Seq<char>, x: Seq<char>)
    ensures
        flow_error_text(FlowError::MissingServerConfig(s)) == "missing OAuth client config for server id '"@
            + s + "'"@,
        flow_error_text(FlowError::StateExpired(s)) == "state token expired for server id '"@ + s + "'"@,
        has_suffix(flow_error_text(FlowError::StateMismatch(x, s)), x + "', received '"@ + s + "'"@),
        has_suffix(flow_error_text(FlowError::Http(s)), s),
        has_suffix(flow_error_text(FlowError::InvalidTokenResponse(s)), s),
        has_suffix(flow_error_text(FlowError::Protocol(s)), s),
        flow_error_text(FlowError::CredentialStore(s)) == s,
{
    lemma_suffix("OAuth HTTP request failed: "@, s);
    lemma_suffix("token endpoint returned invalid response: "@, s);
    lemma_suffix("OAuth protocol error: "@, s);
    let h = "state token mismatch: expected '"@;
    let t = x + "', received '"@ + s + "'"@;
    lemma_suffix(h, t);
    assert(h + x + "', received '"@ + s + "'"@ =~= h + t);
}

/// The names of the providers.
pub proof fn providers_have_names(s: Seq<char>)
    ensures
        kind_text(KindView::Standard) == "standard"@,
        kind_text(KindView::Github) == "github"@,
        kind_text(KindView::Slack) == "slack"@,
        kind_text(KindView::Linear) == "linear"@,
        kind_text(KindView::Custom(s)) == "custom("@ + s + ")"@,
{
}

/// The lease for a token is for the server that it came for, at the endpoint that
/// gave it, and good for one use.
pub proof fn tokens_are_leased_to_their_server(
    l: crate::auth::types::LeaseView,
    request: RequestView,
    process_id: u32,
    epoch: u64,
)
    requires
        is_server_lease(l, request, process_id, epoch),
    ensures
        l.handle_id == "handle-"@ + ("oauth:"@ + request.server_id),
        l.endpoint_binding == request.url,
        l.max_uses == 1,
        l.revocation_epoch == epoch,
        l.issued_to_process_identity == crate::text::decimal(process_id as nat),
{
}

/// A flow leads to a URL for the scopes that are wished for, or else for those of
/// the client.
pub proof fn flows_lead_to_their_url(
    c: ClientView,
    server_id: Seq<char>,
    hint: Seq<Seq<char>>,
    state: Seq<char>,
    nonce: Seq<char>,
    verifier: Seq<char>,
    now: u64,
    timeout: u64,
    r: Result<String, McpoAuthError>,
)
    requires
        is_flow(c, server_id, hint, state, nonce, verifier, now, timeout, r),
    ensures
        r is Ok,
        hint.len() > 0 ==> r->Ok_0@ == authorization_url(c, hint, state, nonce, verifier),
        hint.len() == 0 ==> r->Ok_0@ == authorization_url(c, c.scopes, state, nonce, verifier),
{
}

/// What is known of a server is looked for beside its token endpoint.
pub proof fn servers_are_described_beside_their_endpoint(
    token_endpoint: Seq<char>,
    r: Result<DiscoveryStep, McpoAuthError>,
    base: Seq<char>,
    u: Seq<char>,
)
    requires
        discovery_result(token_endpoint, r),
    ensures
        crate::auth::urls::url_parse_of(token_endpoint) is Err ==> r is Err,
        crate::auth::urls::url_parse_of(token_endpoint) == Ok::<Seq<char>, Seq<char>>(base) ==> {
            &&& crate::auth::urls::url_join_of(base, ".well-known/openid-configuration"@) == Ok::<
                Seq<char>,
                Seq<char>,
            >(u) ==> (r matches Ok(DiscoveryStep::Fetch(s)) && s@ == u)
            &&& crate::auth::urls::url_join_of(base, ".well-known/openid-configuration"@) is Err ==> r is Err
        },
{
}

} // verus!
