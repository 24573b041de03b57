//! The broker: it alone holds tokens, and gives them out against leases that
//! are bounded in time, place and number.
//!
//! `now` is in nanoseconds on a monotonic clock.

use vstd::prelude::*;
use vstd::string::*;

use crate::auth::types::{CredentialLease, LeaseView};
use crate::clock::utc_now_micros;
use crate::domain::id::{random_uuid, uuid_text, uuid_text_of};
use crate::strmap::StrMap;
use crate::text::{
    chars_of, decimal, decimal_string, has_prefix, opt_view, owned, same, string_of,
};

verus! {

/// Why the broker failed.
#[derive(Debug, PartialEq, Eq)]
pub enum CredentialError {
    SecretStore(String),
    InitFailed(String),
}

/// The message of an error.
pub open spec fn credential_error_text(e: CredentialError) -> Seq<char> {
    match e {
        CredentialError::SecretStore(m) => "credential secret store error: "@ + m@,
        CredentialError::InitFailed(m) => "credential broker init failed: "@ + m@,
    }
}

impl CredentialError {
    /// The message of the error.
    pub fn message(&self) -> (r: String)
        ensures
            r@ == credential_error_text(*self),
    {
        match self {
            CredentialError::SecretStore(m) => {
                let mut s = owned("credential secret store error: ");
                s.append(m.as_str());
                s
            },
            CredentialError::InitFailed(m) => {
                let mut s = owned("credential broker init failed: ");
                s.append(m.as_str());
                s
            },
        }
    }
}

/// Why a lease was not honoured.
#[derive(Debug, Clone, Copy, PartialEq, Eq, Structural)]
pub enum LeaseError {
    /// The broker does not know it.
    Unknown,
    /// Its time is over.
    Expired,
    /// It was used up.
    Exhausted,
    /// It is for another endpoint.
    EndpointMismatch,
    /// It was issued in an earlier epoch.
    Revoked,
}

/// The message of an error.
pub open spec fn lease_error_text(e: LeaseError) -> Seq<char> {
    match e {
        LeaseError::Unknown => "unknown lease"@,
        LeaseError::Expired => "lease expired"@,
        LeaseError::Exhausted => "lease uses exhausted"@,
        LeaseError::EndpointMismatch => "lease endpoint mismatch"@,
        LeaseError::Revoked => "lease revoked (epoch advanced)"@,
    }
}

impl LeaseError {
    /// The message of the error.
    pub fn message(&self) -> (r: &'static str)
        ensures
            r@ == lease_error_text(*self),
    {
        match self {
            LeaseError::Unknown => "unknown lease",
            LeaseError::Expired => "lease expired",
            LeaseError::Exhausted => "lease uses exhausted",
            LeaseError::EndpointMismatch => "lease endpoint mismatch",
            LeaseError::Revoked => "lease revoked (epoch advanced)",
        }
    }
}

/// How long a lease lasts, in nanoseconds.
pub const LEASE_TTL: u64 = 300_000_000_000;

/// How long a lease lasts, in microseconds.
pub const LEASE_TTL_MICROS: i64 = 300_000_000;

/// A lease as the broker keeps it. It holds no token.
#[derive(Debug)]
pub struct ActiveLease {
    pub lease: CredentialLease,
    pub issued_at: u64,
    pub ttl: u64,
    pub use_count: u32,
}

/// The mathematical value of an [`ActiveLease`].
pub struct ActiveView {
    pub lease: LeaseView,
    pub issued_at: u64,
    pub ttl: u64,
    pub use_count: u32,
}

impl View for ActiveLease {
    type V = ActiveView;

    open spec fn view(&self) -> ActiveView {
        ActiveView {
            lease: self.lease@,
            issued_at: self.issued_at,
            ttl: self.ttl,
            use_count: self.use_count,
        }
    }
}

impl ActiveView {
    /// How long ago the lease was issued.
    pub open spec fn age(self, now: u64) -> int {
        if now < self.issued_at {
            0
        } else {
            now - self.issued_at
        }
    }

    /// Whether the lease has uses and time left.
    pub open spec fn valid(self, now: u64) -> bool {
        self.use_count < self.lease.max_uses && self.age(now) < self.ttl
    }
}

impl ActiveLease {
    /// Whether the lease has uses and time left.
    pub fn is_valid(&self, now: u64) -> (r: bool)
        ensures
            r == self@.valid(now),
    {
        let age: u64 = if now < self.issued_at {
            0
        } else {
            now - self.issued_at
        };
        self.use_count < self.lease.max_uses && age < self.ttl
    }

    /// The number of uses left.
    pub fn remaining_uses(&self) -> (r: u32)
        ensures
            r == (if self.use_count < self.lease.max_uses {
                self.lease.max_uses - self.use_count
            } else {
                0
            }),
    {
        if self.use_count < self.lease.max_uses {
            self.lease.max_uses - self.use_count
        } else {
            0
        }
    }
}

/// The broker.
#[derive(Debug)]
pub struct CredentialBroker {
    master_tokens: StrMap<String>,
    leases: StrMap<ActiveLease>,
    refresh_tokens: StrMap<(String, String)>,
    revocation_epoch: u64,
    durable: bool,
}

/// The mathematical value of a [`CredentialBroker`].
pub struct BrokerView {
    /// The token of each provider.
    pub tokens: Map<Seq<char>, Seq<char>>,
    /// The leases by identifier.
    pub leases: Map<Seq<char>, ActiveView>,
    /// For a lease, the server and the token that renews it.
    pub refresh_tokens: Map<Seq<char>, (Seq<char>, Seq<char>)>,
    pub epoch: u64,
    /// Whether tokens are also kept in a secret store.
    pub durable: bool,
}

/// A broker without tokens.
pub open spec fn empty_broker(durable: bool) -> BrokerView {
    BrokerView {
        tokens: Map::empty(),
        leases: Map::empty(),
        refresh_tokens: Map::empty(),
        epoch: 1,
        durable,
    }
}

/// The handle of a provider.
pub open spec fn handle_of(provider: Seq<char>) -> Seq<char> {
    "handle-"@ + provider
}

/// The provider of a handle.
pub open spec fn provider_of(handle: Seq<char>) -> Seq<char> {
    handle.skip("handle-"@.len() as int)
}

/// The lease that is issued for a provider and an endpoint.
pub open spec fn new_lease(
    provider: Seq<char>,
    audience: Seq<char>,
    uuid: u128,
    process_id: u32,
    utc: i64,
    epoch: u64,
) -> LeaseView {
    LeaseView {
        lease_id: "lease-"@ + provider + "-"@ + uuid_text_of(uuid),
        handle_id: handle_of(provider),
        endpoint_binding: audience,
        issued_to_process_identity: decimal(process_id as nat),
        max_uses: 1,
        expires_at: (utc + LEASE_TTL_MICROS) as i64,
        revocation_epoch: epoch,
    }
}

/// The broker after it issued a lease at `now`.
pub open spec fn after_issue(b: BrokerView, l: LeaseView, now: u64) -> BrokerView {
    BrokerView {
        leases: b.leases.insert(
            l.lease_id,
            ActiveView { lease: l, issued_at: now, ttl: LEASE_TTL, use_count: 0 },
        ),
        ..b
    }
}

/// The lease with one more use.
pub open spec fn used_once(a: ActiveView) -> ActiveView {
    ActiveView { use_count: (a.use_count + 1) as u32, ..a }
}

/// What comes of a lease, and the broker afterwards.
pub open spec fn redemption(b: BrokerView, l: LeaseView, audience: Seq<char>, now: u64) -> (
    BrokerView,
    Result<Seq<char>, LeaseError>,
) {
    if l.revocation_epoch != b.epoch {
        (b, Err(LeaseError::Revoked))
    } else if l.endpoint_binding != audience {
        (b, Err(LeaseError::EndpointMismatch))
    } else if !b.leases.dom().contains(l.lease_id) {
        (b, Err(LeaseError::Unknown))
    } else {
        let a = b.leases[l.lease_id];
        if !a.valid(now) {
            (
                BrokerView { leases: b.leases.remove(l.lease_id), ..b },
                Err(
                    if a.use_count >= a.lease.max_uses {
                        LeaseError::Exhausted
                    } else {
                        LeaseError::Expired
                    },
                ),
            )
        } else {
            let p = provider_of(a.lease.handle_id);
            (
                BrokerView { leases: b.leases.insert(l.lease_id, used_once(a)), ..b },
                if b.tokens.dom().contains(p) {
                    Ok(b.tokens[p])
                } else {
                    Err(LeaseError::Unknown)
                },
            )
        }
    }
}

/// A lease that was just issued is honoured at its endpoint with the token of
/// its provider.
pub proof fn lease_roundtrip(
    b: BrokerView,
    l: LeaseView,
    provider: Seq<char>,
    audience: Seq<char>,
    now: u64,
)
    requires
        b.tokens.dom().contains(provider),
        l.handle_id == handle_of(provider),
        l.endpoint_binding == audience,
        l.max_uses == 1,
        l.revocation_epoch == b.epoch,
    ensures
        redemption(after_issue(b, l, now), l, audience, now).1 == Ok::<Seq<char>, LeaseError>(
            b.tokens[provider],
        ),
{
    assert(provider_of(handle_of(provider)) =~= provider);
}

/// The token of a provider that is registered. No name at all stands for the
/// provider `default`.
pub open spec fn token_for(b: BrokerView, provider: Seq<char>) -> Option<Seq<char>> {
    let name = if provider.len() == 0 {
        "default"@
    } else {
        provider
    };
    if b.tokens.dom().contains(name) {
        Some(b.tokens[name])
    } else {
        None
    }
}

/// The key of a provider's token in a secret store.
pub open spec fn secret_key(provider: Seq<char>) -> Seq<char> {
    "master:"@ + provider
}

/// What is to be done to have the token of a provider at hand.
#[derive(Debug)]
pub enum HydrateStep {
    /// Nothing: it is.
    Ready,
    /// Nothing can be done: there is no secret store.
    NoStore,
    /// The secret store is to be asked for this key.
    Ask(String),
}

impl View for CredentialBroker {
    type V = BrokerView;

    closed spec fn view(&self) -> BrokerView {
        BrokerView {
            tokens: self.master_tokens@.map_values(|t: String| t@),
            leases: self.leases@.map_values(|a: ActiveLease| a@),
            refresh_tokens: self.refresh_tokens@.map_values(|p: (String, String)| (p.0@, p.1@)),
            epoch: self.revocation_epoch,
            durable: self.durable,
        }
    }
}

impl CredentialBroker {
    /// The broker is sound: every lease is kept under its identifier and has a
    /// handle of a provider.
    pub closed spec fn wf(&self) -> bool {
        &&& self.master_tokens.wf()
        &&& self.leases.wf()
        &&& self.refresh_tokens.wf()
        &&& forall|id: Seq<char>| #[trigger]
            self@.leases.dom().contains(id) ==> self@.leases[id].lease.lease_id == id && has_prefix(
                self@.leases[id].lease.handle_id,
                "handle-"@,
            )
    }

    fn with_durability(durable: bool) -> (r: Self)
        ensures
            r.wf(),
            r@ == empty_broker(durable),
    {
        let r = CredentialBroker {
            master_tokens: StrMap::new(),
            leases: StrMap::new(),
            refresh_tokens: StrMap::new(),
            revocation_epoch: 1,
            durable,
        };
        assert(r@.tokens =~= Map::empty());
        assert(r@.leases =~= Map::empty());
        assert(r@.refresh_tokens =~= Map::empty());
        r
    }

    /// A broker with the token of the provider `default`.
    pub fn new(master_token: String) -> (r: Self)
        ensures
            r.wf(),
            r@ == (BrokerView {
                tokens: Map::empty().insert("default"@, master_token@),
                ..empty_broker(false)
            }),
    {
        let mut b = Self::with_durability(false);
        b.register_provider("default", master_token);
        b
    }

    /// A broker without tokens.
    pub fn empty() -> (r: Self)
        ensures
            r.wf(),
            r@ == empty_broker(false),
    {
        Self::with_durability(false)
    }

    /// A broker without tokens, beside a secret store.
    pub fn with_secret_store() -> (r: Self)
        ensures
            r.wf(),
            r@ == empty_broker(true),
    {
        Self::with_durability(true)
    }

    /// Keeps the token that renews a lease.
    pub(crate) fn store_refresh_token(
        &mut self,
        lease_id: String,
        server_id: String,
        refresh_token: String,
    )
        requires
            old(self).wf(),
        ensures
            final(self).wf(),
            final(self)@ == (BrokerView {
                refresh_tokens: old(self)@.refresh_tokens.insert(
                    lease_id@,
                    (server_id@, refresh_token@),
                ),
                ..old(self)@
            }),
    {
        let ghost before = self@;
        let ghost k = lease_id@;
        let ghost v = (server_id@, refresh_token@);
        let _ = self.refresh_tokens.insert(lease_id, (server_id, refresh_token));
        assert(self@.refresh_tokens =~= before.refresh_tokens.insert(k, v));
        assert(self@.leases =~= before.leases);
        assert(self@.tokens =~= before.tokens);
    }

    /// The server and the token that renew a lease.
    pub(crate) fn get_refresh_token(&self, lease_id: &str) -> (r: Option<(String, String)>)
        requires
            self.wf(),
        ensures
            match r {
                Some(p) => self@.refresh_tokens.dom().contains(lease_id@)
                    && self@.refresh_tokens[lease_id@] == (p.0@, p.1@),
                None => !self@.refresh_tokens.dom().contains(lease_id@),
            },
    {
        match self.refresh_tokens.get(lease_id) {
            Some(p) => Some((p.0.clone(), p.1.clone())),
            None => None,
        }
    }

    /// Forgets a lease and the token that renews it.
    pub(crate) fn revoke_by_id(&mut self, lease_id: &str)
        requires
            old(self).wf(),
        ensures
            final(self).wf(),
            final(self)@ == (BrokerView {
                leases: old(self)@.leases.remove(lease_id@),
                refresh_tokens: old(self)@.refresh_tokens.remove(lease_id@),
                ..old(self)@
            }),
    {
        let ghost before = self@;
        let _ = self.leases.remove(lease_id);
        let _ = self.refresh_tokens.remove(lease_id);
        assert(self@.leases =~= before.leases.remove(lease_id@));
        assert(self@.refresh_tokens =~= before.refresh_tokens.remove(lease_id@));
        assert(self@.tokens =~= before.tokens);
    }

    /// Sets the token of a provider. Leases are not touched.
    pub fn register_provider(&mut self, provider_id: &str, master_token: String)
        requires
            old(self).wf(),
        ensures
            final(self).wf(),
            final(self)@ == (BrokerView {
                tokens: old(self)@.tokens.insert(provider_id@, master_token@),
                ..old(self)@
            }),
    {
        let ghost before = self@;
        let ghost t = master_token@;
        let _ = self.master_tokens.insert(owned(provider_id), master_token);
        assert(self@.tokens =~= before.tokens.insert(provider_id@, t));
        assert(self@.leases =~= before.leases);
        assert(self@.refresh_tokens =~= before.refresh_tokens);
    }

    /// Whether tokens are also kept in a secret store.
    pub fn has_secret_store(&self) -> (r: bool)
        ensures
            r == self@.durable,
    {
        self.durable
    }

    /// What to write to the secret store so that the token of a provider
    /// outlives the process: key and token. Nothing without a store or a token.
    pub fn persist_provider(&self, provider_id: &str) -> (r: Option<(String, String)>)
        requires
            self.wf(),
        ensures
            match r {
                Some(p) => self@.durable && self@.tokens.dom().contains(provider_id@) && p.0@
                    == secret_key(provider_id@) && p.1@ == self@.tokens[provider_id@],
                None => !(self@.durable && self@.tokens.dom().contains(provider_id@)),
            },
    {
        if !self.durable {
            return None;
        }
        match self.master_tokens.get(provider_id) {
            Some(t) => {
                let mut key = owned("master:");
                key.append(provider_id);
                Some((key, t.clone()))
            },
            None => None,
        }
    }

    /// What to do to have the token of a provider at hand.
    pub fn hydrate_step(&self, provider_id: &str) -> (r: HydrateStep)
        requires
            self.wf(),
        ensures
            match r {
                HydrateStep::Ready => self@.tokens.dom().contains(provider_id@),
                HydrateStep::NoStore => !self@.tokens.dom().contains(provider_id@)
                    && !self@.durable,
                HydrateStep::Ask(k) => !self@.tokens.dom().contains(provider_id@) && self@.durable
                    && k@ == secret_key(provider_id@),
            },
    {
        if self.master_tokens.contains(provider_id) {
            return HydrateStep::Ready;
        }
        if !self.durable {
            return HydrateStep::NoStore;
        }
        let mut key = owned("master:");
        key.append(provider_id);
        HydrateStep::Ask(key)
    }

    /// Takes over what the secret store has for a provider, unless it is
    /// empty. Says whether there is a token now.
    pub fn hydrate_provider(&mut self, provider_id: &str, stored: Option<String>) -> (r: bool)
        requires
            old(self).wf(),
        ensures
            final(self).wf(),
            ({
                let had = old(self)@.tokens.dom().contains(provider_id@);
                let usable = old(self)@.durable && (opt_view(stored) matches Some(t) && t.len() > 0);
                &&& r == (had || usable)
                &&& final(self)@ == (if !had && usable {
                    BrokerView {
                        tokens: old(self)@.tokens.insert(provider_id@, opt_view(stored)->0),
                        ..old(self)@
                    }
                } else {
                    old(self)@
                })
            }),
    {
        if self.master_tokens.contains(provider_id) {
            return true;
        }
        if !self.durable {
            return false;
        }
        match stored {
            Some(t) => {
                if t.as_str().is_empty() {
                    false
                } else {
                    self.register_provider(provider_id, t);
                    true
                }
            },
            None => false,
        }
    }

    /// Begins a new epoch: every lease so far is void.
    pub fn revoke_all(&mut self)
        requires
            old(self).wf(),
            old(self)@.epoch < u64::MAX,
        ensures
            final(self).wf(),
            final(self)@ == (BrokerView {
                epoch: (old(self)@.epoch + 1) as u64,
                leases: Map::empty(),
                ..old(self)@
            }),
    {
        let ghost before = self@;
        self.revocation_epoch = self.revocation_epoch + 1;
        self.leases = StrMap::new();
        assert(self@.leases =~= Map::empty());
        assert(self@.tokens =~= before.tokens);
        assert(self@.refresh_tokens =~= before.refresh_tokens);
    }

    /// The current epoch.
    pub fn revocation_epoch(&self) -> (r: u64)
        ensures
            r == self@.epoch,
    {
        self.revocation_epoch
    }

    /// Issues a lease for one use at an endpoint. There is none where the
    /// provider has no token.
    pub fn issue_lease(&mut self, provider_id: &str, audience: &str, process_id: u32, now: u64) -> (r:
        Option<CredentialLease>)
        requires
            old(self).wf(),
        ensures
            final(self).wf(),
            match r {
                Some(l) => old(self)@.tokens.dom().contains(provider_id@) && final(self)@
                    == after_issue(old(self)@, l@, now) && (exists|uuid: u128, utc: i64|
                    l@ == #[trigger] new_lease(
                        provider_id@,
                        audience@,
                        uuid,
                        process_id,
                        utc,
                        old(self)@.epoch,
                    )),
                None => !old(self)@.tokens.dom().contains(provider_id@) && final(self)@ == old(self)@,
            },
    {
        let uuid: u128 = random_uuid();
        let utc: i64 = utc_now_micros();
        self.issue_lease_with(provider_id, audience, uuid, process_id, utc, now)
    }

    /// Issues a lease with a given identifier at a given time of day.
    pub fn issue_lease_with(
        &mut self,
        provider_id: &str,
        audience: &str,
        uuid: u128,
        process_id: u32,
        utc: i64,
        now: u64,
    ) -> (r: Option<CredentialLease>)
        requires
            old(self).wf(),
            utc + LEASE_TTL_MICROS <= i64::MAX,
        ensures
            final(self).wf(),
            match r {
                Some(l) => old(self)@.tokens.dom().contains(provider_id@) && l@ == new_lease(
                    provider_id@,
                    audience@,
                    uuid,
                    process_id,
                    utc,
                    old(self)@.epoch,
                ) && final(self)@ == after_issue(old(self)@, l@, now),
                None => !old(self)@.tokens.dom().contains(provider_id@) && final(self)@ == old(self)@,
            },
    {
        let ghost before = self@;
        if !self.master_tokens.contains(provider_id) {
            return None;
        }
        let mut lease_id = owned("lease-");
        lease_id.append(provider_id);
        lease_id.append("-");
        lease_id.append(uuid_text(uuid).as_str());
        let mut handle_id = owned("handle-");
        handle_id.append(provider_id);
        let lease = CredentialLease {
            lease_id: lease_id.clone(),
            handle_id,
            endpoint_binding: owned(audience),
            issued_to_process_identity: decimal_string(process_id as u64),
            max_uses: 1,
            expires_at: utc + LEASE_TTL_MICROS,
            revocation_epoch: self.revocation_epoch,
        };
        let active = ActiveLease {
            lease: lease.clone(),
            issued_at: now,
            ttl: LEASE_TTL,
            use_count: 0,
        };
        let ghost a = active@;
        let ghost k = lease_id@;
        let _ = self.leases.insert(lease_id, active);
        proof {
            assert(self@.leases =~= before.leases.insert(k, a));
            assert(self@.tokens =~= before.tokens);
            assert(self@.refresh_tokens =~= before.refresh_tokens);
            assert(a.lease.handle_id.take("handle-"@.len() as int) =~= "handle-"@);
        }
        Some(lease)
    }

    /// Redeems a lease for the token of its provider. Its epoch, its endpoint,
    /// its time and its uses are checked, and one use is taken.
    pub fn resolve(&mut self, lease: &CredentialLease, audience: &str, now: u64) -> (r: Result<
        String,
        LeaseError,
    >)
        requires
            old(self).wf(),
        ensures
            final(self).wf(),
            final(self)@ == redemption(old(self)@, lease@, audience@, now).0,
            match redemption(old(self)@, lease@, audience@, now).1 {
                Ok(t) => r matches Ok(s) && s@ == t,
                Err(e) => r matches Err(x) && x == e,
            },
    {
        let ghost before = self@;
        if lease.revocation_epoch != self.revocation_epoch {
            return Err(LeaseError::Revoked);
        }
        if !same(lease.endpoint_binding.as_str(), audience) {
            return Err(LeaseError::EndpointMismatch);
        }
        let (valid, exhausted, used) = match self.leases.get(lease.lease_id.as_str()) {
            Some(a) => {
                let valid = a.is_valid(now);
                let count: u32 = if valid {
                    a.use_count + 1
                } else {
                    a.use_count
                };
                let used = ActiveLease {
                    lease: a.lease.clone(),
                    issued_at: a.issued_at,
                    ttl: a.ttl,
                    use_count: count,
                };
                (valid, a.use_count >= a.lease.max_uses, used)
            },
            None => {
                return Err(LeaseError::Unknown);
            },
        };
        if !valid {
            let _ = self.leases.remove(lease.lease_id.as_str());
            assert(self@.leases =~= before.leases.remove(lease.lease_id@));
            assert(self@.tokens =~= before.tokens);
            assert(self@.refresh_tokens =~= before.refresh_tokens);
            return Err(
                if exhausted {
                    LeaseError::Exhausted
                } else {
                    LeaseError::Expired
                },
            );
        }
        proof {
            reveal_strlit("handle-");
        }
        let handle = chars_of(used.lease.handle_id.as_str());
        let n: usize = handle.len();
        let provider = string_of(&handle, 7, n);
        assert(provider@ =~= provider_of(used@.lease.handle_id));
        let ghost u = used@;
        let _ = self.leases.insert(lease.lease_id.clone(), used);
        proof {
            assert(self@.leases =~= before.leases.insert(lease.lease_id@, u));
            assert(self@.tokens =~= before.tokens);
            assert(self@.refresh_tokens =~= before.refresh_tokens);
        }
        match self.master_tokens.get(provider.as_str()) {
            Some(t) => Ok(t.clone()),
            None => Err(LeaseError::Unknown),
        }
    }

    /// The token of a provider that is registered, and nothing for any other.
    /// No name at all stands for the provider `default`.
    pub fn resolve_token_for_provider(&self, provider_id: &str) -> (r: Option<String>)
        requires
            self.wf(),
        ensures
            opt_view(r) == token_for(self@, provider_id@),
    {
        let name = if provider_id.is_empty() {
            "default"
        } else {
            provider_id
        };
        match self.master_tokens.get(name) {
            Some(t) => Some(t.clone()),
            None => None,
        }
    }

    /// The number of leases that the broker knows.
    pub fn outstanding_lease_count(&self) -> (r: usize)
        requires
            self.wf(),
        ensures
            r == self@.leases.dom().len(),
    {
        assert(self@.leases.dom() =~= self.leases@.dom());
        self.leases.len()
    }
}

/// A fresh lease is good for the token of its provider, once: at its endpoint
/// and within its time it gives the token, and the second time nothing.
pub proof fn leases_are_good_for_one_use(
    b: BrokerView,
    provider: Seq<char>,
    audience: Seq<char>,
    uuid: u128,
    process_id: u32,
    utc: i64,
    issued: u64,
    first: u64,
    second: u64,
)
    requires
        b.tokens.dom().contains(provider),
        first < issued + LEASE_TTL,
    ensures
        ({
            let l = new_lease(provider, audience, uuid, process_id, utc, b.epoch);
            let b1 = after_issue(b, l, issued);
            let (b2, r) = redemption(b1, l, audience, first);
            let (b3, again) = redemption(b2, l, audience, second);
            let (b4, third) = redemption(b3, l, audience, second);
            &&& r == Ok::<Seq<char>, LeaseError>(b.tokens[provider])
            &&& again == Err::<Seq<char>, LeaseError>(LeaseError::Exhausted)
            &&& third == Err::<Seq<char>, LeaseError>(LeaseError::Unknown)
            &&& b3.leases == b.leases.remove(l.lease_id)
        }),
{
    let l = new_lease(provider, audience, uuid, process_id, utc, b.epoch);
    assert(provider_of(handle_of(provider)) =~= provider);
    let b1 = after_issue(b, l, issued);
    let (b2, r) = redemption(b1, l, audience, first);
    let (b3, again) = redemption(b2, l, audience, second);
    assert(b3.leases =~= b.leases.remove(l.lease_id));
}

/// A lease whose time is over gives nothing.
pub proof fn leases_end(
    b: BrokerView,
    l: LeaseView,
    issued: u64,
    now: u64,
)
    requires
        now >= issued + LEASE_TTL,
        l.revocation_epoch == b.epoch,
        l.max_uses > 0,
    ensures
        redemption(after_issue(b, l, issued), l, l.endpoint_binding, now).1 == Err::<
            Seq<char>,
            LeaseError,
        >(LeaseError::Expired),
{
}

/// At another endpoint a lease gives nothing and stays as it is.
pub proof fn leases_are_bound_to_their_endpoint(
    b: BrokerView,
    l: LeaseView,
    audience: Seq<char>,
    now: u64,
)
    requires
        audience != l.endpoint_binding,
    ensures
        redemption(b, l, audience, now).1 is Err,
        redemption(b, l, audience, now).0 == b,
{
}

/// In a new epoch no lease of an earlier one gives anything.
pub proof fn revoked_leases_give_nothing(
    b: BrokerView,
    l: LeaseView,
    audience: Seq<char>,
    now: u64,
)
    requires
        b.epoch < u64::MAX,
        l.revocation_epoch <= b.epoch,
    ensures
        redemption(
            (BrokerView { epoch: (b.epoch + 1) as u64, leases: Map::empty(), ..b }),
            l,
            audience,
            now,
        ).1 == Err::<Seq<char>, LeaseError>(LeaseError::Revoked),
{
}

/// A provider that is not registered has no token, whatever other providers
/// have.
pub proof fn unregistered_providers_have_no_token(b: BrokerView, provider: Seq<char>)
    requires
        provider.len() > 0,
        !b.tokens.dom().contains(provider),
    ensures
        token_for(b, provider) is None,
{
}

/// A lease names its provider, its endpoint and the process, is good for one
/// use within five minutes, and belongs to the epoch in which it was issued.
pub proof fn leases_say_what_they_are_for(
    b: BrokerView,
    provider: Seq<char>,
    audience: Seq<char>,
    uuid: u128,
    process_id: u32,
    utc: i64,
    now: u64,
    other: Seq<char>,
)
    requires
        utc + 300_000_000 <= i64::MAX,
    ensures
        ({
            let l = new_lease(provider, audience, uuid, process_id, utc, b.epoch);
            let b1 = after_issue(b, l, now);
            &&& l.handle_id == "handle-"@ + provider
            &&& l.lease_id == "lease-"@ + provider + "-"@ + uuid_text_of(uuid)
            &&& l.endpoint_binding == audience
            &&& l.issued_to_process_identity == decimal(process_id as nat)
            &&& l.max_uses == 1
            &&& l.expires_at == utc + 300_000_000
            &&& l.revocation_epoch == b.epoch
            &&& b1.leases.dom().contains(l.lease_id)
            &&& b1.leases[l.lease_id].lease == l
            &&& b1.leases[l.lease_id].use_count == 0
            &&& b1.leases[l.lease_id].issued_at == now
            &&& other != l.lease_id ==> (b1.leases.dom().contains(other) <==> b.leases.dom().contains(other))
            &&& other != l.lease_id ==> b1.leases[other] == b.leases[other]
            &&& b1.tokens == b.tokens
            &&& b1.refresh_tokens == b.refresh_tokens
            &&& b1.epoch == b.epoch
            &&& b1.durable == b.durable
        }),
{
}

/// A lease is redeemed if and only if it is of this epoch, for this endpoint,
/// known, not used up, not too old, and its provider has a token.
pub proof fn leases_are_redeemed_when_everything_fits(
    b: BrokerView,
    l: LeaseView,
    audience: Seq<char>,
    now: u64,
)
    ensures
        redemption(b, l, audience, now).1 is Ok <==> {
            let a = b.leases[l.lease_id];
            &&& l.revocation_epoch == b.epoch
            &&& l.endpoint_binding == audience
            &&& b.leases.dom().contains(l.lease_id)
            &&& a.use_count < a.lease.max_uses
            &&& a.ttl > 0
            &&& now < a.issued_at + a.ttl
            &&& b.tokens.dom().contains(a.lease.handle_id.skip(7))
        },
        redemption(b, l, audience, now).1 matches Ok(t) ==> t
            == b.tokens[b.leases[l.lease_id].lease.handle_id.skip(7)],
{
    reveal_strlit("handle-");
}

/// A redemption changes no token and no other lease.
pub proof fn redemptions_touch_one_lease(
    b: BrokerView,
    l: LeaseView,
    audience: Seq<char>,
    now: u64,
    other: Seq<char>,
)
    ensures
        ({
            let b1 = redemption(b, l, audience, now).0;
            &&& b1.tokens == b.tokens
            &&& b1.refresh_tokens == b.refresh_tokens
            &&& b1.epoch == b.epoch
            &&& b1.durable == b.durable
            &&& other != l.lease_id ==> (b1.leases.dom().contains(other) <==> b.leases.dom().contains(other))
            &&& other != l.lease_id ==> b1.leases[other] == b.leases[other]
        }),
{
}

/// What a refused lease is told: first that its epoch is over, then that the
/// endpoint is another, then that it is not known, then that it is used up, and
/// last that its time is over.
pub proof fn refusals_say_why(b: BrokerView, l: LeaseView, audience: Seq<char>, now: u64)
    ensures
        ({
            let r = redemption(b, l, audience, now).1;
            let a = b.leases[l.lease_id];
            let known = b.leases.dom().contains(l.lease_id);
            let bound = l.revocation_epoch == b.epoch && l.endpoint_binding == audience;
            &&& r == Err::<Seq<char>, LeaseError>(LeaseError::Revoked) <==> l.revocation_epoch != b.epoch
            &&& r == Err::<Seq<char>, LeaseError>(LeaseError::EndpointMismatch) <==> l.revocation_epoch
                == b.epoch && l.endpoint_binding != audience
            &&& r == Err::<Seq<char>, LeaseError>(LeaseError::Exhausted) <==> bound && known && a.use_count
                >= a.lease.max_uses
            &&& r == Err::<Seq<char>, LeaseError>(LeaseError::Expired) <==> bound && known && a.use_count
                < a.lease.max_uses && (a.ttl == 0 || now >= a.issued_at + a.ttl)
        }),
{
}

/// A provider's token is the one that is kept under its name, and under
/// `default` where no name is given.
pub proof fn tokens_are_kept_by_name(b: BrokerView, provider: Seq<char>)
    ensures
        provider.len() > 0 && b.tokens.dom().contains(provider) ==> token_for(b, provider) == Some(
            b.tokens[provider],
        ),
        b.tokens.dom().contains("default"@) ==> token_for(b, Seq::empty()) == Some(
            b.tokens["default"@],
        ),
        !b.tokens.dom().contains("default"@) ==> token_for(b, Seq::empty()) is None,
{
}

/// A new broker holds nothing and is in its first epoch.
pub proof fn new_brokers_hold_nothing(durable: bool, name: Seq<char>)
    ensures
        token_for(empty_broker(durable), name) is None,
        !empty_broker(durable).leases.dom().contains(name),
        !empty_broker(durable).refresh_tokens.dom().contains(name),
        empty_broker(durable).epoch == 1,
        empty_broker(durable).durable == durable,
{
}

/// Secrets of two providers are kept under two keys, each with its provider at
/// the end.
pub proof fn secrets_are_kept_apart(a: Seq<char>, b: Seq<char>)
    ensures
        secret_key(a) == secret_key(b) ==> a == b,
        secret_key(a) == "master:"@ + a,
{
    if secret_key(a) == secret_key(b) {
        assert(secret_key(a).skip("master:"@.len() as int) =~= a);
        assert(secret_key(b).skip("master:"@.len() as int) =~= b);
    }
}

/// The messages of refused leases.
pub proof fn refusals_have_their_messages()
    ensures
        lease_error_text(LeaseError::Unknown) == "unknown lease"@,
        lease_error_text(LeaseError::Expired) == "lease expired"@,
        lease_error_text(LeaseError::Exhausted) == "lease uses exhausted"@,
        lease_error_text(LeaseError::EndpointMismatch) == "lease endpoint mismatch"@,
        lease_error_text(LeaseError::Revoked) == "lease revoked (epoch advanced)"@,
{
}

} // verus!
