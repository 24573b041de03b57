//! Failures of authentication: what they are, what follows from them, and when
//! a refresh may be tried again.
//!
//! `now` and every wait are in nanoseconds on a monotonic clock.

use vstd::prelude::*;

use crate::strmap::StrMap;
use crate::text::owned;

verus! {

/// What went wrong with a credential.
#[derive(Debug, Clone, Copy, PartialEq, Eq, Structural)]
pub enum AuthErrorKind {
    /// It will end soon.
    ExpiringSoon,
    /// It was not accepted.
    Unauthorized,
    /// The request was forbidden; a refresh would not help.
    PolicyDenied,
    /// It cannot be refreshed any more.
    RefreshRevoked,
    /// Something passing.
    Transient,
    /// It belongs to another account.
    AccountMismatch,
}

/// The kind of an HTTP status. Unknown statuses never lead to a refresh.
pub open spec fn kind_of_status(status: u16) -> AuthErrorKind {
    if status == 401 {
        AuthErrorKind::Unauthorized
    } else if status == 408 || status == 429 || 500 <= status < 600 {
        AuthErrorKind::Transient
    } else {
        AuthErrorKind::PolicyDenied
    }
}

/// Whether a refresh may help.
pub open spec fn may_refresh(kind: AuthErrorKind) -> bool {
    kind == AuthErrorKind::ExpiringSoon || kind == AuthErrorKind::Unauthorized
}

impl AuthErrorKind {
    /// The kind of an HTTP status.
    pub fn from_http_status(status: u16) -> (r: Self)
        ensures
            r == kind_of_status(status),
    {
        if status == 401 {
            AuthErrorKind::Unauthorized
        } else if status == 403 {
            AuthErrorKind::PolicyDenied
        } else if status == 408 || status == 429 {
            AuthErrorKind::Transient
        } else if 500 <= status && status < 600 {
            AuthErrorKind::Transient
        } else {
            AuthErrorKind::PolicyDenied
        }
    }

    /// Whether a refresh may help.
    pub fn refresh_eligible(&self) -> (r: bool)
        ensures
            r == may_refresh(*self),
    {
        match self {
            AuthErrorKind::ExpiringSoon => true,
            AuthErrorKind::Unauthorized => true,
            _ => false,
        }
    }
}

/// What to do about a failure.
#[derive(Debug, Clone, Copy, PartialEq, Eq, Structural)]
pub enum RefreshPolicy {
    /// Refresh, and try once more.
    Refresh,
    /// Give the error back.
    FailWithoutRefresh,
    /// The user must sign in again.
    ReauthRequired,
    /// Wait, and keep the credential.
    BackoffKeepToken,
    /// Keep the secret as it is; the user must sign in again.
    RequireRelogin,
}

/// What to do about a kind of failure.
pub open spec fn policy_for(kind: AuthErrorKind) -> RefreshPolicy {
    match kind {
        AuthErrorKind::ExpiringSoon => RefreshPolicy::Refresh,
        AuthErrorKind::Unauthorized => RefreshPolicy::Refresh,
        AuthErrorKind::PolicyDenied => RefreshPolicy::FailWithoutRefresh,
        AuthErrorKind::RefreshRevoked => RefreshPolicy::ReauthRequired,
        AuthErrorKind::Transient => RefreshPolicy::BackoffKeepToken,
        AuthErrorKind::AccountMismatch => RefreshPolicy::RequireRelogin,
    }
}

impl RefreshPolicy {
    /// What to do about a kind of failure.
    pub fn for_error(kind: AuthErrorKind) -> (r: Self)
        ensures
            r == policy_for(kind),
    {
        match kind {
            AuthErrorKind::ExpiringSoon => RefreshPolicy::Refresh,
            AuthErrorKind::Unauthorized => RefreshPolicy::Refresh,
            AuthErrorKind::PolicyDenied => RefreshPolicy::FailWithoutRefresh,
            AuthErrorKind::RefreshRevoked => RefreshPolicy::ReauthRequired,
            AuthErrorKind::Transient => RefreshPolicy::BackoffKeepToken,
            AuthErrorKind::AccountMismatch => RefreshPolicy::RequireRelogin,
        }
    }
}

/// The state of an account.
#[derive(Debug, Clone, Copy, PartialEq, Eq, Structural)]
pub enum AuthBreakerState {
    Healthy,
    /// A refresh is under way.
    Refreshing,
    /// Too many passing failures; it rests.
    Degraded,
    /// One refresh is tried after the rest.
    HalfOpen,
    /// Nothing is tried until the user signs in again.
    ReauthRequired,
    /// The user signed out.
    Revoked,
}

/// Whether only the user can end a state.
pub open spec fn is_terminal(s: AuthBreakerState) -> bool {
    s == AuthBreakerState::ReauthRequired || s == AuthBreakerState::Revoked
}

/// What is known of one account.
#[derive(Debug, Clone, Copy, PartialEq, Eq, Structural)]
pub struct BreakerEntry {
    pub state: AuthBreakerState,
    /// Passing failures since the last success.
    pub transient_failures: u32,
    /// When the rest is over.
    pub cooldown_until: Option<u64>,
    /// Whether the one refresh after the rest is under way.
    pub probe_in_flight: bool,
}

/// An account without failures.
pub open spec fn fresh_entry() -> BreakerEntry {
    BreakerEntry {
        state: AuthBreakerState::Healthy,
        transient_failures: 0,
        cooldown_until: None,
        probe_in_flight: false,
    }
}

/// Whether a rest is over.
pub open spec fn rested(e: BreakerEntry, now: u64) -> bool {
    match e.cooldown_until {
        Some(t) => now >= t,
        None => false,
    }
}

/// Whether a refresh may be tried.
pub open spec fn allows(e: BreakerEntry, now: u64) -> bool {
    match e.state {
        AuthBreakerState::Healthy => true,
        AuthBreakerState::Refreshing => true,
        AuthBreakerState::ReauthRequired => false,
        AuthBreakerState::Revoked => false,
        AuthBreakerState::Degraded => rested(e, now) && !e.probe_in_flight,
        AuthBreakerState::HalfOpen => !e.probe_in_flight,
    }
}

/// The account after it was asked.
pub open spec fn after_allow(e: BreakerEntry, now: u64) -> BreakerEntry {
    if allows(e, now) && (e.state == AuthBreakerState::Degraded || e.state
        == AuthBreakerState::HalfOpen) {
        BreakerEntry { state: AuthBreakerState::HalfOpen, probe_in_flight: true, ..e }
    } else {
        e
    }
}

/// One more failure, up to the limit of the counter.
pub open spec fn one_more(n: u32) -> u32 {
    if n < u32::MAX {
        (n + 1) as u32
    } else {
        n
    }
}

/// The account after a failed refresh. A failure of the policy or of the
/// account only ends the try; a passing one leads to a rest when there were
/// enough, or when it was the one try after a rest; a terminal state stays.
pub open spec fn after_failure(
    e: BreakerEntry,
    kind: AuthErrorKind,
    threshold: u32,
    cooldown: u64,
    now: u64,
) -> BreakerEntry {
    match kind {
        AuthErrorKind::RefreshRevoked => BreakerEntry {
            state: AuthBreakerState::ReauthRequired,
            probe_in_flight: false,
            ..e
        },
        AuthErrorKind::Transient => {
            let n = one_more(e.transient_failures);
            let trips = !is_terminal(e.state) && (n >= threshold || e.state
                == AuthBreakerState::HalfOpen);
            BreakerEntry {
                state: if trips {
                    AuthBreakerState::Degraded
                } else {
                    e.state
                },
                transient_failures: n,
                cooldown_until: if trips {
                    Some((now + cooldown) as u64)
                } else {
                    e.cooldown_until
                },
                probe_in_flight: false,
            }
        },
        AuthErrorKind::Unauthorized | AuthErrorKind::ExpiringSoon => BreakerEntry {
            state: if e.state == AuthBreakerState::Refreshing {
                AuthBreakerState::Healthy
            } else {
                e.state
            },
            probe_in_flight: false,
            ..e
        },
        AuthErrorKind::PolicyDenied | AuthErrorKind::AccountMismatch => BreakerEntry {
            probe_in_flight: false,
            ..e
        },
    }
}

/// The account when a refresh begins.
pub open spec fn after_mark(e: BreakerEntry) -> BreakerEntry {
    if e.state == AuthBreakerState::Healthy {
        BreakerEntry { state: AuthBreakerState::Refreshing, ..e }
    } else {
        e
    }
}

/// The accounts of a session, and when their credentials may be refreshed.
#[derive(Debug)]
pub struct AuthCircuitBreaker {
    entries: StrMap<BreakerEntry>,
    trip_threshold: u32,
    cooldown: u64,
}

impl Default for AuthCircuitBreaker {
    fn default() -> (r: Self)
        ensures
            r.wf(),
            r.threshold() == 3,
            r.rest() == 30_000_000_000,
            forall|k: Seq<char>| r.entry(k) == fresh_entry(),
    {
        AuthCircuitBreaker::new()
    }
}

impl AuthCircuitBreaker {
    /// The breaker is sound.
    pub closed spec fn wf(&self) -> bool {
        self.entries.wf()
    }

    /// The number of passing failures that leads to a rest.
    pub closed spec fn threshold(&self) -> u32 {
        self.trip_threshold
    }

    /// How long a rest is.
    pub closed spec fn rest(&self) -> u64 {
        self.cooldown
    }

    /// What is known of an account.
    pub closed spec fn entry(&self, key: Seq<char>) -> BreakerEntry {
        if self.entries@.dom().contains(key) {
            self.entries@[key]
        } else {
            fresh_entry()
        }
    }

    /// A breaker that rests for 30 seconds after 3 passing failures.
    pub fn new() -> (r: Self)
        ensures
            r.wf(),
            r.threshold() == 3,
            r.rest() == 30_000_000_000,
            forall|k: Seq<char>| r.entry(k) == fresh_entry(),
    {
        Self::with_params(3, 30_000_000_000)
    }

    /// A breaker with a threshold of at least 1 and a given rest.
    pub fn with_params(trip_threshold: u32, cooldown: u64) -> (r: Self)
        ensures
            r.wf(),
            r.threshold() == (if trip_threshold < 1 {
                1u32
            } else {
                trip_threshold
            }),
            r.rest() == cooldown,
            forall|k: Seq<char>| r.entry(k) == fresh_entry(),
    {
        let trip_threshold: u32 = if trip_threshold < 1 {
            1
        } else {
            trip_threshold
        };
        AuthCircuitBreaker { entries: StrMap::new(), trip_threshold, cooldown }
    }

    fn read(&self, key: &str) -> (r: BreakerEntry)
        requires
            self.wf(),
        ensures
            r == self.entry(key@),
    {
        match self.entries.get(key) {
            Some(e) => *e,
            None => BreakerEntry {
                state: AuthBreakerState::Healthy,
                transient_failures: 0,
                cooldown_until: None,
                probe_in_flight: false,
            },
        }
    }

    fn write(&mut self, key: &str, e: BreakerEntry)
        requires
            old(self).wf(),
        ensures
            final(self).wf(),
            final(self).threshold() == old(self).threshold(),
            final(self).rest() == old(self).rest(),
            final(self).entry(key@) == e,
            forall|k: Seq<char>| k != key@ ==> final(self).entry(k) == old(self).entry(k),
    {
        let _ = self.entries.insert(owned(key), e);
    }

    /// Asks whether a refresh may be tried now. After a rest one may, and only
    /// one at a time.
    pub fn allow_refresh(&mut self, key: &str, now: u64) -> (r: bool)
        requires
            old(self).wf(),
        ensures
            final(self).wf(),
            final(self).threshold() == old(self).threshold(),
            final(self).rest() == old(self).rest(),
            r == allows(old(self).entry(key@), now),
            final(self).entry(key@) == after_allow(old(self).entry(key@), now),
            forall|k: Seq<char>| k != key@ ==> final(self).entry(k) == old(self).entry(k),
    {
        let mut e = self.read(key);
        let allowed = match e.state {
            AuthBreakerState::Healthy => true,
            AuthBreakerState::Refreshing => true,
            AuthBreakerState::ReauthRequired => false,
            AuthBreakerState::Revoked => false,
            AuthBreakerState::Degraded => {
                let ready = match e.cooldown_until {
                    Some(t) => now >= t,
                    None => false,
                };
                if ready && !e.probe_in_flight {
                    e.state = AuthBreakerState::HalfOpen;
                    e.probe_in_flight = true;
                    true
                } else {
                    false
                }
            },
            AuthBreakerState::HalfOpen => {
                if e.probe_in_flight {
                    false
                } else {
                    e.probe_in_flight = true;
                    true
                }
            },
        };
        self.write(key, e);
        allowed
    }

    /// Notes that a refresh begins.
    pub fn mark_refreshing(&mut self, key: &str)
        requires
            old(self).wf(),
        ensures
            final(self).wf(),
            final(self).threshold() == old(self).threshold(),
            final(self).rest() == old(self).rest(),
            final(self).entry(key@) == after_mark(old(self).entry(key@)),
            forall|k: Seq<char>| k != key@ ==> final(self).entry(k) == old(self).entry(k),
    {
        let mut e = self.read(key);
        if e.state == AuthBreakerState::Healthy {
            e.state = AuthBreakerState::Refreshing;
        }
        self.write(key, e);
    }

    /// Notes a successful refresh: everything is well again.
    pub fn record_success(&mut self, key: &str)
        requires
            old(self).wf(),
        ensures
            final(self).wf(),
            final(self).threshold() == old(self).threshold(),
            final(self).rest() == old(self).rest(),
            final(self).entry(key@) == fresh_entry(),
            forall|k: Seq<char>| k != key@ ==> final(self).entry(k) == old(self).entry(k),
    {
        let e = BreakerEntry {
            state: AuthBreakerState::Healthy,
            transient_failures: 0,
            cooldown_until: None,
            probe_in_flight: false,
        };
        self.write(key, e);
    }

    /// Notes a failed refresh.
    pub fn record_failure(&mut self, key: &str, kind: AuthErrorKind, now: u64)
        requires
            old(self).wf(),
            now + old(self).rest() <= u64::MAX,
        ensures
            final(self).wf(),
            final(self).threshold() == old(self).threshold(),
            final(self).rest() == old(self).rest(),
            final(self).entry(key@) == after_failure(
                old(self).entry(key@),
                kind,
                old(self).threshold(),
                old(self).rest(),
                now,
            ),
            forall|k: Seq<char>| k != key@ ==> final(self).entry(k) == old(self).entry(k),
    {
        let mut e = self.read(key);
        e.probe_in_flight = false;
        match kind {
            AuthErrorKind::RefreshRevoked => {
                e.state = AuthBreakerState::ReauthRequired;
            },
            AuthErrorKind::Transient => {
                if e.transient_failures < u32::MAX {
                    e.transient_failures = e.transient_failures + 1;
                }
                let over = match e.state {
                    AuthBreakerState::ReauthRequired => false,
                    AuthBreakerState::Revoked => false,
                    AuthBreakerState::HalfOpen => true,
                    _ => e.transient_failures >= self.trip_threshold,
                };
                if over {
                    e.state = AuthBreakerState::Degraded;
                    e.cooldown_until = Some(now + self.cooldown);
                }
            },
            AuthErrorKind::Unauthorized | AuthErrorKind::ExpiringSoon => {
                if e.state == AuthBreakerState::Refreshing {
                    e.state = AuthBreakerState::Healthy;
                }
            },
            AuthErrorKind::PolicyDenied | AuthErrorKind::AccountMismatch => {},
        }
        self.write(key, e);
    }

    /// Notes that the user signed out.
    pub fn revoke(&mut self, key: &str)
        requires
            old(self).wf(),
        ensures
            final(self).wf(),
            final(self).threshold() == old(self).threshold(),
            final(self).rest() == old(self).rest(),
            final(self).entry(key@) == (BreakerEntry {
                state: AuthBreakerState::Revoked,
                ..old(self).entry(key@)
            }),
            forall|k: Seq<char>| k != key@ ==> final(self).entry(k) == old(self).entry(k),
    {
        let mut e = self.read(key);
        e.state = AuthBreakerState::Revoked;
        self.write(key, e);
    }

    /// Notes that the user signed in again: a terminal state ends.
    pub fn reset_after_reauth(&mut self, key: &str)
        requires
            old(self).wf(),
        ensures
            final(self).wf(),
            final(self).threshold() == old(self).threshold(),
            final(self).rest() == old(self).rest(),
            final(self).entry(key@) == fresh_entry(),
            forall|k: Seq<char>| k != key@ ==> final(self).entry(k) == old(self).entry(k),
    {
        self.record_success(key);
    }

    /// The state of an account, healthy where nothing is known.
    pub fn state(&self, key: &str) -> (r: AuthBreakerState)
        requires
            self.wf(),
        ensures
            r == self.entry(key@).state,
    {
        self.read(key).state
    }
}

/// In a terminal state nothing is tried, and no failure and no question ends
/// it.
pub proof fn terminal_states_last(
    e: BreakerEntry,
    kind: AuthErrorKind,
    threshold: u32,
    cooldown: u64,
    now: u64,
)
    requires
        is_terminal(e.state),
    ensures
        !allows(e, now),
        after_allow(e, now) == e,
        after_mark(e) == e,
        is_terminal(after_failure(e, kind, threshold, cooldown, now).state),
{
}

/// After a rest one try is allowed, and a second only when the first is over.
pub proof fn one_probe_at_a_time(e: BreakerEntry, now: u64, later: u64)
    requires
        e.state == AuthBreakerState::Degraded || e.state == AuthBreakerState::HalfOpen,
        allows(e, now),
    ensures
        !allows(after_allow(e, now), later),
        after_allow(e, now).state == AuthBreakerState::HalfOpen,
{
}

/// While it rests, nothing is tried.
pub proof fn resting_accounts_are_left_alone(
    e: BreakerEntry,
    threshold: u32,
    cooldown: u64,
    at: u64,
    now: u64,
)
    requires
        !is_terminal(e.state),
        at + cooldown <= u64::MAX,
        one_more(e.transient_failures) >= threshold || e.state == AuthBreakerState::HalfOpen,
    ensures
        ({
            let d = after_failure(e, AuthErrorKind::Transient, threshold, cooldown, at);
            &&& d.state == AuthBreakerState::Degraded
            &&& allows(d, now) <==> now >= at + cooldown
        }),
{
}

/// Failures of the policy or of the account never change the state.
pub proof fn policy_failures_are_no_events(
    e: BreakerEntry,
    threshold: u32,
    cooldown: u64,
    now: u64,
)
    ensures
        after_failure(e, AuthErrorKind::PolicyDenied, threshold, cooldown, now) == (BreakerEntry {
            probe_in_flight: false,
            ..e
        }),
        after_failure(e, AuthErrorKind::AccountMismatch, threshold, cooldown, now) == (BreakerEntry {
            probe_in_flight: false,
            ..e
        }),
{
}

/// What a failure leads to agrees with whether a refresh may help.
pub proof fn only_eligible_failures_refresh(kind: AuthErrorKind)
    ensures
        policy_for(kind) == RefreshPolicy::Refresh <==> may_refresh(kind),
{
}

/// Who runs a refresh.
#[derive(Debug, Clone, Copy, PartialEq, Eq, Structural)]
pub enum FlightRole {
    /// The caller runs it.
    Leader,
    /// Another caller runs it already; this one waits for the result.
    Follower,
}

/// The refreshes under way, so that many callers lead to one.
#[derive(Debug)]
pub struct SingleFlightRefresher {
    flights: StrMap<()>,
}

impl Default for SingleFlightRefresher {
    fn default() -> (r: Self)
        ensures
            r.wf(),
            r.keys() == Set::<Seq<char>>::empty(),
    {
        SingleFlightRefresher::new()
    }
}

impl SingleFlightRefresher {
    /// The refresher is sound.
    pub closed spec fn wf(&self) -> bool {
        self.flights.wf()
    }

    /// The accounts that are being refreshed.
    pub closed spec fn keys(&self) -> Set<Seq<char>> {
        self.flights@.dom()
    }

    /// No refresh is under way.
    pub fn new() -> (r: Self)
        ensures
            r.wf(),
            r.keys() == Set::<Seq<char>>::empty(),
    {
        let r = SingleFlightRefresher { flights: StrMap::new() };
        assert(r.keys() =~= Set::<Seq<char>>::empty());
        r
    }

    /// The number of refreshes under way.
    pub fn in_flight(&self) -> (r: usize)
        requires
            self.wf(),
        ensures
            r == self.keys().len(),
    {
        self.flights.len()
    }

    /// Joins the refresh of an account. The first caller leads; whoever comes
    /// while it is under way follows.
    pub fn refresh_or_join(&mut self, key: &str) -> (r: FlightRole)
        requires
            old(self).wf(),
        ensures
            final(self).wf(),
            final(self).keys() == old(self).keys().insert(key@),
            r == (if old(self).keys().contains(key@) {
                FlightRole::Follower
            } else {
                FlightRole::Leader
            }),
    {
        let ghost before = self.keys();
        if self.flights.contains(key) {
            assert(before.insert(key@) =~= before);
            FlightRole::Follower
        } else {
            let _ = self.flights.insert(owned(key), ());
            assert(self.keys() =~= before.insert(key@));
            FlightRole::Leader
        }
    }

    /// Notes that the refresh of an account is over. The next caller leads
    /// again.
    pub fn finish(&mut self, key: &str)
        requires
            old(self).wf(),
        ensures
            final(self).wf(),
            final(self).keys() == old(self).keys().remove(key@),
    {
        let ghost before = self.keys();
        let _ = self.flights.remove(key);
        assert(self.keys() =~= before.remove(key@));
    }
}

/// Of the answers of a server 401 asks for a new token, 408, 429 and the server's
/// own failures pass by, and all others are the last word.
pub proof fn answers_are_told_apart(status: u16)
    ensures
        kind_of_status(status) == AuthErrorKind::Unauthorized <==> status == 401,
        kind_of_status(status) == AuthErrorKind::Transient <==> (status == 408 || status == 429 || status
            / 100 == 5),
        kind_of_status(status) == AuthErrorKind::PolicyDenied <==> status != 401 && status != 408
            && status != 429 && status / 100 != 5,
{
}

/// What each failure asks for.
pub proof fn failures_ask_for_their_remedy(kind: AuthErrorKind)
    ensures
        policy_for(kind) == RefreshPolicy::Refresh <==> (kind is ExpiringSoon || kind is Unauthorized),
        policy_for(kind) == RefreshPolicy::FailWithoutRefresh <==> kind is PolicyDenied,
        policy_for(kind) == RefreshPolicy::ReauthRequired <==> kind is RefreshRevoked,
        policy_for(kind) == RefreshPolicy::BackoffKeepToken <==> kind is Transient,
        policy_for(kind) == RefreshPolicy::RequireRelogin <==> kind is AccountMismatch,
{
}

/// An account that nothing has happened to is healthy and may be used, and a
/// refresh of it may begin.
pub proof fn new_accounts_are_healthy(now: u64)
    ensures
        fresh_entry().state is Healthy,
        fresh_entry().transient_failures == 0,
        fresh_entry().cooldown_until is None,
        !fresh_entry().probe_in_flight,
        allows(fresh_entry(), now),
        after_allow(fresh_entry(), now) == fresh_entry(),
        after_mark(fresh_entry()).state is Refreshing,
        allows(after_mark(fresh_entry()), now),
{
}

/// When an account may be used: always while it is healthy or being refreshed,
/// by one try at a time once its rest is over, and never when it needs a login.
pub proof fn accounts_may_be_used(e: BreakerEntry, now: u64)
    ensures
        e.state is Healthy || e.state is Refreshing ==> allows(e, now) && after_allow(e, now) == e,
        e.state is ReauthRequired || e.state is Revoked ==> !allows(e, now),
        e.state is HalfOpen ==> (allows(e, now) <==> !e.probe_in_flight),
        e.state is Degraded ==> (allows(e, now) <==> !e.probe_in_flight && (e.cooldown_until matches Some(t)
            && t <= now)),
        !allows(e, now) ==> after_allow(e, now) == e,
        allows(e, now) && (e.state is HalfOpen || e.state is Degraded) ==> after_allow(e, now)
            == (BreakerEntry { state: AuthBreakerState::HalfOpen, probe_in_flight: true, ..e }),
{
}

/// Failures that pass by are counted. One too many, or one while an account is
/// tried again, gives it a rest; fewer leave it as it is.
pub proof fn passing_failures_are_counted(
    e: BreakerEntry,
    threshold: u32,
    cooldown: u64,
    now: u64,
)
    requires
        now + cooldown <= u64::MAX,
        e.transient_failures < u32::MAX,
    ensures
        ({
            let f = after_failure(e, AuthErrorKind::Transient, threshold, cooldown, now);
            let over = e.transient_failures + 1 >= threshold || e.state is HalfOpen;
            let lost = e.state is ReauthRequired || e.state is Revoked;
            &&& f.transient_failures == e.transient_failures + 1
            &&& !f.probe_in_flight
            &&& over && !lost ==> f.state is Degraded && f.cooldown_until == Some((now + cooldown) as u64)
            &&& !over || lost ==> f.state == e.state && f.cooldown_until == e.cooldown_until
        }),
{
}

/// A refresh token that was taken back needs a login, in every state. A token
/// that was refused only ends the refresh that was under way.
pub proof fn other_failures_are_not_counted(
    e: BreakerEntry,
    kind: AuthErrorKind,
    threshold: u32,
    cooldown: u64,
    now: u64,
)
    requires
        !(kind is Transient),
    ensures
        ({
            let f = after_failure(e, kind, threshold, cooldown, now);
            &&& f.transient_failures == e.transient_failures
            &&& f.cooldown_until == e.cooldown_until
            &&& !f.probe_in_flight
            &&& kind is RefreshRevoked ==> f.state is ReauthRequired
            &&& (kind is Unauthorized || kind is ExpiringSoon) && e.state is Refreshing ==> f.state is Healthy
            &&& (kind is Unauthorized || kind is ExpiringSoon) && !(e.state is Refreshing) ==> f.state
                == e.state
            &&& kind is PolicyDenied || kind is AccountMismatch ==> f.state == e.state
        }),
{
}

/// A refresh begins from health alone.
pub proof fn refreshes_begin_from_health(e: BreakerEntry)
    ensures
        e.state is Healthy ==> after_mark(e) == (BreakerEntry {
            state: AuthBreakerState::Refreshing,
            ..e
        }),
        !(e.state is Healthy) ==> after_mark(e) == e,
{
}

} // verus!
