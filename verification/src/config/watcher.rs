//! Hot reload: which observed contents are validated, published, rejected or
//! held back.
//!
//! Points in time and spans of time are nanoseconds on one monotonic clock.
//! Every domain has a state of its own: its breaker, the hash of the content
//! that was published, the source and the hash of the content that failed last,
//! and the last known good publish.

use vstd::prelude::*;

use crate::hash::{fingerprint_bytes, fingerprint_of};
use crate::text::{opt_view, owned, same};

verus! {

/// The parts of a configuration that fail independently.
#[derive(Debug, Clone, Copy, PartialEq, Eq, Hash, Structural)]
pub enum ConfigDomain {
    /// The configuration as a whole.
    Root,
    Ui,
    Memory,
    Mcp,
    SkillHook,
    ModelRoute,
    Prompt,
    Policy,
    Managed,
    Sandbox,
    Credential,
}

/// The state of a breaker.
#[derive(Debug, Clone, Copy, PartialEq, Eq, Structural)]
pub enum BreakerState {
    /// Content is validated.
    Closed,
    /// Content is held back until `until`; `cooldown` is the current wait.
    Open { until: u64, cooldown: u64 },
    /// One full validation is let through.
    HalfOpen,
}

/// The settings of a breaker.
#[derive(Debug, Clone, Copy, PartialEq, Eq, Structural)]
pub struct PublishBreakerConfig {
    /// Failures in a row before the breaker opens.
    pub failure_threshold: u32,
    /// The first wait.
    pub base_cooldown: u64,
    /// The longest wait that doubling leads to.
    pub max_cooldown: u64,
}

impl Default for PublishBreakerConfig {
    fn default() -> (r: Self)
        ensures
            r.failure_threshold == 3,
            r.base_cooldown == 5_000_000_000,
            r.max_cooldown == 300_000_000_000,
    {
        PublishBreakerConfig {
            failure_threshold: 3,
            base_cooldown: 5_000_000_000,
            max_cooldown: 300_000_000_000,
        }
    }
}

/// A breaker whose waits double with every failed probe.
#[derive(Debug, Clone, Copy, PartialEq, Eq, Structural)]
pub struct PublishBreaker {
    pub config: PublishBreakerConfig,
    pub state: BreakerState,
    pub consecutive_failures: u32,
    /// The wait of the last trip.
    pub last_cooldown: u64,
}

/// A closed breaker without failures.
pub open spec fn fresh_breaker(config: PublishBreakerConfig) -> PublishBreaker {
    PublishBreaker {
        config,
        state: BreakerState::Closed,
        consecutive_failures: 0,
        last_cooldown: 0,
    }
}

/// Whether a breaker lets content through at `now`; `changed` says whether it
/// differs from the content that failed last.
pub open spec fn admits(b: PublishBreaker, changed: bool, now: u64) -> bool {
    match b.state {
        BreakerState::Open { until, .. } => changed || now >= until,
        _ => true,
    }
}

/// The breaker after it was asked: an open one that lets content through is
/// half open.
pub open spec fn after_admit(b: PublishBreaker, changed: bool, now: u64) -> PublishBreaker {
    if b.state is Open && admits(b, changed, now) {
        PublishBreaker { state: BreakerState::HalfOpen, ..b }
    } else {
        b
    }
}

/// The wait after a failure that trips the breaker.
pub open spec fn next_cooldown(b: PublishBreaker) -> u64 {
    if b.state is HalfOpen {
        if 2 * b.last_cooldown <= b.config.max_cooldown {
            (2 * b.last_cooldown) as u64
        } else {
            b.config.max_cooldown
        }
    } else {
        b.config.base_cooldown
    }
}

/// Whether one more failure trips the breaker.
pub open spec fn trips(b: PublishBreaker) -> bool {
    b.state is HalfOpen || b.consecutive_failures + 1 >= b.config.failure_threshold
}

/// One more failure in a row. A counter at its limit stays there.
pub open spec fn one_more_failure(n: u32) -> u32 {
    if n < u32::MAX {
        (n + 1) as u32
    } else {
        n
    }
}

/// The breaker after a failure at `now`.
pub open spec fn after_failure(b: PublishBreaker, now: u64) -> PublishBreaker {
    if trips(b) {
        PublishBreaker {
            consecutive_failures: one_more_failure(b.consecutive_failures),
            last_cooldown: next_cooldown(b),
            state: BreakerState::Open {
                until: (now + next_cooldown(b)) as u64,
                cooldown: next_cooldown(b),
            },
            ..b
        }
    } else {
        PublishBreaker {
            consecutive_failures: one_more_failure(b.consecutive_failures),
            state: BreakerState::Closed,
            ..b
        }
    }
}

/// The breaker after a success.
pub open spec fn after_success(b: PublishBreaker) -> PublishBreaker {
    PublishBreaker { state: BreakerState::Closed, consecutive_failures: 0, ..b }
}

impl PublishBreaker {
    /// A closed breaker.
    pub fn new(config: PublishBreakerConfig) -> (r: Self)
        ensures
            r == fresh_breaker(config),
    {
        PublishBreaker {
            config,
            state: BreakerState::Closed,
            consecutive_failures: 0,
            last_cooldown: 0,
        }
    }

    /// The state of the breaker.
    pub fn state(&self) -> (r: &BreakerState)
        ensures
            *r == self.state,
    {
        &self.state
    }

    /// Asks whether content may be validated now. An open breaker becomes half
    /// open when its wait is over or the content is not the one that failed.
    pub fn admit_content(&mut self, content_hash: &str, last_failed_hash: Option<&str>, now: u64) -> (r:
        bool)
        ensures
            ({
                let changed = match last_failed_hash {
                    Some(h) => h@ != content_hash@,
                    None => true,
                };
                &&& r == admits(*old(self), changed, now)
                &&& *final(self) == after_admit(*old(self), changed, now)
            }),
    {
        match self.state {
            BreakerState::Open { until, .. } => {
                let changed = match last_failed_hash {
                    Some(h) => !same(h, content_hash),
                    None => true,
                };
                if changed || now >= until {
                    self.state = BreakerState::HalfOpen;
                    true
                } else {
                    false
                }
            },
            _ => true,
        }
    }

    /// Notes a success: the breaker closes.
    pub fn record_success(&mut self)
        ensures
            *final(self) == after_success(*old(self)),
    {
        self.state = BreakerState::Closed;
        self.consecutive_failures = 0;
    }

    /// Notes a failure at `now`: the breaker opens when there were enough in a
    /// row, or at once where a probe failed, which doubles the wait.
    pub fn record_failure(&mut self, now: u64)
        requires
            now + next_cooldown(*old(self)) <= u64::MAX,
        ensures
            *final(self) == after_failure(*old(self), now),
    {
        if self.consecutive_failures < u32::MAX {
            self.consecutive_failures = self.consecutive_failures + 1;
        }
        let probing = match self.state {
            BreakerState::HalfOpen => true,
            _ => false,
        };
        if probing || self.consecutive_failures >= self.config.failure_threshold {
            let next: u64 = if probing {
                if self.last_cooldown <= self.config.max_cooldown / 2 {
                    self.last_cooldown * 2
                } else {
                    self.config.max_cooldown
                }
            } else {
                self.config.base_cooldown
            };
            self.last_cooldown = next;
            self.state = BreakerState::Open { until: now + next, cooldown: next };
        } else {
            self.state = BreakerState::Closed;
        }
    }
}

/// The publish to fall back to.
#[derive(Debug, Clone, PartialEq, Eq)]
pub struct LastKnownGood {
    pub content_hash: String,
    pub generation: u64,
}

/// What came of an observation.
#[derive(Debug, Clone, PartialEq, Eq)]
pub enum WatchOutcome {
    /// The content is the one that is live.
    Unchanged,
    /// The content was validated and is live now.
    Published { generation: u64 },
    /// The content is not valid; what was live stays live.
    Rejected { diagnostic: String },
    /// The content is known not to be valid and was not validated again.
    CachedFailure { diagnostic: String },
    /// The content is held back.
    BreakerOpen { retry_after: u64 },
}

/// The mathematical value of a [`WatchOutcome`].
pub enum OutcomeView {
    Unchanged,
    Published(u64),
    Rejected(Seq<char>),
    CachedFailure(Seq<char>),
    BreakerOpen(u64),
}

impl View for WatchOutcome {
    type V = OutcomeView;

    open spec fn view(&self) -> OutcomeView {
        match *self {
            WatchOutcome::Unchanged => OutcomeView::Unchanged,
            WatchOutcome::Published { generation } => OutcomeView::Published(generation),
            WatchOutcome::Rejected { diagnostic } => OutcomeView::Rejected(diagnostic@),
            WatchOutcome::CachedFailure { diagnostic } => OutcomeView::CachedFailure(diagnostic@),
            WatchOutcome::BreakerOpen { retry_after } => OutcomeView::BreakerOpen(retry_after),
        }
    }
}

/// Content that failed: where it came from and its hash.
#[derive(Debug)]
struct FailedContent {
    source: String,
    hash: String,
}

/// The publish state of a domain.
#[derive(Debug)]
struct DomainState {
    breaker: PublishBreaker,
    published_hash: Option<String>,
    last_failed: Option<FailedContent>,
    cached_failure: Option<String>,
    lkg: Option<LastKnownGood>,
    generation: u64,
    compile_attempts: u64,
}

/// The mathematical value of the publish state of a domain.
pub struct DomainView {
    pub breaker: PublishBreaker,
    /// The hash of the content that is live.
    pub published_hash: Option<Seq<char>>,
    /// The source and the hash of the content that failed last.
    pub last_failed: Option<(Seq<char>, Seq<char>)>,
    /// Why it failed.
    pub cached_failure: Option<Seq<char>>,
    /// The last publish: hash and generation.
    pub lkg: Option<(Seq<char>, u64)>,
    /// The generation that is live.
    pub generation: u64,
    /// The number of validations.
    pub compile_attempts: u64,
}

impl View for DomainState {
    type V = DomainView;

    closed spec fn view(&self) -> DomainView {
        DomainView {
            breaker: self.breaker,
            published_hash: opt_view(self.published_hash),
            last_failed: match self.last_failed {
                Some(f) => Some((f.source@, f.hash@)),
                None => None,
            },
            cached_failure: opt_view(self.cached_failure),
            lkg: match self.lkg {
                Some(l) => Some((l.content_hash@, l.generation)),
                None => None,
            },
            generation: self.generation,
            compile_attempts: self.compile_attempts,
        }
    }
}

/// The state of a domain in which nothing was observed.
pub open spec fn fresh_domain(config: PublishBreakerConfig) -> DomainView {
    DomainView {
        breaker: fresh_breaker(config),
        published_hash: None,
        last_failed: None,
        cached_failure: None,
        lkg: None,
        generation: 0,
        compile_attempts: 0,
    }
}

/// How long until `until`.
pub open spec fn wait_until(until: u64, now: u64) -> u64 {
    if now < until {
        (until - now) as u64
    } else {
        0
    }
}

/// The state of a domain after it was asked about content of `source` with
/// `hash`, and the outcome where no validation is due.
pub open spec fn triage(d: DomainView, source: Seq<char>, hash: Seq<char>, now: u64) -> (
    DomainView,
    Option<OutcomeView>,
) {
    let changed = d.last_failed != Some((source, hash));
    let b = after_admit(d.breaker, changed, now);
    if d.published_hash == Some(hash) {
        (d, Some(OutcomeView::Unchanged))
    } else if !admits(d.breaker, changed, now) {
        (d, Some(OutcomeView::BreakerOpen(wait_until(d.breaker.state->until, now))))
    } else if !changed && !(b.state is HalfOpen) {
        (
            d,
            Some(
                OutcomeView::CachedFailure(
                    match d.cached_failure {
                        Some(m) => m,
                        None => "cached failure (diagnostic lost)"@,
                    },
                ),
            ),
        )
    } else {
        (DomainView { breaker: b, ..d }, None)
    }
}

/// The state of a domain after a validation.
pub open spec fn settled(
    d: DomainView,
    source: Seq<char>,
    hash: Seq<char>,
    now: u64,
    result: Result<u64, Seq<char>>,
) -> DomainView {
    let attempts = (d.compile_attempts + 1) as u64;
    match result {
        Ok(generation) => DomainView {
            breaker: after_success(d.breaker),
            published_hash: Some(hash),
            last_failed: None,
            cached_failure: None,
            lkg: Some((hash, generation)),
            generation,
            compile_attempts: attempts,
        },
        Err(diagnostic) => DomainView {
            breaker: after_failure(d.breaker, now),
            last_failed: Some((source, hash)),
            cached_failure: Some(diagnostic),
            compile_attempts: attempts,
            ..d
        },
    }
}

/// The outcome of a validation.
pub open spec fn settled_outcome(result: Result<u64, Seq<char>>) -> OutcomeView {
    match result {
        Ok(generation) => OutcomeView::Published(generation),
        Err(diagnostic) => OutcomeView::Rejected(diagnostic),
    }
}

/// The view of the result of a validation.
pub open spec fn result_view(r: Result<u64, String>) -> Result<u64, Seq<char>> {
    match r {
        Ok(g) => Ok(g),
        Err(e) => Err(e@),
    }
}

/// Content of a domain that a watcher is shown.
pub struct Observation {
    pub domain: ConfigDomain,
    pub source: Seq<char>,
    pub hash: Seq<char>,
    pub now: u64,
    /// What the validation gave, where there was one.
    pub result: Option<Result<u64, Seq<char>>>,
}

/// Whether `d2` and the outcome `o` are what an observation in the state `d`
/// leads to. There is a validation exactly where neither the hashes nor the
/// breaker settle the matter.
pub open spec fn observed(d: DomainView, e: Observation, d2: DomainView, o: OutcomeView) -> bool {
    let (t, early) = triage(d, e.source, e.hash, e.now);
    match early {
        Some(out) => e.result is None && d2 == t && o == out,
        None => e.result matches Some(r) && d2 == settled(t, e.source, e.hash, e.now, r) && o
            == settled_outcome(r),
    }
}

/// Whether a watcher turned `before` into `after` with the outcome `o` when it
/// was shown content.
pub open spec fn shown(
    before: ConfigWatcher,
    after: ConfigWatcher,
    e: Observation,
    o: OutcomeView,
) -> bool {
    &&& after.config() == before.config()
    &&& forall|d: ConfigDomain| d != e.domain ==> #[trigger] after.domain_state(d)
        == before.domain_state(d)
    &&& after.domain_state(e.domain) is Some
    &&& observed(before.domain_view(e.domain), e, after.domain_view(e.domain), o)
    &&& after.publishes() == before.publishes() + (if o is Published {
        1int
    } else {
        0int
    })
}

/// Whether `v` is what the call of `validate` with `content` gave, where it was
/// called.
pub open spec fn came_of<F: FnOnce(&[u8]) -> Result<u64, String>>(
    validate: F,
    content: &[u8],
    v: Option<Result<u64, String>>,
) -> bool {
    v matches Some(x) ==> call_ensures(validate, (content,), x)
}

/// The view of the result of a validation that may not have been.
pub open spec fn opt_result_view(v: Option<Result<u64, String>>) -> Option<Result<u64, Seq<char>>> {
    match v {
        Some(x) => Some(result_view(x)),
        None => None,
    }
}

/// Whether a watcher turned `before` into `after` with the outcome `o` when it
/// was shown `content`, which `validate` validates.
pub open spec fn shown_with<F: FnOnce(&[u8]) -> Result<u64, String>>(
    before: ConfigWatcher,
    after: ConfigWatcher,
    domain: ConfigDomain,
    source: Seq<char>,
    content: &[u8],
    now: u64,
    validate: F,
    o: OutcomeView,
) -> bool {
    exists|v: Option<Result<u64, String>>| #[trigger]
        came_of(validate, content, v) && shown(
            before,
            after,
            Observation {
                domain,
                source,
                hash: fingerprint_of(content@),
                now,
                result: opt_result_view(v),
            },
            o,
        )
}

/// Whether the counters and the clock of a domain leave room for a validation.
pub open spec fn has_room(d: DomainView, now: u64) -> bool {
    &&& d.compile_attempts < u64::MAX
    &&& now + d.breaker.config.base_cooldown <= u64::MAX
    &&& now + d.breaker.config.max_cooldown <= u64::MAX
}

/// What is to be done with observed content.
enum Triage {
    /// Nothing more: this is the outcome.
    Done(WatchOutcome),
    /// It is to be validated.
    Validate,
}

impl DomainState {
    fn new(config: PublishBreakerConfig) -> (r: Self)
        ensures
            r@ == fresh_domain(config),
    {
        DomainState {
            breaker: PublishBreaker::new(config),
            published_hash: None,
            last_failed: None,
            cached_failure: None,
            lkg: None,
            generation: 0,
            compile_attempts: 0,
        }
    }

    fn triage(&mut self, source: &str, hash: &str, now: u64) -> (r: Triage)
        ensures
            final(self)@ == triage(old(self)@, source@, hash@, now).0,
            match r {
                Triage::Done(o) => triage(old(self)@, source@, hash@, now).1 == Some(o@),
                Triage::Validate => triage(old(self)@, source@, hash@, now).1 is None,
            },
    {
        if let Some(h) = &self.published_hash {
            if same(h.as_str(), hash) {
                return Triage::Done(WatchOutcome::Unchanged);
            }
        }
        let before = self.breaker;
        let failed = match &self.last_failed {
            Some(f) => if same(f.source.as_str(), source) {
                Some(f.hash.as_str())
            } else {
                None
            },
            None => None,
        };
        let known_bad = match failed {
            Some(h) => same(h, hash),
            None => false,
        };
        if !self.breaker.admit_content(hash, failed, now) {
            if let BreakerState::Open { until, .. } = before.state {
                let retry_after: u64 = if now < until {
                    until - now
                } else {
                    0
                };
                return Triage::Done(WatchOutcome::BreakerOpen { retry_after });
            }
        }
        if known_bad {
            let probing = match self.breaker.state {
                BreakerState::HalfOpen => true,
                _ => false,
            };
            if !probing {
                let diagnostic = match &self.cached_failure {
                    Some(m) => m.clone(),
                    None => owned("cached failure (diagnostic lost)"),
                };
                return Triage::Done(WatchOutcome::CachedFailure { diagnostic });
            }
        }
        Triage::Validate
    }

    fn settle(&mut self, source: &str, hash: String, now: u64, result: Result<u64, String>) -> (r:
        WatchOutcome)
        requires
            old(self)@.compile_attempts < u64::MAX,
            now + next_cooldown(old(self)@.breaker) <= u64::MAX,
        ensures
            final(self)@ == settled(old(self)@, source@, hash@, now, result_view(result)),
            r@ == settled_outcome(result_view(result)),
    {
        self.compile_attempts = self.compile_attempts + 1;
        match result {
            Ok(generation) => {
                self.generation = generation;
                self.published_hash = Some(hash.clone());
                self.last_failed = None;
                self.cached_failure = None;
                self.lkg = Some(LastKnownGood { content_hash: hash, generation });
                self.breaker.record_success();
                WatchOutcome::Published { generation }
            },
            Err(diagnostic) => {
                self.last_failed = Some(FailedContent { source: owned(source), hash });
                self.cached_failure = Some(diagnostic.clone());
                self.breaker.record_failure(now);
                WatchOutcome::Rejected { diagnostic }
            },
        }
    }
}

/// The pipeline from observed content to publishes, one state per domain.
#[derive(Debug)]
pub struct ConfigWatcher {
    root: Option<DomainState>,
    ui: Option<DomainState>,
    memory: Option<DomainState>,
    mcp: Option<DomainState>,
    skill_hook: Option<DomainState>,
    model_route: Option<DomainState>,
    prompt: Option<DomainState>,
    policy: Option<DomainState>,
    managed: Option<DomainState>,
    sandbox: Option<DomainState>,
    credential: Option<DomainState>,
    breaker_config: PublishBreakerConfig,
    total_publishes: u64,
}

spec fn state_view(s: Option<DomainState>) -> Option<DomainView> {
    match s {
        Some(d) => Some(d@),
        None => None,
    }
}

impl Default for ConfigWatcher {
    fn default() -> (r: Self)
        ensures
            r.config() == (PublishBreakerConfig {
                failure_threshold: 3,
                base_cooldown: 5_000_000_000,
                max_cooldown: 300_000_000_000,
            }),
            r.publishes() == 0,
            forall|d: ConfigDomain| r.domain_state(d) is None,
    {
        Self::with_breaker_config(PublishBreakerConfig::default())
    }
}

impl ConfigWatcher {
    /// The settings of every breaker.
    pub closed spec fn config(&self) -> PublishBreakerConfig {
        self.breaker_config
    }

    /// The number of publishes.
    pub closed spec fn publishes(&self) -> u64 {
        self.total_publishes
    }

    /// The state of a domain in which something was observed.
    pub closed spec fn domain_state(&self, d: ConfigDomain) -> Option<DomainView> {
        state_view(self.slot(d))
    }

    /// The state of a domain, fresh where nothing was observed.
    pub open spec fn domain_view(&self, d: ConfigDomain) -> DomainView {
        match self.domain_state(d) {
            Some(s) => s,
            None => fresh_domain(self.config()),
        }
    }

    spec fn slot(&self, d: ConfigDomain) -> Option<DomainState> {
        match d {
            ConfigDomain::Root => self.root,
            ConfigDomain::Ui => self.ui,
            ConfigDomain::Memory => self.memory,
            ConfigDomain::Mcp => self.mcp,
            ConfigDomain::SkillHook => self.skill_hook,
            ConfigDomain::ModelRoute => self.model_route,
            ConfigDomain::Prompt => self.prompt,
            ConfigDomain::Policy => self.policy,
            ConfigDomain::Managed => self.managed,
            ConfigDomain::Sandbox => self.sandbox,
            ConfigDomain::Credential => self.credential,
        }
    }

    /// A watcher whose breakers have the given settings.
    pub fn with_breaker_config(breaker_config: PublishBreakerConfig) -> (r: Self)
        ensures
            r.config() == breaker_config,
            r.publishes() == 0,
            forall|d: ConfigDomain| r.domain_state(d) is None,
    {
        ConfigWatcher {
            root: None,
            ui: None,
            memory: None,
            mcp: None,
            skill_hook: None,
            model_route: None,
            prompt: None,
            policy: None,
            managed: None,
            sandbox: None,
            credential: None,
            breaker_config,
            total_publishes: 0,
        }
    }

    /// The SHA-256 digest of content, by which it is recognised.
    pub fn content_hash(content: &[u8]) -> (r: String)
        ensures
            r@ == fingerprint_of(content@),
    {
        fingerprint_bytes(content)
    }

    /// Takes the state of a domain out of its place.
    fn take_domain(&mut self, d: ConfigDomain) -> (r: DomainState)
        ensures
            r@ == old(self).domain_view(d),
            final(self).config() == old(self).config(),
            final(self).publishes() == old(self).publishes(),
            forall|e: ConfigDomain| e != d ==> #[trigger] final(self).domain_state(e) == old(self).domain_state(e),
    {
        let taken = match d {
            ConfigDomain::Root => self.root.take(),
            ConfigDomain::Ui => self.ui.take(),
            ConfigDomain::Memory => self.memory.take(),
            ConfigDomain::Mcp => self.mcp.take(),
            ConfigDomain::SkillHook => self.skill_hook.take(),
            ConfigDomain::ModelRoute => self.model_route.take(),
            ConfigDomain::Prompt => self.prompt.take(),
            ConfigDomain::Policy => self.policy.take(),
            ConfigDomain::Managed => self.managed.take(),
            ConfigDomain::Sandbox => self.sandbox.take(),
            ConfigDomain::Credential => self.credential.take(),
        };
        match taken {
            Some(s) => s,
            None => DomainState::new(self.breaker_config),
        }
    }

    /// Puts the state of a domain in its place.
    fn put_domain(&mut self, d: ConfigDomain, s: DomainState)
        ensures
            final(self).domain_state(d) == Some(s@),
            final(self).config() == old(self).config(),
            final(self).publishes() == old(self).publishes(),
            forall|e: ConfigDomain| e != d ==> #[trigger] final(self).domain_state(e) == old(self).domain_state(e),
    {
        match d {
            ConfigDomain::Root => {
                self.root = Some(s);
            },
            ConfigDomain::Ui => {
                self.ui = Some(s);
            },
            ConfigDomain::Memory => {
                self.memory = Some(s);
            },
            ConfigDomain::Mcp => {
                self.mcp = Some(s);
            },
            ConfigDomain::SkillHook => {
                self.skill_hook = Some(s);
            },
            ConfigDomain::ModelRoute => {
                self.model_route = Some(s);
            },
            ConfigDomain::Prompt => {
                self.prompt = Some(s);
            },
            ConfigDomain::Policy => {
                self.policy = Some(s);
            },
            ConfigDomain::Managed => {
                self.managed = Some(s);
            },
            ConfigDomain::Sandbox => {
                self.sandbox = Some(s);
            },
            ConfigDomain::Credential => {
                self.credential = Some(s);
            },
        }
    }

    /// Observes content of a domain. `validate` is called at most once, and
    /// only where neither the hashes nor the breaker settle the matter; it
    /// gives the generation to publish.
    pub fn observe<F: FnOnce(&[u8]) -> Result<u64, String>>(
        &mut self,
        domain: ConfigDomain,
        source: &str,
        content: &[u8],
        now: u64,
        validate: F,
    ) -> (r: WatchOutcome)
        requires
            call_requires(validate, (content,)),
            has_room(old(self).domain_view(domain), now),
            old(self).publishes() < u64::MAX,
        ensures
            shown_with(*old(self), *final(self), domain, source@, content, now, validate, r@),
    {
        let hash = Self::content_hash(content);
        let mut st = self.take_domain(domain);
        let t = st.triage(source, hash.as_str(), now);
        match t {
            Triage::Done(outcome) => {
                self.put_domain(domain, st);
                assert(came_of(validate, content, None));
                outcome
            },
            Triage::Validate => self.validated(st, domain, source, content, hash, now, validate),
        }
    }

    /// Validates content once and puts the state of its domain in its place.
    fn validated<F: FnOnce(&[u8]) -> Result<u64, String>>(
        &mut self,
        state: DomainState,
        domain: ConfigDomain,
        source: &str,
        content: &[u8],
        hash: String,
        now: u64,
        validate: F,
    ) -> (r: WatchOutcome)
        requires
            call_requires(validate, (content,)),
            state@.compile_attempts < u64::MAX,
            now + next_cooldown(state@.breaker) <= u64::MAX,
            old(self).publishes() < u64::MAX,
        ensures
            final(self).config() == old(self).config(),
            forall|e: ConfigDomain| e != domain ==> #[trigger] final(self).domain_state(e)
                == old(self).domain_state(e),
            exists|v: Result<u64, String>|
                {
                    &&& #[trigger] came_of(validate, content, Some(v))
                    &&& r@ == settled_outcome(result_view(v))
                    &&& final(self).domain_state(domain) == Some(
                        settled(state@, source@, hash@, now, result_view(v)),
                    )
                    &&& final(self).publishes() == old(self).publishes() + (if v is Ok {
                        1int
                    } else {
                        0int
                    })
                },
    {
        let mut st = state;
        let result = validate(content);
        let ghost v = result;
        let published = result.is_ok();
        let outcome = st.settle(source, hash, now, result);
        self.put_domain(domain, st);
        let ghost mid = *self;
        if published {
            self.total_publishes = self.total_publishes + 1;
        }
        assert forall|e: ConfigDomain| #[trigger] self.domain_state(e) == mid.domain_state(e) by {
            assert(self.slot(e) == mid.slot(e));
        }
        assert(came_of(validate, content, Some(v)));
        outcome
    }

    /// Validates content once, whatever is live and whatever the breaker says,
    /// as the probe of a half open breaker.
    pub fn force_probe<F: FnOnce(&[u8]) -> Result<u64, String>>(
        &mut self,
        domain: ConfigDomain,
        source: &str,
        content: &[u8],
        now: u64,
        validate: F,
    ) -> (r: WatchOutcome)
        requires
            call_requires(validate, (content,)),
            has_room(forced(old(self).domain_view(domain), old(self).config()), now),
            old(self).publishes() < u64::MAX,
        ensures
            final(self).config() == old(self).config(),
            forall|e: ConfigDomain| e != domain ==> #[trigger] final(self).domain_state(e)
                == old(self).domain_state(e),
            final(self).domain_view(domain).compile_attempts == old(self).domain_view(
                domain,
            ).compile_attempts + 1,
            exists|v: Result<u64, String>|
                {
                    &&& #[trigger] call_ensures(validate, (content,), v)
                    &&& r@ == settled_outcome(result_view(v))
                    &&& final(self).domain_state(domain) == Some(
                        settled(
                            forced(old(self).domain_view(domain), old(self).config()),
                            source@,
                            fingerprint_of(content@),
                            now,
                            result_view(v),
                        ),
                    )
                    &&& final(self).publishes() == old(self).publishes() + (if v is Ok {
                        1int
                    } else {
                        0int
                    })
                },
    {
        let hash = Self::content_hash(content);
        let mut st = self.take_domain(domain);
        st.breaker = PublishBreaker {
            config: self.breaker_config,
            state: BreakerState::HalfOpen,
            consecutive_failures: 0,
            last_cooldown: self.breaker_config.base_cooldown,
        };
        st.last_failed = None;
        st.cached_failure = None;
        self.validated(st, domain, source, content, hash, now, validate)
    }

    fn domain_ref(&self, d: ConfigDomain) -> (r: Option<&DomainState>)
        ensures
            match r {
                Some(s) => self.domain_state(d) == Some(s@),
                None => self.domain_state(d) is None,
            },
    {
        match d {
            ConfigDomain::Root => self.root.as_ref(),
            ConfigDomain::Ui => self.ui.as_ref(),
            ConfigDomain::Memory => self.memory.as_ref(),
            ConfigDomain::Mcp => self.mcp.as_ref(),
            ConfigDomain::SkillHook => self.skill_hook.as_ref(),
            ConfigDomain::ModelRoute => self.model_route.as_ref(),
            ConfigDomain::Prompt => self.prompt.as_ref(),
            ConfigDomain::Policy => self.policy.as_ref(),
            ConfigDomain::Managed => self.managed.as_ref(),
            ConfigDomain::Sandbox => self.sandbox.as_ref(),
            ConfigDomain::Credential => self.credential.as_ref(),
        }
    }

    /// The last known good publish of a domain.
    pub fn last_known_good(&self, domain: ConfigDomain) -> (r: Option<&LastKnownGood>)
        ensures
            match r {
                Some(l) => self.domain_view(domain).lkg == Some((l.content_hash@, l.generation)),
                None => self.domain_view(domain).lkg is None,
            },
    {
        match self.domain_ref(domain) {
            Some(s) => s.lkg.as_ref(),
            None => None,
        }
    }

    /// The generation of a domain that is live, 0 before the first publish.
    pub fn generation(&self, domain: ConfigDomain) -> (r: u64)
        ensures
            r == self.domain_view(domain).generation,
    {
        match self.domain_ref(domain) {
            Some(s) => s.generation,
            None => 0,
        }
    }

    /// The state of the breaker of a domain in which something was observed.
    pub fn breaker_state(&self, domain: ConfigDomain) -> (r: Option<&BreakerState>)
        ensures
            match r {
                Some(b) => self.domain_state(domain) matches Some(d) && d.breaker.state == *b,
                None => self.domain_state(domain) is None,
            },
    {
        match self.domain_ref(domain) {
            Some(s) => Some(s.breaker.state()),
            None => None,
        }
    }

    /// The number of validations in a domain.
    pub fn compile_attempts(&self, domain: ConfigDomain) -> (r: u64)
        ensures
            r == self.domain_view(domain).compile_attempts,
    {
        match self.domain_ref(domain) {
            Some(s) => s.compile_attempts,
            None => 0,
        }
    }

    /// The number of publishes in all domains.
    pub fn total_publishes(&self) -> (r: u64)
        ensures
            r == self.publishes(),
    {
        self.total_publishes
    }
}

/// The state of a domain when a probe is forced.
pub open spec fn forced(d: DomainView, config: PublishBreakerConfig) -> DomainView {
    DomainView {
        breaker: PublishBreaker {
            config,
            state: BreakerState::HalfOpen,
            consecutive_failures: 0,
            last_cooldown: config.base_cooldown,
        },
        last_failed: None,
        cached_failure: None,
        ..d
    }
}

/// Content that was published is not validated again, however often it is
/// observed, from whatever source and whatever the breaker says.
pub proof fn published_content_is_unchanged(
    d: DomainView,
    source: Seq<char>,
    hash: Seq<char>,
    at: u64,
    generation: u64,
    other: Seq<char>,
    later: u64,
)
    ensures
        ({
            let d1 = settled(d, source, hash, at, Ok(generation));
            triage(d1, other, hash, later) == (d1, Some(OutcomeView::Unchanged))
        }),
{
}

/// A rejected candidate leaves what is live as it was: the generation, the
/// published content and the last known good publish.
pub proof fn rejection_keeps_what_is_live(
    d: DomainView,
    source: Seq<char>,
    hash: Seq<char>,
    now: u64,
    diagnostic: Seq<char>,
)
    ensures
        ({
            let d1 = settled(triage(d, source, hash, now).0, source, hash, now, Err(diagnostic));
            &&& d1.generation == d.generation
            &&& d1.published_hash == d.published_hash
            &&& d1.lkg == d.lkg
        }),
{
}

/// Content that just failed is not validated again: its diagnostic is given
/// while the breaker stays closed, and it is held back while the breaker is
/// open, until the wait is over.
pub proof fn failed_content_is_not_validated_again(
    d: DomainView,
    source: Seq<char>,
    hash: Seq<char>,
    at: u64,
    diagnostic: Seq<char>,
    later: u64,
)
    requires
        d.published_hash != Some(hash),
        at + next_cooldown(d.breaker) <= u64::MAX,
        later < at + next_cooldown(d.breaker),
    ensures
        ({
            let d1 = settled(d, source, hash, at, Err(diagnostic));
            let o = triage(d1, source, hash, later).1;
            if trips(d.breaker) {
                o == Some(
                    OutcomeView::BreakerOpen((at + next_cooldown(d.breaker) - later) as u64),
                )
            } else {
                o == Some(OutcomeView::CachedFailure(diagnostic))
            }
        }),
{
}

/// Changed content is validated at once, even while the breaker is open. So is
/// content that failed, where it comes from another source.
pub proof fn changed_content_is_validated(
    d: DomainView,
    source: Seq<char>,
    hash: Seq<char>,
    now: u64,
)
    requires
        d.published_hash != Some(hash),
        d.last_failed != Some((source, hash)),
    ensures
        triage(d, source, hash, now).1 is None,
{
}

/// When its wait is over, the content that failed is validated once more.
pub proof fn waiting_ends(d: DomainView, source: Seq<char>, hash: Seq<char>, now: u64)
    requires
        d.published_hash != Some(hash),
        d.breaker.state matches BreakerState::Open { until, .. } && until <= now,
    ensures
        triage(d, source, hash, now).1 is None,
        triage(d, source, hash, now).0.breaker.state is HalfOpen,
{
}

/// A breaker that opened, let a probe through and saw it fail opens at once for
/// twice the wait, up to the longest, whatever the threshold.
pub proof fn failed_probe_doubles_the_wait(
    b: PublishBreaker,
    tripped: u64,
    changed: bool,
    asked: u64,
    now: u64,
)
    requires
        trips(b),
        admits(after_failure(b, tripped), changed, asked),
        2 * next_cooldown(b) <= u64::MAX,
        now + 2 * next_cooldown(b) <= u64::MAX,
    ensures
        ({
            let open = after_failure(b, tripped);
            let probing = after_admit(open, changed, asked);
            let c = open.state->cooldown;
            let c2 = if 2 * c <= b.config.max_cooldown {
                (2 * c) as u64
            } else {
                b.config.max_cooldown
            };
            &&& probing.state is HalfOpen
            &&& after_failure(probing, now).state == (BreakerState::Open {
                until: (now + c2) as u64,
                cooldown: c2,
            })
        }),
{
}

/// The hash of the last publish in a domain among observations with their
/// outcomes.
pub open spec fn last_published(
    es: Seq<Observation>,
    os: Seq<OutcomeView>,
    d: ConfigDomain,
) -> Option<Seq<char>>
    decreases es.len(),
{
    if es.len() == 0 {
        None
    } else if es.last().domain == d && os.last() is Published {
        Some(es.last().hash)
    } else {
        last_published(es.drop_last(), os.drop_last(), d)
    }
}

/// The source, the hash and the diagnostic of the last failed validation in a
/// domain since the last publish there.
pub open spec fn last_failure(
    es: Seq<Observation>,
    os: Seq<OutcomeView>,
    d: ConfigDomain,
) -> Option<(Seq<char>, Seq<char>, Seq<char>)>
    decreases es.len(),
{
    if es.len() == 0 {
        None
    } else if es.last().domain == d && os.last() is Published {
        None
    } else if es.last().domain == d && os.last() is Rejected {
        Some((es.last().source, es.last().hash, os.last()->Rejected_0))
    } else {
        last_failure(es.drop_last(), os.drop_last(), d)
    }
}

/// Whether a watcher in which nothing was observed went through `ws` when it
/// was shown `es`, with the outcomes `os`.
pub open spec fn is_history(
    ws: Seq<ConfigWatcher>,
    es: Seq<Observation>,
    os: Seq<OutcomeView>,
) -> bool {
    &&& ws.len() == es.len() + 1
    &&& os.len() == es.len()
    &&& forall|d: ConfigDomain| #[trigger] ws[0].domain_state(d) is None
    &&& forall|i: int|
        0 <= i < es.len() ==> shown(ws[i], #[trigger] ws[i + 1], es[i], os[i])
}

/// What a watcher keeps of its history: in each domain the hash of the last
/// publish, and the source, the hash and the diagnostic of the last failure
/// since.
pub proof fn watchers_keep_their_history(
    ws: Seq<ConfigWatcher>,
    es: Seq<Observation>,
    os: Seq<OutcomeView>,
    d: ConfigDomain,
)
    requires
        is_history(ws, es, os),
    ensures
        ({
            let s = ws.last().domain_view(d);
            &&& s.published_hash == last_published(es, os, d)
            &&& match last_failure(es, os, d) {
                Some(f) => s.last_failed == Some((f.0, f.1)) && s.cached_failure == Some(f.2),
                None => s.last_failed is None && s.cached_failure is None,
            }
        }),
    decreases es.len(),
{
    if es.len() == 0 {
        assert(ws[0].domain_state(d) is None);
    } else {
        let n = es.len() - 1;
        let w1 = ws.drop_last();
        assert forall|i: int| 0 <= i < n implies shown(
            w1[i],
            #[trigger] w1[i + 1],
            es.drop_last()[i],
            os.drop_last()[i],
        ) by {
            assert(shown(ws[i], ws[i + 1], es[i], os[i]));
        }
        assert forall|e: ConfigDomain| #[trigger] w1[0].domain_state(e) is None by {
            assert(ws[0].domain_state(e) is None);
        }
        watchers_keep_their_history(w1, es.drop_last(), os.drop_last(), d);
        assert(shown(ws[n], ws[n + 1], es[n], os[n]));
        assert(w1.last() == ws[n]);
        if es[n].domain != d {
            assert(ws[n + 1].domain_state(d) == ws[n].domain_state(d));
        }
    }
}

/// What comes of an observation is decided by the history of its domain.
/// Content that is live is unchanged. Content that failed since, from the same
/// source, has its diagnostic repeated while the breaker is closed, and is held
/// back while it is open and its wait is not over. All other content is
/// validated once, and published or rejected as the validation says.
pub proof fn history_decides(
    ws: Seq<ConfigWatcher>,
    es: Seq<Observation>,
    os: Seq<OutcomeView>,
    after: ConfigWatcher,
    e: Observation,
    o: OutcomeView,
)
    requires
        is_history(ws, es, os),
        shown(ws.last(), after, e, o),
    ensures
        ({
            let breaker = ws.last().domain_view(e.domain).breaker.state;
            let failed = last_failure(es, os, e.domain);
            let again = failed matches Some(f) && f.0 == e.source && f.1 == e.hash;
            if last_published(es, os, e.domain) == Some(e.hash) {
                e.result is None && o == OutcomeView::Unchanged
            } else if again && breaker is Closed {
                e.result is None && o == OutcomeView::CachedFailure((failed->0).2)
            } else if again && breaker is Open && e.now < breaker->until {
                e.result is None && o == OutcomeView::BreakerOpen(
                    (breaker->until - e.now) as u64,
                )
            } else {
                match e.result {
                    Some(Ok(g)) => o == OutcomeView::Published(g),
                    Some(Err(m)) => o == OutcomeView::Rejected(m),
                    None => false,
                }
            }
        }),
{
    watchers_keep_their_history(ws, es, os, e.domain);
}

/// Failures in a row open the breaker when there are as many as the threshold
/// says. Fewer only count.
pub proof fn failures_in_a_row_open_the_breaker(b: PublishBreaker, now: u64)
    requires
        b.state is Closed,
        b.consecutive_failures < u32::MAX,
        now + b.config.base_cooldown <= u64::MAX,
    ensures
        ({
            let f = after_failure(b, now);
            &&& f.consecutive_failures == b.consecutive_failures + 1
            &&& f.config == b.config
            &&& b.consecutive_failures + 1 < b.config.failure_threshold ==> f.state is Closed
            &&& b.consecutive_failures + 1 >= b.config.failure_threshold ==> f.state
                == (BreakerState::Open {
                until: (now + b.config.base_cooldown) as u64,
                cooldown: b.config.base_cooldown,
            })
        }),
        after_success(b).state is Closed,
        after_success(b).consecutive_failures == 0,
        after_success(b).config == b.config,
{
}

/// An open breaker lets in what changed, and anything once its time is over;
/// what it lets in is a trial. A breaker that is not open lets in everything and
/// stays as it is.
pub proof fn open_breakers_wait(b: PublishBreaker, changed: bool, now: u64)
    ensures
        b.state matches BreakerState::Open { until, cooldown } ==> {
            &&& admits(b, changed, now) <==> changed || until <= now
            &&& admits(b, changed, now) ==> after_admit(b, changed, now).state is HalfOpen
            &&& !admits(b, changed, now) ==> after_admit(b, changed, now) == b
        },
        !(b.state is Open) ==> admits(b, changed, now) && after_admit(b, changed, now) == b,
        after_admit(b, changed, now).consecutive_failures == b.consecutive_failures,
        after_admit(b, changed, now).last_cooldown == b.last_cooldown,
        after_admit(b, changed, now).config == b.config,
{
}

/// What is made of content before it is validated: what is live already is
/// unchanged, what must wait is told how long, what failed already is told why,
/// and everything else is validated.
pub proof fn content_is_sorted_out(d: DomainView, source: Seq<char>, hash: Seq<char>, now: u64)
    ensures
        ({
            let (t, early) = triage(d, source, hash, now);
            let live = d.published_hash == Some(hash);
            let failed = d.last_failed == Some((source, hash));
            let waits = (d.breaker.state matches BreakerState::Open { until, cooldown } && now < until)
                && failed;
            &&& early == Some(OutcomeView::Unchanged) <==> live
            &&& (early matches Some(OutcomeView::BreakerOpen(n))) <==> !live && waits
            &&& (early matches Some(OutcomeView::BreakerOpen(n)) ==> n == d.breaker.state->until - now)
            &&& (early matches Some(OutcomeView::CachedFailure(m))) <==> !live && failed
                && d.breaker.state is Closed
            &&& (early matches Some(OutcomeView::CachedFailure(m)) && d.cached_failure is Some)
                ==> early == Some(OutcomeView::CachedFailure(d.cached_failure->0))
            &&& early is Some ==> t == d
            &&& early is None ==> t.published_hash == d.published_hash && t.lkg == d.lkg && t.generation
                == d.generation && t.last_failed == d.last_failed && t.compile_attempts
                == d.compile_attempts
        }),
{
}

/// Valid content is live from then on, and no failure is remembered. Invalid
/// content is remembered with what is wrong with it, and what was live stays so.
pub proof fn validation_settles_content(
    d: DomainView,
    source: Seq<char>,
    hash: Seq<char>,
    now: u64,
    generation: u64,
    diagnostic: Seq<char>,
)
    requires
        d.compile_attempts < u64::MAX,
    ensures
        ({
            let good = settled(d, source, hash, now, Ok(generation));
            let bad = settled(d, source, hash, now, Err(diagnostic));
            &&& good.published_hash == Some(hash)
            &&& good.lkg == Some((hash, generation))
            &&& good.generation == generation
            &&& good.last_failed is None
            &&& good.cached_failure is None
            &&& good.breaker.state is Closed
            &&& good.breaker.consecutive_failures == 0
            &&& good.compile_attempts == d.compile_attempts + 1
            &&& bad.published_hash == d.published_hash
            &&& bad.lkg == d.lkg
            &&& bad.generation == d.generation
            &&& bad.last_failed == Some((source, hash))
            &&& bad.cached_failure == Some(diagnostic)
            &&& bad.compile_attempts == d.compile_attempts + 1
        }),
        settled_outcome(Ok(generation)) == OutcomeView::Published(generation),
        settled_outcome(Err(diagnostic)) == OutcomeView::Rejected(diagnostic),
{
}

/// A trial that is forced forgets every failure and keeps what is live.
pub proof fn forced_trials_forget_failures(
    d: DomainView,
    config: PublishBreakerConfig,
    source: Seq<char>,
    hash: Seq<char>,
    now: u64,
)
    ensures
        ({
            let f = forced(d, config);
            &&& f.published_hash == d.published_hash
            &&& f.lkg == d.lkg
            &&& f.generation == d.generation
            &&& f.last_failed is None
            &&& f.cached_failure is None
            &&& f.breaker.state is HalfOpen
            &&& f.breaker.consecutive_failures == 0
            &&& d.published_hash != Some(hash) ==> triage(f, source, hash, now).1 is None
        }),
{
}

} // verus!
