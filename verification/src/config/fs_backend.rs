//! The files behind a [`ConfigWatcher`]: which file changes reach it, and what
//! is told of its decisions.

use vstd::prelude::*;
use vstd::string::*;

use crate::config::loader::{slot_name, slots_view, ConfigSlot};
use crate::config::watcher::{
    has_room, shown_with, ConfigDomain, ConfigWatcher, OutcomeView, WatchOutcome,
};
use crate::paths::{plain_path, plain_path_of};
use crate::strmap::StrMap;
use crate::text::{
    decimal, decimal_string, has_prefix, has_suffix, owned, utf8_error_of, utf8_text,
};
use crate::toml_text::{parse_toml, toml_parse_of};

verus! {

/// A file that is watched.
#[derive(Debug)]
pub struct FsWatchSource {
    /// The layer that the file belongs to.
    pub source_id: String,
    pub path: String,
    pub domain: ConfigDomain,
}

/// A decision about a file.
#[derive(Debug)]
pub struct ConfigPublish {
    pub source_id: String,
    pub path: String,
    pub domain: ConfigDomain,
    pub outcome: WatchOutcome,
}

/// The views of watched files: label, path and domain.
pub open spec fn sources_view(v: Seq<FsWatchSource>) -> Seq<(Seq<char>, Seq<char>, ConfigDomain)> {
    v.map_values(|s: FsWatchSource| (s.source_id@, s.path@, s.domain))
}

/// The files among the first `n` places that are there.
pub open spec fn present_sources(
    places: Seq<(ConfigSlot, Seq<char>)>,
    found: Seq<bool>,
    n: int,
) -> Seq<(Seq<char>, Seq<char>, ConfigDomain)>
    decreases n,
{
    if n <= 0 {
        Seq::empty()
    } else {
        let below = present_sources(places, found, n - 1);
        if found[n - 1] {
            below.push((slot_name(places[n - 1].0), places[n - 1].1, ConfigDomain::Root))
        } else {
            below
        }
    }
}

/// The files to watch: those of the places at which there is a file. `found`
/// says for each place whether there is one.
pub fn watch_sources(places: &Vec<(ConfigSlot, String)>, found: &Vec<bool>) -> (r: Vec<
    FsWatchSource,
>)
    requires
        found@.len() == places@.len(),
    ensures
        sources_view(r@) == present_sources(
            slots_view(places@),
            found@,
            places@.len() as int,
        ),
{
    let ghost ps = slots_view(places@);
    let mut out: Vec<FsWatchSource> = Vec::new();
    let mut i: usize = 0;
    assert(sources_view(out@) =~= Seq::empty());
    while i < places.len()
        invariant
            i <= places@.len(),
            found@.len() == places@.len(),
            ps == slots_view(places@),
            sources_view(out@) == present_sources(ps, found@, i as int),
        decreases places@.len() - i,
    {
        let ghost before = sources_view(out@);
        if found[i] {
            let source = FsWatchSource {
                source_id: owned(places[i].0.name()),
                path: places[i].1.clone(),
                domain: ConfigDomain::Root,
            };
            let ghost v = (source.source_id@, source.path@, source.domain);
            out.push(source);
            assert(sources_view(out@) =~= before.push(v));
            assert(ps[i as int] == (places@[i as int].0, places@[i as int].1@));
        }
        i = i + 1;
    }
    out
}

/// What is wrong with the content of a configuration file, if anything: it must
/// be UTF-8 and parse.
pub open spec fn content_error(content: Seq<u8>) -> Option<Seq<char>> {
    if !vstd::utf8::valid_utf8(content) {
        Some(utf8_error_of(content))
    } else {
        match toml_parse_of(vstd::utf8::decode_utf8(content)) {
            Ok(_) => None,
            Err(e) => Some(e),
        }
    }
}

/// Validates the content of a configuration file. A document that parses gets
/// the next generation.
pub fn validate_config(content: &[u8], next: &mut u64) -> (r: Result<u64, String>)
    requires
        *old(next) < u64::MAX,
    ensures
        match content_error(content@) {
            None => r matches Ok(g) && g == *old(next) && *final(next) == *old(next) + 1,
            Some(e) => r matches Err(m) && m@ == e && *final(next) == *old(next),
        },
{
    match utf8_text(content) {
        Err(e) => Err(e),
        Ok(t) => match parse_toml(t.as_str()) {
            Ok(_) => {
                let g: u64 = *next;
                *next = g + 1;
                Ok(g)
            },
            Err(e) => Err(e),
        },
    }
}

/// Shows a watcher the content of a file. A file that cannot be read just now
/// is passed over: its next event covers it.
pub fn observe_fs_event<F: FnOnce(&[u8]) -> Result<u64, String>>(
    watcher: &mut ConfigWatcher,
    source_id: &str,
    domain: ConfigDomain,
    content: Option<&[u8]>,
    now: u64,
    validate: F,
) -> (r: Option<WatchOutcome>)
    requires
        content matches Some(c) ==> call_requires(validate, (c,)) && has_room(
            old(watcher).domain_view(domain),
            now,
        ) && old(watcher).publishes() < u64::MAX,
    ensures
        match content {
            None => r is None && *final(watcher) == *old(watcher),
            Some(c) => r is Some && shown_with(
                *old(watcher),
                *final(watcher),
                domain,
                source_id@,
                c,
                now,
                validate,
                r->0@,
            ),
        },
{
    match content {
        None => None,
        Some(c) => Some(watcher.observe(domain, source_id, c, now, validate)),
    }
}

/// The identity of a watched file.
#[derive(Debug)]
pub struct WatchedFile {
    pub source_id: String,
    pub domain: ConfigDomain,
}

/// The watched files, by canonical path without what does not matter in it.
#[derive(Debug)]
pub struct WatchedFiles {
    files: StrMap<WatchedFile>,
}

impl View for WatchedFiles {
    type V = Map<Seq<char>, WatchedFile>;

    closed spec fn view(&self) -> Map<Seq<char>, WatchedFile> {
        self.files@
    }
}

impl WatchedFiles {
    /// The table is sound.
    pub closed spec fn wf(&self) -> bool {
        self.files.wf()
    }

    /// No file.
    pub fn new() -> (r: Self)
        ensures
            r.wf(),
            r@ == Map::<Seq<char>, WatchedFile>::empty(),
    {
        WatchedFiles { files: StrMap::new() }
    }

    /// Adds a file under its canonical path. It takes the place of another
    /// file with that path.
    pub fn register(&mut self, canonical: String, source: FsWatchSource)
        requires
            old(self).wf(),
        ensures
            final(self).wf(),
            final(self)@ == old(self)@.insert(
                plain_path_of(canonical@),
                WatchedFile { source_id: source.source_id, domain: source.domain },
            ),
    {
        let _ = self.files.insert(
            plain_path(canonical.as_str()),
            WatchedFile { source_id: source.source_id, domain: source.domain },
        );
    }

    /// The file that an event is about: one that is watched, where the event
    /// created or modified it.
    pub fn affected(&self, created_or_modified: bool, canonical: &str) -> (r: Option<&WatchedFile>)
        requires
            self.wf(),
        ensures
            match r {
                Some(f) => created_or_modified && self@.dom().contains(plain_path_of(canonical@))
                    && self@[plain_path_of(canonical@)] == *f,
                None => !(created_or_modified && self@.dom().contains(plain_path_of(canonical@))),
            },
    {
        if created_or_modified {
            self.files.get(plain_path(canonical).as_str())
        } else {
            None
        }
    }
}

/// Takes an event about a path: where it is about a watched file that can be
/// read, its content goes to the watcher, and the decision is given.
pub fn pump_event<F: FnOnce(&[u8]) -> Result<u64, String>>(
    watcher: &mut ConfigWatcher,
    files: &WatchedFiles,
    created_or_modified: bool,
    canonical: &str,
    path: String,
    content: Option<&[u8]>,
    now: u64,
    validate: F,
) -> (r: Option<ConfigPublish>)
    requires
        files.wf(),
        content matches Some(c) ==> created_or_modified && files@.dom().contains(
            plain_path_of(canonical@),
        ) ==> call_requires(validate, (c,)) && has_room(
            old(watcher).domain_view(files@[plain_path_of(canonical@)].domain),
            now,
        ) && old(watcher).publishes() < u64::MAX,
    ensures
        r is Some == (created_or_modified && files@.dom().contains(plain_path_of(canonical@))
            && content is Some),
        match r {
            None => *final(watcher) == *old(watcher),
            Some(p) => {
                &&& p.source_id@ == files@[plain_path_of(canonical@)].source_id@
                &&& p.domain == files@[plain_path_of(canonical@)].domain
                &&& p.path@ == path@
                &&& shown_with(
                    *old(watcher),
                    *final(watcher),
                    p.domain,
                    p.source_id@,
                    content->0,
                    now,
                    validate,
                    p.outcome@,
                )
            },
        },
{
    match files.affected(created_or_modified, canonical) {
        Some(f) => {
            match observe_fs_event(watcher, f.source_id.as_str(), f.domain, content, now, validate) {
                Some(outcome) => Some(
                    ConfigPublish {
                        source_id: f.source_id.clone(),
                        path,
                        domain: f.domain,
                        outcome,
                    },
                ),
                None => None,
            }
        },
        None => None,
    }
}

/// What is told of a decision, if anything.
pub open spec fn publish_line_of(source_id: Seq<char>, o: OutcomeView) -> Option<Seq<char>> {
    match o {
        OutcomeView::Published(g) => Some(
            "[config] "@ + source_id + " hot-reload: published generation "@ + decimal(g as nat),
        ),
        OutcomeView::Unchanged => None,
        OutcomeView::Rejected(d) => Some(
            "[config] "@ + source_id + " hot-reload rejected (last-known-good retained): "@ + d,
        ),
        OutcomeView::CachedFailure(d) => Some("[config] "@ + source_id + " still invalid: "@ + d),
        OutcomeView::BreakerOpen(ns) => Some(
            "[config] "@ + source_id + " publish breaker open, retry in "@ + decimal(
                (ns / 1_000_000_000) as nat,
            ) + "s"@,
        ),
    }
}

impl ConfigPublish {
    /// What is told of the decision, if anything.
    pub fn line(&self) -> (r: Option<String>)
        ensures
            match r {
                Some(s) => publish_line_of(self.source_id@, self.outcome@) == Some(s@),
                None => publish_line_of(self.source_id@, self.outcome@) is None,
            },
    {
        let mut s = owned("[config] ");
        s.append(self.source_id.as_str());
        match &self.outcome {
            WatchOutcome::Published { generation } => {
                s.append(" hot-reload: published generation ");
                s.append(decimal_string(*generation).as_str());
                Some(s)
            },
            WatchOutcome::Unchanged => None,
            WatchOutcome::Rejected { diagnostic } => {
                s.append(" hot-reload rejected (last-known-good retained): ");
                s.append(diagnostic.as_str());
                Some(s)
            },
            WatchOutcome::CachedFailure { diagnostic } => {
                s.append(" still invalid: ");
                s.append(diagnostic.as_str());
                Some(s)
            },
            WatchOutcome::BreakerOpen { retry_after } => {
                s.append(" publish breaker open, retry in ");
                s.append(decimal_string(*retry_after / 1_000_000_000).as_str());
                s.append("s");
                Some(s)
            },
        }
    }

    /// Whether the configuration is to be loaded again and its policy taken
    /// over.
    pub fn is_adopted(&self) -> (r: bool)
        ensures
            r == (self.outcome@ is Published),
    {
        match self.outcome {
            WatchOutcome::Published { .. } => true,
            _ => false,
        }
    }
}

/// The files that are there are watched, each under the name of its place and
/// in the order of the places.
pub proof fn files_that_are_there_are_watched(
    places: Seq<(ConfigSlot, Seq<char>)>,
    found: Seq<bool>,
    n: int,
)
    requires
        0 <= n < places.len(),
        n < found.len(),
    ensures
        found[n] ==> present_sources(places, found, n + 1) == present_sources(places, found, n).push(
            (slot_name(places[n].0), places[n].1, ConfigDomain::Root),
        ),
        !found[n] ==> present_sources(places, found, n + 1) == present_sources(places, found, n),
        present_sources(places, found, 0).len() == 0,
{
}

/// Content is sound exactly when it is UTF-8 and TOML.
pub proof fn sound_content_is_toml(content: Seq<u8>)
    ensures
        content_error(content) is None <==> vstd::utf8::valid_utf8(content) && toml_parse_of(
            vstd::utf8::decode_utf8(content),
        ) is Ok,
        vstd::utf8::valid_utf8(content) ==> (toml_parse_of(vstd::utf8::decode_utf8(content)) matches Err(e)
            ==> content_error(content) == Some(e)),
{
}

/// Every outcome but that nothing changed is told, with what it is about.
pub proof fn outcomes_are_told(source_id: Seq<char>, g: u64, d: Seq<char>)
    ensures
        publish_line_of(source_id, OutcomeView::Unchanged) is None,
        publish_line_of(source_id, OutcomeView::Published(g)) matches Some(s) && has_suffix(
            s,
            " published generation "@ + decimal(g as nat),
        ) && has_prefix(s, "[config] "@ + source_id),
        publish_line_of(source_id, OutcomeView::Rejected(d)) matches Some(s) && has_suffix(s, d)
            && has_prefix(s, "[config] "@ + source_id),
        publish_line_of(source_id, OutcomeView::CachedFailure(d)) matches Some(s) && has_suffix(s, d)
            && has_prefix(s, "[config] "@ + source_id),
        publish_line_of(source_id, OutcomeView::BreakerOpen(g)) matches Some(s) && has_suffix(
            s,
            decimal((g / 1_000_000_000) as nat) + "s"@,
        ) && has_prefix(s, "[config] "@ + source_id),
{
    assert(" hot-reload: published generation "@ =~= " hot-reload:"@ + " published generation "@) by {
        reveal_strlit(" hot-reload: published generation ");
        reveal_strlit(" hot-reload:");
        reveal_strlit(" published generation ");
    }
    let h = "[config] "@ + source_id;
    lemma_ends(h, " hot-reload:"@, " published generation "@ + decimal(g as nat));
    assert(h + " hot-reload: published generation "@ + decimal(g as nat) =~= h + " hot-reload:"@ + (
    " published generation "@ + decimal(g as nat)));
    lemma_ends(h, " hot-reload rejected (last-known-good retained): "@, d);
    lemma_ends(h, " still invalid: "@, d);
    let w = decimal((g / 1_000_000_000) as nat) + "s"@;
    lemma_ends(h, " publish breaker open, retry in "@, w);
    assert(h + " publish breaker open, retry in "@ + decimal((g / 1_000_000_000) as nat) + "s"@ =~= h
        + " publish breaker open, retry in "@ + w);
}

proof fn lemma_ends(h: Seq<char>, m: Seq<char>, t: Seq<char>)
    ensures
        has_prefix(h + m + t, h),
        has_suffix(h + m + t, t),
{
    let s = h + m + t;
    assert(s.take(h.len() as int) =~= h);
    assert(s.skip(s.len() - t.len()) =~= t);
}

} // verus!
