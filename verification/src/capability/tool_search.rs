//! Search among the deferred capabilities of a turn, and their promotion in
//! the next step.

use vstd::prelude::*;

use crate::capability::exposure::ToolExposure;
use crate::capability::id::{contains_id, id_lt, ids_view, CapabilityId, IdView};
use crate::capability::idmap::IdMap;
use crate::capability::turn::{BaseView, TurnCapabilityBase};
use crate::hash::{fingerprint_bytes, fingerprint_of};
use crate::text::{
    chars_of, contains, contains_text, join, joined, lowercase_of, split_words, string_of,
    to_lowercase, trim, trimmed, views, words_of, owned,
};

verus! {

/// A deferred capability that can be found.
#[derive(Debug)]
pub struct DeferredIndexEntry {
    pub capability_id: CapabilityId,
    /// The revision when the index was built.
    pub revision: u64,
    pub exposure: ToolExposure,
    pub display_name: String,
    pub description: String,
}

/// Why a capability is not in the index.
#[derive(Debug, Clone, Copy, PartialEq, Eq, Structural)]
pub enum IndexExclusionReason {
    /// It is not deferred.
    NotDeferred,
    /// The turn cannot promote it.
    NotInTurnBase,
    /// The policy leaves it out.
    PolicyExcluded,
}

/// A capability that is not in the index, and why.
#[derive(Debug)]
pub struct IndexExclusion {
    pub capability_id: CapabilityId,
    pub reason: IndexExclusionReason,
}

/// The deferred capabilities of a turn.
#[derive(Debug)]
pub struct DeferredToolIndex {
    pub turn_id: String,
    pub entries: Vec<DeferredIndexEntry>,
    pub exclusions: Vec<IndexExclusion>,
}

impl Default for DeferredToolIndex {
    fn default() -> (r: Self)
        ensures
            r.turn_id@ == Seq::<char>::empty(),
            r.entries@.len() == 0,
            r.exclusions@.len() == 0,
    {
        DeferredToolIndex { turn_id: String::new(), entries: Vec::new(), exclusions: Vec::new() }
    }
}

/// A capability that a search found, with the revision it had then.
#[derive(Debug, PartialEq, Eq)]
pub struct SearchHit {
    pub capability_id: CapabilityId,
    pub pinned_revision: u64,
    pub display_name: String,
    pub description: String,
    /// The hash of the query.
    pub query_hash: String,
}

/// What came of a search.
#[derive(Debug, PartialEq, Eq)]
pub enum SearchOutcome {
    /// The turn does not allow deferred promotion.
    PromotionNotAllowed,
    /// What was found, perhaps nothing.
    Hits(Vec<SearchHit>),
}

/// The mathematical value of a [`DeferredIndexEntry`].
pub struct EntryView {
    pub id: IdView,
    pub revision: u64,
    pub exposure: ToolExposure,
    pub display_name: Seq<char>,
    pub description: Seq<char>,
}

impl View for DeferredIndexEntry {
    type V = EntryView;

    open spec fn view(&self) -> EntryView {
        EntryView {
            id: self.capability_id@,
            revision: self.revision,
            exposure: self.exposure,
            display_name: self.display_name@,
            description: self.description@,
        }
    }
}

/// The mathematical value of a [`SearchHit`].
pub struct HitView {
    pub id: IdView,
    pub pinned_revision: u64,
    pub display_name: Seq<char>,
    pub description: Seq<char>,
    pub query_hash: Seq<char>,
}

impl View for SearchHit {
    type V = HitView;

    open spec fn view(&self) -> HitView {
        HitView {
            id: self.capability_id@,
            pinned_revision: self.pinned_revision,
            display_name: self.display_name@,
            description: self.description@,
            query_hash: self.query_hash@,
        }
    }
}

/// A capability offered to the index: its identity, exposure, revision, name
/// and description.
pub type Candidate = (CapabilityId, ToolExposure, u64, String, String);

/// The view of a candidate.
pub open spec fn candidate_entry(c: Candidate) -> EntryView {
    EntryView {
        id: c.0@,
        revision: c.2,
        exposure: c.1,
        display_name: c.3@,
        description: c.4@,
    }
}

/// Why a candidate is not let into the index, if it is not.
pub open spec fn exclusion(b: BaseView, c: Candidate, excluded: Seq<IdView>) -> Option<
    IndexExclusionReason,
> {
    if c.1 != ToolExposure::Deferred {
        Some(IndexExclusionReason::NotDeferred)
    } else if !b.promotable_ids.contains(c.0@) {
        Some(IndexExclusionReason::NotInTurnBase)
    } else if excluded.contains(c.0@) {
        Some(IndexExclusionReason::PolicyExcluded)
    } else {
        None
    }
}

/// The candidates that are let into the index, in order.
pub open spec fn admitted(b: BaseView, cs: Seq<Candidate>, excluded: Seq<IdView>) -> Seq<EntryView>
    decreases cs.len(),
{
    if cs.len() == 0 {
        Seq::empty()
    } else {
        let below = admitted(b, cs.drop_last(), excluded);
        if exclusion(b, cs.last(), excluded) is None {
            below.push(candidate_entry(cs.last()))
        } else {
            below
        }
    }
}

/// The candidates that are not, in order, with the reasons.
pub open spec fn refused(b: BaseView, cs: Seq<Candidate>, excluded: Seq<IdView>) -> Seq<
    (IdView, IndexExclusionReason),
>
    decreases cs.len(),
{
    if cs.len() == 0 {
        Seq::empty()
    } else {
        let below = refused(b, cs.drop_last(), excluded);
        match exclusion(b, cs.last(), excluded) {
            Some(r) => below.push((cs.last().0@, r)),
            None => below,
        }
    }
}

/// The views of index entries.
pub open spec fn entries_view(es: Seq<DeferredIndexEntry>) -> Seq<EntryView> {
    es.map_values(|e: DeferredIndexEntry| e@)
}

/// The views of exclusions.
pub open spec fn exclusions_view(es: Seq<IndexExclusion>) -> Seq<(IdView, IndexExclusionReason)> {
    es.map_values(|e: IndexExclusion| (e.capability_id@, e.reason))
}

/// The views of hits.
pub open spec fn hits_view(hs: Seq<SearchHit>) -> Seq<HitView> {
    hs.map_values(|h: SearchHit| h@)
}

/// The terms of a query: its words in lower case.
pub open spec fn query_terms(query: Seq<char>) -> Seq<Seq<char>> {
    words_of(lowercase_of(trimmed(query)))
}

/// The hash of a query: 16 hexadecimal digits of the SHA-256 digest of its
/// terms, joined by single spaces.
pub open spec fn query_hash_of(query: Seq<char>) -> Seq<char> {
    fingerprint_of(vstd::utf8::encode_utf8(joined(query_terms(query), " "@))).take(16)
}

/// Whether the name or the description of an entry holds a term.
pub open spec fn has_term(e: EntryView, term: Seq<char>) -> bool {
    contains_text(lowercase_of(e.display_name), term) || contains_text(
        lowercase_of(e.description),
        term,
    )
}

/// Whether an entry has every term.
pub open spec fn has_terms(e: EntryView, terms: Seq<Seq<char>>) -> bool {
    forall|i: int| 0 <= i < terms.len() ==> has_term(e, #[trigger] terms[i])
}

/// The hit for an entry.
pub open spec fn hit_of(e: EntryView, query_hash: Seq<char>) -> HitView {
    HitView {
        id: e.id,
        pinned_revision: e.revision,
        display_name: e.display_name,
        description: e.description,
        query_hash,
    }
}

/// The first position whose hit comes after `id`.
pub open spec fn hit_slot(hs: Seq<HitView>, id: IdView, from: int) -> int
    decreases hs.len() - from,
{
    if from < 0 || from >= hs.len() {
        hs.len() as int
    } else if id_lt(id, hs[from].id) {
        from
    } else {
        hit_slot(hs, id, from + 1)
    }
}

proof fn lemma_hit_slot(hs: Seq<HitView>, id: IdView, from: int)
    requires
        0 <= from <= hs.len(),
    ensures
        from <= hit_slot(hs, id, from) <= hs.len(),
        hit_slot(hs, id, from) < hs.len() ==> id_lt(id, hs[hit_slot(hs, id, from)].id),
        forall|k: int| from <= k < hit_slot(hs, id, from) ==> !id_lt(id, (#[trigger] hs[k]).id),
    decreases hs.len() - from,
{
    if from < hs.len() && !id_lt(id, hs[from].id) {
        lemma_hit_slot(hs, id, from + 1);
    }
}

/// The hits of a query among entries, in the order of identities; those of one
/// identity stay in the order of the entries.
pub open spec fn found(es: Seq<EntryView>, query: Seq<char>) -> Seq<HitView>
    decreases es.len(),
{
    if es.len() == 0 {
        Seq::empty()
    } else {
        let below = found(es.drop_last(), query);
        if has_terms(es.last(), query_terms(query)) {
            below.insert(
                hit_slot(below, es.last().id, 0),
                hit_of(es.last(), query_hash_of(query)),
            )
        } else {
            below
        }
    }
}

impl DeferredToolIndex {
    /// The index of a turn: the candidates that are deferred, that the turn
    /// can promote and that the policy does not leave out.
    pub fn build(
        base: &TurnCapabilityBase,
        candidates: &Vec<Candidate>,
        policy_excluded: &Vec<CapabilityId>,
    ) -> (r: Self)
        ensures
            r.turn_id@ == base@.turn_id,
            entries_view(r.entries@) == admitted(
                base@,
                candidates@,
                ids_view(policy_excluded@),
            ),
            exclusions_view(r.exclusions@) == refused(
                base@,
                candidates@,
                ids_view(policy_excluded@),
            ),
    {
        let ghost ex = ids_view(policy_excluded@);
        let mut entries: Vec<DeferredIndexEntry> = Vec::new();
        let mut exclusions: Vec<IndexExclusion> = Vec::new();
        let mut i: usize = 0;
        assert(entries_view(entries@) =~= admitted(base@, candidates@.take(0), ex));
        assert(exclusions_view(exclusions@) =~= refused(base@, candidates@.take(0), ex));
        while i < candidates.len()
            invariant
                i <= candidates@.len(),
                ex == ids_view(policy_excluded@),
                entries_view(entries@) == admitted(base@, candidates@.take(i as int), ex),
                exclusions_view(exclusions@) == refused(base@, candidates@.take(i as int), ex),
            decreases candidates@.len() - i,
        {
            proof {
                assert(candidates@.take(i as int + 1).drop_last() =~= candidates@.take(i as int));
                assert(candidates@.take(i as int + 1).last() == candidates@[i as int]);
            }
            let ghost es0 = entries_view(entries@);
            let ghost xs0 = exclusions_view(exclusions@);
            let c = &candidates[i];
            let reason = if c.1 != ToolExposure::Deferred {
                Some(IndexExclusionReason::NotDeferred)
            } else if !base.is_promotable(&c.0) {
                Some(IndexExclusionReason::NotInTurnBase)
            } else if contains_id(policy_excluded, &c.0) {
                Some(IndexExclusionReason::PolicyExcluded)
            } else {
                None
            };
            match reason {
                Some(reason) => {
                    exclusions.push(IndexExclusion { capability_id: c.0.clone(), reason });
                    assert(exclusions_view(exclusions@) =~= xs0.push((c.0@, reason)));
                },
                None => {
                    entries.push(
                        DeferredIndexEntry {
                            capability_id: c.0.clone(),
                            revision: c.2,
                            exposure: c.1,
                            display_name: c.3.clone(),
                            description: c.4.clone(),
                        },
                    );
                    assert(entries_view(entries@) =~= es0.push(candidate_entry(*c)));
                },
            }
            i = i + 1;
        }
        assert(candidates@.take(candidates@.len() as int) =~= candidates@);
        DeferredToolIndex { turn_id: base.turn_id.clone(), entries, exclusions }
    }

    fn terms(query: &str) -> (r: Vec<String>)
        ensures
            views(r@) == query_terms(query@),
    {
        let t = trim(query);
        let l = to_lowercase(t.as_str());
        split_words(l.as_str())
    }

    /// The hash of a query. Case and the amount of white space do not matter.
    pub fn query_hash(query: &str) -> (r: String)
        ensures
            r@ == query_hash_of(query@),
            r@.len() == 16,
    {
        let terms = Self::terms(query);
        let normalized = join(&terms, " ");
        let full = fingerprint_bytes(normalized.as_str().as_bytes());
        let digits = chars_of(full.as_str());
        let r = string_of(&digits, 0, 16);
        assert(r@ =~= full@.take(16));
        r
    }

    /// Searches the index: the entries whose name or description holds every
    /// term of the query. Where the turn does not allow deferred promotion,
    /// nothing is searched.
    pub fn search(&self, base: &TurnCapabilityBase, query: &str) -> (r: SearchOutcome)
        ensures
            match r {
                SearchOutcome::PromotionNotAllowed => !base@.deferred_promotion_allowed,
                SearchOutcome::Hits(h) => base@.deferred_promotion_allowed && hits_view(h@)
                    == found(entries_view(self.entries@), query@),
            },
    {
        if !base.deferred_promotion_allowed {
            return SearchOutcome::PromotionNotAllowed;
        }
        let query_hash = Self::query_hash(query);
        let terms = Self::terms(query);
        let ghost es = entries_view(self.entries@);
        let mut hits: Vec<SearchHit> = Vec::new();
        let mut i: usize = 0;
        assert(hits_view(hits@) =~= found(es.take(0), query@));
        while i < self.entries.len()
            invariant
                i <= self.entries@.len(),
                es == entries_view(self.entries@),
                query_hash@ == query_hash_of(query@),
                views(terms@) == query_terms(query@),
                hits_view(hits@) == found(es.take(i as int), query@),
            decreases self.entries@.len() - i,
        {
            proof {
                assert(es.take(i as int + 1).drop_last() =~= es.take(i as int));
                assert(es.take(i as int + 1).last() == self.entries@[i as int]@);
            }
            let e = &self.entries[i];
            if entry_has_terms(e, &terms) {
                let hit = SearchHit {
                    capability_id: e.capability_id.clone(),
                    pinned_revision: e.revision,
                    display_name: e.display_name.clone(),
                    description: e.description.clone(),
                    query_hash: query_hash.clone(),
                };
                assert(hit@ == hit_of(e@, query_hash_of(query@)));
                insert_hit(&mut hits, hit);
            }
            i = i + 1;
        }
        assert(es.take(self.entries@.len() as int) =~= es);
        SearchOutcome::Hits(hits)
    }
}

fn entry_has_terms(e: &DeferredIndexEntry, terms: &Vec<String>) -> (r: bool)
    ensures
        r == has_terms(e@, views(terms@)),
{
    let name = to_lowercase(e.display_name.as_str());
    let desc = to_lowercase(e.description.as_str());
    let mut i: usize = 0;
    while i < terms.len()
        invariant
            i <= terms@.len(),
            name@ == lowercase_of(e@.display_name),
            desc@ == lowercase_of(e@.description),
            forall|k: int| 0 <= k < i ==> has_term(e@, #[trigger] views(terms@)[k]),
        decreases terms@.len() - i,
    {
        let t = terms[i].as_str();
        if !contains(name.as_str(), t) && !contains(desc.as_str(), t) {
            assert(!has_term(e@, views(terms@)[i as int]));
            return false;
        }
        assert(has_term(e@, views(terms@)[i as int]));
        i = i + 1;
    }
    true
}

fn insert_hit(hits: &mut Vec<SearchHit>, hit: SearchHit)
    ensures
        hits_view(final(hits)@) == hits_view(old(hits)@).insert(
            hit_slot(hits_view(old(hits)@), hit@.id, 0),
            hit@,
        ),
{
    let ghost hs = hits_view(hits@);
    let ghost h0 = hit@;
    let mut s: usize = 0;
    while s < hits.len() && !hit.capability_id.precedes(&hits[s].capability_id)
        invariant
            s <= hits@.len(),
            hs == hits_view(hits@),
            hit_slot(hs, hit@.id, s as int) == hit_slot(hs, hit@.id, 0),
        decreases hits@.len() - s,
    {
        assert(hs[s as int].id == hits@[s as int].capability_id@);
        s = s + 1;
    }
    if s < hits.len() {
        assert(hs[s as int].id == hits@[s as int].capability_id@);
    }
    hits.insert(s, hit);
    assert(hits_view(hits@) =~= hs.insert(s as int, h0));
}

/// What explains that a step has a tool that the turn did not begin with.
#[derive(Debug, PartialEq, Eq)]
pub struct CapabilityPromotedEvent {
    pub turn_id: String,
    /// The hash of the query that found it.
    pub query_hash: String,
    pub capability_id: CapabilityId,
    pub pinned_revision: u64,
    /// The step that searched.
    pub source_step_index: usize,
    /// The step that has the tool.
    pub target_step_index: usize,
}

/// A promotion that came too late: the revision changed after the search.
#[derive(Debug, PartialEq, Eq)]
pub struct StalePromotion {
    pub capability_id: CapabilityId,
    pub pinned_revision: u64,
    /// The published revision, 0 where there is none any more.
    pub current_revision: u64,
}

/// A promotion that waits for the next step.
#[derive(Debug)]
pub struct PendingPromotion {
    pub pinned_revision: u64,
    pub query_hash: String,
    pub source_step_index: usize,
}

/// The mathematical value of a [`PendingPromotion`].
pub struct PendingView {
    pub pinned_revision: u64,
    pub query_hash: Seq<char>,
    pub source_step_index: usize,
}

impl View for PendingPromotion {
    type V = PendingView;

    open spec fn view(&self) -> PendingView {
        PendingView {
            pinned_revision: self.pinned_revision,
            query_hash: self.query_hash@,
            source_step_index: self.source_step_index,
        }
    }
}

/// Collects what searches find in a turn, for its next step.
#[derive(Debug)]
pub struct PromotionPlanner {
    turn_id: String,
    promoted_capabilities: IdMap<PendingPromotion>,
}

/// The promotions of a step.
#[derive(Debug)]
pub struct PlannedPromotions {
    /// The capabilities whose revision is still the pinned one, in order.
    pub valid_ids: Vec<CapabilityId>,
    /// Those whose revision changed.
    pub stale: Vec<StalePromotion>,
    /// One event for each valid promotion.
    pub events: Vec<CapabilityPromotedEvent>,
}

/// The mathematical value of a [`CapabilityPromotedEvent`].
pub struct EventView {
    pub turn_id: Seq<char>,
    pub query_hash: Seq<char>,
    pub id: IdView,
    pub pinned_revision: u64,
    pub source_step_index: usize,
    pub target_step_index: usize,
}

/// The views of events.
pub open spec fn events_view(es: Seq<CapabilityPromotedEvent>) -> Seq<EventView> {
    es.map_values(
        |e: CapabilityPromotedEvent|
            EventView {
                turn_id: e.turn_id@,
                query_hash: e.query_hash@,
                id: e.capability_id@,
                pinned_revision: e.pinned_revision,
                source_step_index: e.source_step_index,
                target_step_index: e.target_step_index,
            },
    )
}

/// The views of stale promotions: identity, pinned and current revision.
pub open spec fn stale_view(ss: Seq<StalePromotion>) -> Seq<(IdView, u64, u64)> {
    ss.map_values(
        |s: StalePromotion| (s.capability_id@, s.pinned_revision, s.current_revision),
    )
}

/// The pending promotions by identity.
pub open spec fn pending_map(m: Map<IdView, PendingPromotion>) -> Map<IdView, PendingView> {
    m.map_values(|p: PendingPromotion| p@)
}

/// The pending promotions after the hits of a step were recorded.
pub open spec fn with_hits(
    m: Map<IdView, PendingView>,
    hits: Seq<HitView>,
    source_step_index: usize,
) -> Map<IdView, PendingView>
    decreases hits.len(),
{
    if hits.len() == 0 {
        m
    } else {
        let h = hits.last();
        with_hits(m, hits.drop_last(), source_step_index).insert(
            h.id,
            PendingView {
                pinned_revision: h.pinned_revision,
                query_hash: h.query_hash,
                source_step_index,
            },
        )
    }
}

/// Whether the published revision of a capability is still the pinned one.
pub open spec fn still_pinned(
    m: Map<IdView, PendingView>,
    current: Map<IdView, u64>,
    id: IdView,
) -> bool {
    current.dom().contains(id) && current[id] == m[id].pinned_revision
}

/// The members of `order` whose revision is still the pinned one.
pub open spec fn valid_among(
    m: Map<IdView, PendingView>,
    current: Map<IdView, u64>,
    order: Seq<IdView>,
) -> Seq<IdView>
    decreases order.len(),
{
    if order.len() == 0 {
        Seq::empty()
    } else {
        let below = valid_among(m, current, order.drop_last());
        if still_pinned(m, current, order.last()) {
            below.push(order.last())
        } else {
            below
        }
    }
}

/// The others, with the pinned and the published revision.
pub open spec fn stale_among(
    m: Map<IdView, PendingView>,
    current: Map<IdView, u64>,
    order: Seq<IdView>,
) -> Seq<(IdView, u64, u64)>
    decreases order.len(),
{
    if order.len() == 0 {
        Seq::empty()
    } else {
        let below = stale_among(m, current, order.drop_last());
        let id = order.last();
        if still_pinned(m, current, id) {
            below
        } else {
            below.push(
                (
                    id,
                    m[id].pinned_revision,
                    if current.dom().contains(id) {
                        current[id]
                    } else {
                        0
                    },
                ),
            )
        }
    }
}

/// The event of a valid promotion.
pub open spec fn event_for(
    turn_id: Seq<char>,
    m: Map<IdView, PendingView>,
    id: IdView,
    target_step_index: usize,
) -> EventView {
    EventView {
        turn_id,
        query_hash: m[id].query_hash,
        id,
        pinned_revision: m[id].pinned_revision,
        source_step_index: m[id].source_step_index,
        target_step_index,
    }
}

impl PromotionPlanner {
    /// The planner is sound.
    pub closed spec fn wf(&self) -> bool {
        self.promoted_capabilities.wf()
    }

    /// The turn.
    pub closed spec fn turn(&self) -> Seq<char> {
        self.turn_id@
    }

    /// What waits for the next step.
    pub closed spec fn waiting(&self) -> Map<IdView, PendingView> {
        pending_map(self.promoted_capabilities@)
    }

    /// The order in which it is realised.
    pub closed spec fn order(&self) -> Seq<IdView> {
        self.promoted_capabilities.order()
    }

    /// The order lists what waits, each once and in the order of identities.
    pub proof fn order_is_sorted(&self)
        requires
            self.wf(),
        ensures
            crate::capability::id::in_id_order(self.order()),
            forall|k: IdView| #[trigger] self.order().contains(k) <==> self.waiting().dom().contains(k),
    {
        self.promoted_capabilities.order_is_domain();
        assert(self.waiting().dom() =~= self.promoted_capabilities@.dom());
    }

    /// A planner for a turn.
    pub fn new(turn_id: &str) -> (r: Self)
        ensures
            r.wf(),
            r.turn() == turn_id@,
            r.waiting() == Map::<IdView, PendingView>::empty(),
    {
        let r = PromotionPlanner { turn_id: owned(turn_id), promoted_capabilities: IdMap::new() };
        assert(r.waiting() =~= Map::<IdView, PendingView>::empty());
        r
    }

    /// Records what a step found. Of several hits for one capability the last
    /// counts.
    pub fn record_hits(&mut self, hits: &Vec<SearchHit>, source_step_index: usize)
        requires
            old(self).wf(),
        ensures
            final(self).wf(),
            final(self).turn() == old(self).turn(),
            final(self).waiting() == with_hits(
                old(self).waiting(),
                hits_view(hits@),
                source_step_index,
            ),
    {
        let ghost m0 = self.waiting();
        let ghost hs = hits_view(hits@);
        let mut i: usize = 0;
        while i < hits.len()
            invariant
                i <= hits@.len(),
                hs == hits_view(hits@),
                self.wf(),
                self.turn() == old(self).turn(),
                self.waiting() == with_hits(m0, hs.take(i as int), source_step_index),
            decreases hits@.len() - i,
        {
            proof {
                assert(hs.take(i as int + 1).drop_last() =~= hs.take(i as int));
                assert(hs.take(i as int + 1).last() == hits@[i as int]@);
            }
            let h = &hits[i];
            let ghost mid = self.promoted_capabilities@;
            let p = PendingPromotion {
                pinned_revision: h.pinned_revision,
                query_hash: h.query_hash.clone(),
                source_step_index,
            };
            let ghost pv = p@;
            self.promoted_capabilities.insert(h.capability_id.clone(), p);
            assert(self.waiting() =~= pending_map(mid).insert(h@.id, pv));
            i = i + 1;
        }
        assert(hs.take(hits@.len() as int) =~= hs);
    }

    /// Whether a capability waits for the next step.
    pub fn pending(&self, id: &CapabilityId) -> (r: bool)
        requires
            self.wf(),
        ensures
            r == self.waiting().dom().contains(id@),
    {
        assert(self.waiting().dom() =~= self.promoted_capabilities@.dom());
        self.promoted_capabilities.contains(id)
    }

    /// Realises what waits: a capability whose published revision is still the
    /// pinned one is promoted, any other is reported as stale. Nothing waits
    /// afterwards.
    pub fn plan_overlay(&mut self, target_step_index: usize, current_revisions: &IdMap<u64>) -> (r:
        PlannedPromotions)
        requires
            old(self).wf(),
            current_revisions.wf(),
        ensures
            final(self).wf(),
            final(self).turn() == old(self).turn(),
            final(self).waiting() == Map::<IdView, PendingView>::empty(),
            ids_view(r.valid_ids@) == valid_among(
                old(self).waiting(),
                current_revisions@,
                old(self).order(),
            ),
            stale_view(r.stale@) == stale_among(
                old(self).waiting(),
                current_revisions@,
                old(self).order(),
            ),
            events_view(r.events@) == valid_among(
                old(self).waiting(),
                current_revisions@,
                old(self).order(),
            ).map_values(
                |id: IdView|
                    event_for(old(self).turn(), old(self).waiting(), id, target_step_index),
            ),
    {
        let mut pending: IdMap<PendingPromotion> = IdMap::new();
        core::mem::swap(&mut self.promoted_capabilities, &mut pending);
        assert(self.waiting() =~= Map::<IdView, PendingView>::empty());
        let ghost m = pending_map(pending@);
        let ghost order = pending.order();
        let ghost current = current_revisions@;
        let ghost turn = self.turn();
        let ghost ev = |id: IdView| event_for(turn, m, id, target_step_index);
        let mut valid_ids: Vec<CapabilityId> = Vec::new();
        let mut stale: Vec<StalePromotion> = Vec::new();
        let mut events: Vec<CapabilityPromotedEvent> = Vec::new();
        let n: usize = pending.len();
        let mut i: usize = 0;
        assert(ids_view(valid_ids@) =~= valid_among(m, current, order.take(0)));
        assert(stale_view(stale@) =~= stale_among(m, current, order.take(0)));
        assert(events_view(events@) =~= valid_among(m, current, order.take(0)).map_values(ev));
        while i < n
            invariant
                i <= n == order.len(),
                pending.wf(),
                current_revisions.wf(),
                m == pending_map(pending@),
                order == pending.order(),
                current == current_revisions@,
                turn == self.turn(),
                ev == |id: IdView| event_for(turn, m, id, target_step_index),
                ids_view(valid_ids@) == valid_among(m, current, order.take(i as int)),
                stale_view(stale@) == stale_among(m, current, order.take(i as int)),
                events_view(events@) == valid_among(m, current, order.take(i as int)).map_values(
                    ev,
                ),
            decreases n - i,
        {
            proof {
                assert(order.take(i as int + 1).drop_last() =~= order.take(i as int));
                assert(order.take(i as int + 1).last() == order[i as int]);
            }
            let ghost v0 = valid_among(m, current, order.take(i as int));
            let ghost s0 = stale_view(stale@);
            let ghost e0 = events_view(events@);
            let id = pending.key_at(i);
            let p = pending.value_at(i);
            assert(m[id@] == p@);
            let published = match current_revisions.get(id) {
                Some(c) => Some(*c),
                None => None,
            };
            let fresh = match published {
                Some(c) => c == p.pinned_revision,
                None => false,
            };
            if fresh {
                let ghost vs = valid_ids@;
                valid_ids.push(id.clone());
                events.push(
                    CapabilityPromotedEvent {
                        turn_id: self.turn_id.clone(),
                        query_hash: p.query_hash.clone(),
                        capability_id: id.clone(),
                        pinned_revision: p.pinned_revision,
                        source_step_index: p.source_step_index,
                        target_step_index,
                    },
                );
                assert(ids_view(valid_ids@) =~= v0.push(id@));
                assert(events_view(events@) =~= e0.push(ev(id@)));
                assert(v0.push(id@).map_values(ev) =~= v0.map_values(ev).push(ev(id@)));
            } else {
                let current_revision: u64 = match published {
                    Some(c) => c,
                    None => 0,
                };
                stale.push(
                    StalePromotion {
                        capability_id: id.clone(),
                        pinned_revision: p.pinned_revision,
                        current_revision,
                    },
                );
                assert(stale_view(stale@) =~= s0.push((id@, p.pinned_revision, current_revision)));
            }
            i = i + 1;
        }
        assert(order.take(n as int) =~= order);
        PlannedPromotions { valid_ids, stale, events }
    }
}

/// Only deferred capabilities that the turn can promote and that the policy
/// does not leave out can be found.
pub proof fn only_admitted_capabilities_are_searchable(
    b: BaseView,
    cs: Seq<Candidate>,
    excluded: Seq<IdView>,
    i: int,
)
    requires
        0 <= i < admitted(b, cs, excluded).len(),
    ensures
        admitted(b, cs, excluded)[i].exposure == ToolExposure::Deferred,
        b.promotable_ids.contains(admitted(b, cs, excluded)[i].id),
        !excluded.contains(admitted(b, cs, excluded)[i].id),
    decreases cs.len(),
{
    if cs.len() > 0 {
        let below = admitted(b, cs.drop_last(), excluded);
        if i < below.len() {
            only_admitted_capabilities_are_searchable(b, cs.drop_last(), excluded, i);
        }
    }
}

/// Hits come in the order of identities.
pub proof fn hits_are_in_order(es: Seq<EntryView>, query: Seq<char>, i: int, j: int)
    requires
        0 <= i < j < found(es, query).len(),
    ensures
        !id_lt(found(es, query)[j].id, found(es, query)[i].id),
    decreases es.len(),
{
    if es.len() > 0 {
        let below = found(es.drop_last(), query);
        let all = found(es, query);
        if has_terms(es.last(), query_terms(query)) {
            let id = es.last().id;
            let s = hit_slot(below, id, 0);
            lemma_hit_slot(below, id, 0);
            let h = hit_of(es.last(), query_hash_of(query));
            assert(all == below.insert(s, h));
            if j < s {
                hits_are_in_order(es.drop_last(), query, i, j);
                assert(all[i] == below[i] && all[j] == below[j]);
            } else if j == s {
                assert(all[i] == below[i]);
            } else if i == s {
                assert(all[j] == below[j - 1]);
                crate::capability::id::id_order_is_total(id, below[s].id);
                if j - 1 > s {
                    hits_are_in_order(es.drop_last(), query, s, j - 1);
                    crate::capability::id::id_order_is_total(below[j - 1].id, id);
                    if id_lt(below[j - 1].id, id) {
                        crate::capability::id::id_order_is_transitive(
                            below[j - 1].id,
                            id,
                            below[s].id,
                        );
                    }
                }
            } else {
                let i2 = if i < s { i } else { i - 1 };
                hits_are_in_order(es.drop_last(), query, i2, j - 1);
                assert(all[i] == below[i2] && all[j] == below[j - 1]);
            }
        } else {
            hits_are_in_order(es.drop_last(), query, i, j);
        }
    }
}

/// A capability whose revision changed since the search is never promoted.
pub proof fn changed_capabilities_are_never_promoted(
    m: Map<IdView, PendingView>,
    current: Map<IdView, u64>,
    order: Seq<IdView>,
    i: int,
)
    requires
        0 <= i < valid_among(m, current, order).len(),
    ensures
        still_pinned(m, current, valid_among(m, current, order)[i]),
        order.contains(valid_among(m, current, order)[i]),
    decreases order.len(),
{
    if order.len() > 0 {
        let below = valid_among(m, current, order.drop_last());
        if i < below.len() {
            changed_capabilities_are_never_promoted(m, current, order.drop_last(), i);
            let k = choose|k: int|
                0 <= k < order.drop_last().len() && order.drop_last()[k] == below[i];
            assert(order[k] == below[i]);
        } else {
            assert(order[order.len() - 1] == order.last());
        }
    }
}

/// Every pending promotion is either realised or reported.
pub proof fn nothing_pending_is_lost(
    m: Map<IdView, PendingView>,
    current: Map<IdView, u64>,
    order: Seq<IdView>,
)
    ensures
        valid_among(m, current, order).len() + stale_among(m, current, order).len() == order.len(),
    decreases order.len(),
{
    if order.len() > 0 {
        nothing_pending_is_lost(m, current, order.drop_last());
    }
}

/// Whether an entry answers a query: every word of the query, in letters of
/// either case, occurs in its name or in its description.
pub open spec fn answers(e: EntryView, query: Seq<char>) -> bool {
    forall|term: Seq<char>| #[trigger]
        words_of(lowercase_of(trimmed(query))).contains(term) ==> (contains_text(
            lowercase_of(e.display_name),
            term,
        ) || contains_text(lowercase_of(e.description), term))
}

proof fn lemma_answers(e: EntryView, query: Seq<char>)
    ensures
        answers(e, query) == has_terms(e, query_terms(query)),
{
    let terms = words_of(lowercase_of(trimmed(query)));
    if answers(e, query) {
        assert forall|i: int| 0 <= i < terms.len() implies has_term(e, #[trigger] terms[i]) by {
            assert(terms.contains(terms[i]));
        }
    }
    if has_terms(e, terms) {
        assert forall|t: Seq<char>| #[trigger] terms.contains(t) implies has_term(e, t) by {
            let i = choose|i: int| 0 <= i < terms.len() && terms[i] == t;
            assert(has_term(e, terms[i]));
        }
    }
}

/// Every entry that answers a query is among the hits, with the revision that
/// it had in the index.
pub proof fn answers_are_found(es: Seq<EntryView>, query: Seq<char>, i: int)
    requires
        0 <= i < es.len(),
        answers(es[i], query),
    ensures
        found(es, query).contains(
            HitView {
                id: es[i].id,
                pinned_revision: es[i].revision,
                display_name: es[i].display_name,
                description: es[i].description,
                query_hash: query_hash_of(query),
            },
        ),
    decreases es.len(),
{
    let below = found(es.drop_last(), query);
    let all = found(es, query);
    lemma_answers(es[i], query);
    let h = hit_of(es.last(), query_hash_of(query));
    let s = hit_slot(below, es.last().id, 0);
    lemma_hit_slot(below, es.last().id, 0);
    if i == es.len() - 1 {
        assert(all[s] == h);
    } else {
        answers_are_found(es.drop_last(), query, i);
        let x = hit_of(es[i], query_hash_of(query));
        let k = choose|k: int| 0 <= k < below.len() && below[k] == x;
        if has_terms(es.last(), query_terms(query)) {
            assert(all == below.insert(s, h));
            assert(all[if k < s { k } else { k + 1 }] == x);
        } else {
            assert(all[k] == x);
        }
    }
}

/// Every hit is that of an entry that answers the query.
pub proof fn hits_answer_the_query(es: Seq<EntryView>, query: Seq<char>, k: int)
    requires
        0 <= k < found(es, query).len(),
    ensures
        exists|i: int|
            0 <= i < es.len() && answers(#[trigger] es[i], query) && {
                let h = found(es, query)[k];
                h.id == es[i].id && h.pinned_revision == es[i].revision && h.display_name
                    == es[i].display_name && h.description == es[i].description && h.query_hash
                    == query_hash_of(query)
            },
    decreases es.len(),
{
    if es.len() > 0 {
        let below = found(es.drop_last(), query);
        let all = found(es, query);
        let n = es.len() - 1;
        lemma_answers(es[n], query);
        let s = hit_slot(below, es.last().id, 0);
        lemma_hit_slot(below, es.last().id, 0);
        let hit = has_terms(es.last(), query_terms(query));
        if hit && k == s {
            assert(es[n] == es.last());
        } else {
            let k2 = if hit && k > s { k - 1 } else { k };
            assert(all[k] == below[k2]);
            hits_answer_the_query(es.drop_last(), query, k2);
            let i = choose|i: int|
                0 <= i < es.drop_last().len() && answers(#[trigger] es.drop_last()[i], query) && {
                    let h = below[k2];
                    h.id == es.drop_last()[i].id && h.pinned_revision == es.drop_last()[i].revision
                        && h.display_name == es.drop_last()[i].display_name && h.description
                        == es.drop_last()[i].description && h.query_hash == query_hash_of(query)
                };
            assert(es[i] == es.drop_last()[i]);
        }
    }
}

/// How many of the first `n` entries answer a query.
pub open spec fn answer_count(es: Seq<EntryView>, query: Seq<char>, n: int) -> int
    decreases n,
{
    if n <= 0 {
        0
    } else {
        answer_count(es, query, n - 1) + (if answers(es[n - 1], query) {
            1int
        } else {
            0int
        })
    }
}

/// There is one hit for each entry that answers a query.
pub proof fn each_answer_is_one_hit(es: Seq<EntryView>, query: Seq<char>)
    ensures
        found(es, query).len() == answer_count(es, query, es.len() as int),
    decreases es.len(),
{
    if es.len() > 0 {
        let d = es.drop_last();
        each_answer_is_one_hit(d, query);
        lemma_answers(es.last(), query);
        lemma_hit_slot(found(d, query), es.last().id, 0);
        lemma_answer_count(es, d, query, d.len() as int);
    }
}

proof fn lemma_answer_count(a: Seq<EntryView>, b: Seq<EntryView>, query: Seq<char>, n: int)
    requires
        n <= a.len(),
        n <= b.len(),
        forall|i: int| 0 <= i < n ==> a[i] == b[i],
    ensures
        answer_count(a, query, n) == answer_count(b, query, n),
    decreases n,
{
    if n > 0 {
        lemma_answer_count(a, b, query, n - 1);
    }
}

/// The hash of a query is 16 digits of the SHA-256 digest of its words in lower
/// case, with one space between them: queries with the same words have it in
/// common.
pub proof fn equal_words_have_equal_hashes(a: Seq<char>, b: Seq<char>)
    ensures
        query_hash_of(a) == fingerprint_of(
            vstd::utf8::encode_utf8(joined(words_of(lowercase_of(trimmed(a))), " "@)),
        ).take(16),
        words_of(lowercase_of(trimmed(a))) == words_of(lowercase_of(trimmed(b)))
            ==> query_hash_of(a) == query_hash_of(b),
{
}

/// Every candidate is either in the index, with its own revision, name and
/// description, or among the exclusions, with the first reason that holds.
pub proof fn every_candidate_is_accounted_for(
    b: BaseView,
    cs: Seq<Candidate>,
    excluded: Seq<IdView>,
    i: int,
)
    requires
        0 <= i < cs.len(),
    ensures
        ({
            let c = cs[i];
            let deferred = c.1 == ToolExposure::Deferred;
            let promotable = b.promotable_ids.contains(c.0@);
            let left_out = excluded.contains(c.0@);
            let xs = refused(b, cs, excluded);
            &&& deferred && promotable && !left_out ==> admitted(b, cs, excluded).contains(
                EntryView {
                    id: c.0@,
                    revision: c.2,
                    exposure: ToolExposure::Deferred,
                    display_name: c.3@,
                    description: c.4@,
                },
            )
            &&& !deferred ==> xs.contains((c.0@, IndexExclusionReason::NotDeferred))
            &&& deferred && !promotable ==> xs.contains((c.0@, IndexExclusionReason::NotInTurnBase))
            &&& deferred && promotable && left_out ==> xs.contains(
                (c.0@, IndexExclusionReason::PolicyExcluded),
            )
        }),
        admitted(b, cs, excluded).len() + refused(b, cs, excluded).len() == cs.len(),
    decreases cs.len(),
{
    let d = cs.drop_last();
    let es = admitted(b, d, excluded);
    let xs = refused(b, d, excluded);
    let es1 = admitted(b, cs, excluded);
    let xs1 = refused(b, cs, excluded);
    if d.len() > 0 {
        every_candidate_is_accounted_for(b, d, excluded, 0);
    }
    if i < d.len() {
        every_candidate_is_accounted_for(b, d, excluded, i);
        assert(d[i] == cs[i]);
        assert forall|e: EntryView| es.contains(e) implies es1.contains(e) by {
            let k = choose|k: int| 0 <= k < es.len() && es[k] == e;
            assert(es1[k] == e);
        }
        assert forall|x: (IdView, IndexExclusionReason)| xs.contains(x) implies xs1.contains(x) by {
            let k = choose|k: int| 0 <= k < xs.len() && xs[k] == x;
            assert(xs1[k] == x);
        }
    } else {
        assert(cs[i] == cs.last());
        if exclusion(b, cs.last(), excluded) is None {
            assert(es1[es1.len() - 1] == candidate_entry(cs.last()));
        } else {
            assert(xs1[xs1.len() - 1].0 == cs.last().0@);
        }
    }
}

/// What a search found waits for the next step with its revision, its query and
/// its step; of several hits for one capability the last counts. Everything
/// else that waited goes on waiting.
pub proof fn hits_wait_for_the_next_step(
    m: Map<IdView, PendingView>,
    hits: Seq<HitView>,
    step: usize,
    id: IdView,
    i: int,
)
    ensures
        (forall|k: int| 0 <= k < hits.len() ==> (#[trigger] hits[k]).id != id) ==> (with_hits(
            m,
            hits,
            step,
        ).dom().contains(id) == m.dom().contains(id) && with_hits(m, hits, step)[id] == m[id]),
        0 <= i < hits.len() && hits[i].id == id && (forall|k: int|
            i < k < hits.len() ==> (#[trigger] hits[k]).id != id) ==> (with_hits(
            m,
            hits,
            step,
        ).dom().contains(id) && with_hits(m, hits, step)[id] == (PendingView {
            pinned_revision: hits[i].pinned_revision,
            query_hash: hits[i].query_hash,
            source_step_index: step,
        })),
    decreases hits.len(),
{
    if hits.len() > 0 {
        let d = hits.drop_last();
        let n = hits.len() - 1;
        hits_wait_for_the_next_step(m, d, step, id, i);
        assert(hits[n] == hits.last());
        if hits.last().id != id {
            if forall|k: int| 0 <= k < hits.len() ==> (#[trigger] hits[k]).id != id {
                assert forall|k: int| 0 <= k < d.len() implies (#[trigger] d[k]).id != id by {
                    assert(d[k] == hits[k]);
                }
            }
            if 0 <= i < hits.len() && hits[i].id == id && (forall|k: int|
                i < k < hits.len() ==> (#[trigger] hits[k]).id != id) {
                assert(d[i] == hits[i]);
                assert forall|k: int| i < k < d.len() implies (#[trigger] d[k]).id != id by {
                    assert(d[k] == hits[k]);
                }
            }
        }
    }
}

/// What waits is promoted exactly where its published revision is the one that
/// was found; anything else is reported as stale, with both revisions.
pub proof fn waiting_promotions_are_settled(
    m: Map<IdView, PendingView>,
    current: Map<IdView, u64>,
    order: Seq<IdView>,
    i: int,
)
    requires
        0 <= i < order.len(),
    ensures
        ({
            let id = order[i];
            let same = current.dom().contains(id) && current[id] == m[id].pinned_revision;
            &&& same ==> valid_among(m, current, order).contains(id)
            &&& !same ==> stale_among(m, current, order).contains(
                (
                    id,
                    m[id].pinned_revision,
                    if current.dom().contains(id) {
                        current[id]
                    } else {
                        0
                    },
                ),
            )
        }),
    decreases order.len(),
{
    let d = order.drop_last();
    let v = valid_among(m, current, d);
    let s = stale_among(m, current, d);
    let v1 = valid_among(m, current, order);
    let s1 = stale_among(m, current, order);
    if i < d.len() {
        waiting_promotions_are_settled(m, current, d, i);
        assert(d[i] == order[i]);
        assert forall|x: IdView| v.contains(x) implies v1.contains(x) by {
            let k = choose|k: int| 0 <= k < v.len() && v[k] == x;
            assert(v1[k] == x);
        }
        assert forall|x: (IdView, u64, u64)| s.contains(x) implies s1.contains(x) by {
            let k = choose|k: int| 0 <= k < s.len() && s[k] == x;
            assert(s1[k] == x);
        }
    } else {
        assert(order[i] == order.last());
        if still_pinned(m, current, order.last()) {
            assert(v1[v1.len() - 1] == order.last());
        } else {
            assert(s1[s1.len() - 1].0 == order.last());
        }
    }
}

/// Nothing is promoted or reported twice, or without having waited, and what is
/// promoted has the revision that was found.
pub proof fn settled_promotions_had_waited(
    m: Map<IdView, PendingView>,
    current: Map<IdView, u64>,
    order: Seq<IdView>,
    k: int,
)
    ensures
        0 <= k < valid_among(m, current, order).len() ==> {
            let id = valid_among(m, current, order)[k];
            order.contains(id) && current.dom().contains(id) && current[id]
                == m[id].pinned_revision
        },
        0 <= k < stale_among(m, current, order).len() ==> {
            let s = stale_among(m, current, order)[k];
            &&& order.contains(s.0)
            &&& s.1 == m[s.0].pinned_revision
            &&& !(current.dom().contains(s.0) && current[s.0] == s.1)
        },
    decreases order.len(),
{
    if order.len() > 0 {
        let d = order.drop_last();
        let v = valid_among(m, current, d);
        let s = stale_among(m, current, d);
        settled_promotions_had_waited(m, current, d, k);
        assert forall|x: IdView| d.contains(x) implies order.contains(x) by {
            let j = choose|j: int| 0 <= j < d.len() && d[j] == x;
            assert(order[j] == x);
        }
        assert(order[order.len() - 1] == order.last());
    }
}

/// The event of a promotion tells which search of which step found it, in which
/// turn, and which step has it.
pub proof fn events_explain_promotions(
    turn_id: Seq<char>,
    m: Map<IdView, PendingView>,
    id: IdView,
    target: usize,
)
    ensures
        ({
            let e = event_for(turn_id, m, id, target);
            &&& e.turn_id == turn_id
            &&& e.id == id
            &&& e.query_hash == m[id].query_hash
            &&& e.pinned_revision == m[id].pinned_revision
            &&& e.source_step_index == m[id].source_step_index
            &&& e.target_step_index == target
        }),
{
}

} // verus!
