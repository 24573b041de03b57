//! The identity of a capability, and the order in which capabilities are
//! listed.

use vstd::prelude::*;
use vstd::string::*;

use crate::capability::authority::{authority_level, authority_name, levels_are_distinct, Authority};
use crate::text::{
    debug_str, debug_str_of, decimal, decimal_string, less, owned, same, text_lt,
    text_lt_irreflexive, text_lt_total, text_lt_transitive,
};

verus! {

/// What a capability is.
#[derive(Debug, Clone, Copy, PartialEq, Eq, PartialOrd, Ord, Hash, Structural)]
pub enum CapabilityKind {
    /// An operation that runs.
    Tool,
    /// A workflow or a set of instructions.
    Skill,
    /// A document, schema or template.
    Resource,
    /// An action of the application that the model never sees.
    AppAction,
}

/// The place of a kind in the order of kinds.
pub open spec fn kind_rank(k: CapabilityKind) -> int {
    match k {
        CapabilityKind::Tool => 0,
        CapabilityKind::Skill => 1,
        CapabilityKind::Resource => 2,
        CapabilityKind::AppAction => 3,
    }
}

/// The word for a kind.
pub open spec fn kind_word(k: CapabilityKind) -> Seq<char> {
    match k {
        CapabilityKind::Tool => "tool"@,
        CapabilityKind::Skill => "skill"@,
        CapabilityKind::Resource => "resource"@,
        CapabilityKind::AppAction => "app_action"@,
    }
}

/// The name of a kind.
pub open spec fn kind_name(k: CapabilityKind) -> Seq<char> {
    match k {
        CapabilityKind::Tool => "Tool"@,
        CapabilityKind::Skill => "Skill"@,
        CapabilityKind::Resource => "Resource"@,
        CapabilityKind::AppAction => "AppAction"@,
    }
}

impl CapabilityKind {
    /// The word for the kind.
    pub fn as_str(self) -> (r: &'static str)
        ensures
            r@ == kind_word(self),
    {
        match self {
            CapabilityKind::Tool => "tool",
            CapabilityKind::Skill => "skill",
            CapabilityKind::Resource => "resource",
            CapabilityKind::AppAction => "app_action",
        }
    }

    /// The name of the kind.
    pub fn name(self) -> (r: &'static str)
        ensures
            r@ == kind_name(self),
    {
        match self {
            CapabilityKind::Tool => "Tool",
            CapabilityKind::Skill => "Skill",
            CapabilityKind::Resource => "Resource",
            CapabilityKind::AppAction => "AppAction",
        }
    }

    fn rank(self) -> (r: u8)
        ensures
            r == kind_rank(self),
    {
        match self {
            CapabilityKind::Tool => 0,
            CapabilityKind::Skill => 1,
            CapabilityKind::Resource => 2,
            CapabilityKind::AppAction => 3,
        }
    }
}

/// The identity of a capability.
#[derive(Debug, PartialEq, Eq, PartialOrd, Ord, Hash)]
pub struct CapabilityId {
    /// Who provides it.
    pub authority: Authority,
    /// The name of the provider.
    pub provider_id: String,
    /// What it is.
    pub kind: CapabilityKind,
    /// The name by which it is called.
    pub canonical_name: String,
}

/// The mathematical value of a [`CapabilityId`].
pub struct IdView {
    pub authority: Authority,
    pub provider_id: Seq<char>,
    pub kind: CapabilityKind,
    pub canonical_name: Seq<char>,
}

impl View for CapabilityId {
    type V = IdView;

    open spec fn view(&self) -> IdView {
        IdView {
            authority: self.authority,
            provider_id: self.provider_id@,
            kind: self.kind,
            canonical_name: self.canonical_name@,
        }
    }
}

impl Clone for CapabilityId {
    fn clone(&self) -> (r: Self)
        ensures
            r@ == self@,
    {
        CapabilityId {
            authority: self.authority,
            provider_id: self.provider_id.clone(),
            kind: self.kind,
            canonical_name: self.canonical_name.clone(),
        }
    }
}

/// The text that stands for an identity in hashes.
pub open spec fn stable_input(id: IdView) -> Seq<char> {
    decimal(authority_level(id.authority) as nat) + "|"@ + id.provider_id + "|"@ + kind_word(id.kind)
        + "|"@ + id.canonical_name
}

/// The notation of an identity in messages.
pub open spec fn id_debug(id: IdView) -> Seq<char> {
    "CapabilityId { authority: "@ + authority_name(id.authority) + ", provider_id: "@
        + debug_str_of(id.provider_id) + ", kind: "@ + kind_name(id.kind) + ", canonical_name: "@
        + debug_str_of(id.canonical_name) + " }"@
}

/// The order of identities: by source, provider, kind and name.
pub open spec fn id_lt(a: IdView, b: IdView) -> bool {
    if authority_level(a.authority) != authority_level(b.authority) {
        authority_level(a.authority) < authority_level(b.authority)
    } else if a.provider_id != b.provider_id {
        text_lt(a.provider_id, b.provider_id)
    } else if kind_rank(a.kind) != kind_rank(b.kind) {
        kind_rank(a.kind) < kind_rank(b.kind)
    } else {
        text_lt(a.canonical_name, b.canonical_name)
    }
}

impl CapabilityId {
    /// The identity with the given parts.
    pub fn new(
        authority: Authority,
        provider_id: &str,
        kind: CapabilityKind,
        canonical_name: &str,
    ) -> (r: Self)
        ensures
            r@ == (IdView {
                authority,
                provider_id: provider_id@,
                kind,
                canonical_name: canonical_name@,
            }),
    {
        CapabilityId {
            authority,
            provider_id: owned(provider_id),
            kind,
            canonical_name: owned(canonical_name),
        }
    }

    /// The text that stands for the identity in hashes.
    pub fn stable_hash_input(&self) -> (r: String)
        ensures
            r@ == stable_input(self@),
    {
        let mut s = decimal_string(self.authority.level() as u64);
        s.append("|");
        s.append(self.provider_id.as_str());
        s.append("|");
        s.append(self.kind.as_str());
        s.append("|");
        s.append(self.canonical_name.as_str());
        s
    }

    /// The notation of the identity in messages.
    pub fn debug_text(&self) -> (r: String)
        ensures
            r@ == id_debug(self@),
    {
        let mut s = owned("CapabilityId { authority: ");
        s.append(self.authority.name());
        s.append(", provider_id: ");
        s.append(debug_str(self.provider_id.as_str()).as_str());
        s.append(", kind: ");
        s.append(self.kind.name());
        s.append(", canonical_name: ");
        s.append(debug_str(self.canonical_name.as_str()).as_str());
        s.append(" }");
        s
    }

    /// Whether two identities are the same.
    pub fn is(&self, other: &CapabilityId) -> (r: bool)
        ensures
            r == (self@ == other@),
    {
        self.authority == other.authority && self.kind == other.kind && same(
            self.provider_id.as_str(),
            other.provider_id.as_str(),
        ) && same(self.canonical_name.as_str(), other.canonical_name.as_str())
    }

    /// Whether this identity comes before another.
    pub fn precedes(&self, other: &CapabilityId) -> (r: bool)
        ensures
            r == id_lt(self@, other@),
    {
        if self.authority.level() != other.authority.level() {
            self.authority.level() < other.authority.level()
        } else if !same(self.provider_id.as_str(), other.provider_id.as_str()) {
            less(self.provider_id.as_str(), other.provider_id.as_str())
        } else if self.kind.rank() != other.kind.rank() {
            self.kind.rank() < other.kind.rank()
        } else {
            less(self.canonical_name.as_str(), other.canonical_name.as_str())
        }
    }
}

/// The order of identities is strict and total.
pub proof fn id_order_is_total(a: IdView, b: IdView)
    ensures
        a == b || id_lt(a, b) || id_lt(b, a),
        !(id_lt(a, b) && id_lt(b, a)),
        a == b ==> !id_lt(a, b),
{
    levels_are_distinct(a.authority, b.authority);
    text_lt_total(a.provider_id, b.provider_id);
    text_lt_total(a.canonical_name, b.canonical_name);
}

/// The order of identities is transitive.
pub proof fn id_order_is_transitive(a: IdView, b: IdView, c: IdView)
    requires
        id_lt(a, b),
        id_lt(b, c),
    ensures
        id_lt(a, c),
{
    if authority_level(a.authority) == authority_level(b.authority) && authority_level(b.authority)
        == authority_level(c.authority) {
        if a.provider_id != b.provider_id && b.provider_id != c.provider_id {
            text_lt_transitive(a.provider_id, b.provider_id, c.provider_id);
            text_lt_irreflexive(a.provider_id);
        } else if a.provider_id == b.provider_id && b.provider_id == c.provider_id {
            if kind_rank(a.kind) == kind_rank(b.kind) && kind_rank(b.kind) == kind_rank(c.kind) {
                text_lt_transitive(a.canonical_name, b.canonical_name, c.canonical_name);
            }
        }
    }
}

/// The views of a list of identities.
pub open spec fn ids_view(ids: Seq<CapabilityId>) -> Seq<IdView> {
    ids.map_values(|id: CapabilityId| id@)
}

/// Whether identities stand in strict order.
pub open spec fn in_id_order(ids: Seq<IdView>) -> bool {
    forall|i: int, j: int| 0 <= i < j < ids.len() ==> id_lt(#[trigger] ids[i], #[trigger] ids[j])
}

/// Whether `l` lists the members of `ids` in strict order.
pub open spec fn is_listing(l: Seq<IdView>, ids: Seq<IdView>) -> bool {
    in_id_order(l) && forall|k: IdView| #[trigger] l.contains(k) <==> ids.contains(k)
}

/// The members of `ids` in strict order.
pub open spec fn listing(ids: Seq<IdView>) -> Seq<IdView> {
    choose|l: Seq<IdView>| is_listing(l, ids)
}

/// Two lists in strict order with the same members are the same list.
pub proof fn ordered_ids_are_equal(a: Seq<IdView>, b: Seq<IdView>)
    requires
        in_id_order(a),
        in_id_order(b),
        forall|k: IdView| #[trigger] a.contains(k) <==> b.contains(k),
    ensures
        a == b,
    decreases a.len(),
{
    if a.len() == 0 {
        if b.len() > 0 {
            assert(b.contains(b[0]));
            assert(a.contains(b[0]));
        }
        assert(a =~= b);
    } else {
        let x = a.last();
        assert(a.contains(x)) by {
            assert(a[a.len() - 1] == x);
        }
        assert(b.contains(x));
        let i = choose|i: int| 0 <= i < b.len() && b[i] == x;
        let y = b.last();
        assert(b[b.len() - 1] == y);
        assert(b.contains(y));
        assert(a.contains(y));
        let j = choose|j: int| 0 <= j < a.len() && a[j] == y;
        assert(x == y) by {
            id_order_is_total(x, y);
            if i < b.len() - 1 {
                assert(id_lt(b[i], b[b.len() - 1]));
            }
            if j < a.len() - 1 {
                assert(id_lt(a[j], a[a.len() - 1]));
            }
        }
        let a1 = a.drop_last();
        let b1 = b.drop_last();
        id_order_is_total(x, x);
        assert forall|k: IdView| #[trigger] a1.contains(k) <==> b1.contains(k) by {
            if a1.contains(k) {
                let p = choose|p: int| 0 <= p < a1.len() && a1[p] == k;
                assert(a[p] == k);
                assert(id_lt(a[p], a[a.len() - 1]));
                assert(a.contains(k));
                let q = choose|q: int| 0 <= q < b.len() && b[q] == k;
                assert(q < b.len() - 1);
                assert(b1[q] == k);
            }
            if b1.contains(k) {
                let p = choose|p: int| 0 <= p < b1.len() && b1[p] == k;
                assert(b[p] == k);
                assert(id_lt(b[p], b[b.len() - 1]));
                assert(b.contains(k));
                assert(a.contains(k));
                let q = choose|q: int| 0 <= q < a.len() && a[q] == k;
                assert(q < a.len() - 1);
                assert(a1[q] == k);
            }
        }
        assert forall|p: int, q: int| 0 <= p < q < a1.len() implies id_lt(
            #[trigger] a1[p],
            #[trigger] a1[q],
        ) by {
            assert(a1[p] == a[p] && a1[q] == a[q]);
        }
        assert forall|p: int, q: int| 0 <= p < q < b1.len() implies id_lt(
            #[trigger] b1[p],
            #[trigger] b1[q],
        ) by {
            assert(b1[p] == b[p] && b1[q] == b[q]);
        }
        ordered_ids_are_equal(a1, b1);
        assert(a =~= a1.push(x));
        assert(b =~= b1.push(x));
    }
}

/// A list that lists the members of `ids` in strict order is `listing(ids)`.
pub proof fn listing_is_unique(l: Seq<IdView>, ids: Seq<IdView>)
    requires
        is_listing(l, ids),
    ensures
        l == listing(ids),
        is_listing(listing(ids), ids),
{
    let c = listing(ids);
    assert forall|k: IdView| #[trigger] l.contains(k) <==> c.contains(k) by {
        assert(ids.contains(k) <==> l.contains(k));
    }
    ordered_ids_are_equal(l, c);
}

/// Whether a list holds an identity.
pub fn contains_id(ids: &Vec<CapabilityId>, id: &CapabilityId) -> (r: bool)
    ensures
        r == ids_view(ids@).contains(id@),
{
    let mut i: usize = 0;
    while i < ids.len()
        invariant
            i <= ids@.len(),
            forall|k: int| 0 <= k < i ==> ids_view(ids@)[k] != id@,
        decreases ids@.len() - i,
    {
        if ids[i].is(id) {
            assert(ids_view(ids@)[i as int] == id@);
            return true;
        }
        i = i + 1;
    }
    false
}

/// Adds an identity to a list in strict order, unless it is there.
pub fn add_id(v: &mut Vec<CapabilityId>, id: CapabilityId)
    requires
        in_id_order(ids_view(old(v)@)),
    ensures
        in_id_order(ids_view(final(v)@)),
        forall|k: IdView| #[trigger]
            ids_view(final(v)@).contains(k) <==> (k == id@ || ids_view(old(v)@).contains(k)),
{
    let ghost b = ids_view(v@);
    let mut i: usize = 0;
    while i < v.len() && v[i].precedes(&id)
        invariant
            i <= v@.len(),
            b == ids_view(v@),
            forall|k: int| 0 <= k < i ==> id_lt(#[trigger] b[k], id@),
        decreases v@.len() - i,
    {
        assert(b[i as int] == v@[i as int]@);
        i = i + 1;
    }
    if i < v.len() && v[i].is(&id) {
        assert(b[i as int] == id@);
        return ;
    }
    let ghost s0 = id@;
    v.insert(i, id);
    proof {
        let a = ids_view(v@);
        assert(a =~= b.insert(i as int, s0));
        if i < b.len() {
            id_order_is_total(b[i as int], s0);
        }
        assert forall|x: int, y: int| 0 <= x < y < a.len() implies id_lt(
            #[trigger] a[x],
            #[trigger] a[y],
        ) by {
            if y == i {
                assert(a[x] == b[x]);
            } else if x == i {
                assert(a[y] == b[y - 1]);
                if y - 1 > i {
                    id_order_is_transitive(s0, b[i as int], b[y - 1]);
                }
            } else {
                let x2 = if x < i { x } else { x - 1 };
                let y2 = if y < i { y } else { y - 1 };
                assert(a[x] == b[x2] && a[y] == b[y2]);
            }
        }
        assert forall|k: IdView| #[trigger] a.contains(k) <==> (k == s0 || b.contains(k)) by {
            if a.contains(k) {
                let x = choose|x: int| 0 <= x < a.len() && a[x] == k;
                if x < i {
                    assert(b[x] == k);
                } else if x > i {
                    assert(b[x - 1] == k);
                }
            }
            if b.contains(k) {
                let x = choose|x: int| 0 <= x < b.len() && b[x] == k;
                if x < i {
                    assert(a[x] == k);
                } else {
                    assert(a[x + 1] == k);
                }
            }
            if k == s0 {
                assert(a[i as int] == k);
            }
        }
    }
}

/// The members of a list in strict order, each once.
pub fn sorted_ids(ids: &Vec<CapabilityId>) -> (r: Vec<CapabilityId>)
    ensures
        is_listing(ids_view(r@), ids_view(ids@)),
        ids_view(r@) == listing(ids_view(ids@)),
{
    let ghost all = ids_view(ids@);
    let mut out: Vec<CapabilityId> = Vec::new();
    let mut i: usize = 0;
    while i < ids.len()
        invariant
            i <= ids@.len(),
            all == ids_view(ids@),
            is_listing(ids_view(out@), all.take(i as int)),
        decreases ids@.len() - i,
    {
        let ghost before = ids_view(out@);
        let id = ids[i].clone();
        let ghost v = id@;
        add_id(&mut out, id);
        proof {
            let t0 = all.take(i as int);
            let t1 = all.take(i as int + 1);
            assert(t1 =~= t0.push(v));
            assert forall|k: IdView| #[trigger] ids_view(out@).contains(k) <==> t1.contains(k) by {
                if t1.contains(k) {
                    let x = choose|x: int| 0 <= x < t1.len() && t1[x] == k;
                    if x < i {
                        assert(t0[x] == k);
                    }
                }
                if t0.contains(k) {
                    let x = choose|x: int| 0 <= x < t0.len() && t0[x] == k;
                    assert(t1[x] == k);
                }
                if k == v {
                    assert(t1[i as int] == k);
                }
                assert(before.contains(k) <==> t0.contains(k));
            }
        }
        i = i + 1;
    }
    proof {
        assert(all.take(ids@.len() as int) =~= all);
        listing_is_unique(ids_view(out@), all);
    }
    out
}

/// A copy of a list of identities.
pub fn clone_ids(ids: &Vec<CapabilityId>) -> (r: Vec<CapabilityId>)
    ensures
        ids_view(r@) == ids_view(ids@),
{
    let mut out: Vec<CapabilityId> = Vec::new();
    let mut i: usize = 0;
    while i < ids.len()
        invariant
            i <= ids@.len(),
            out@.len() == i,
            forall|k: int| 0 <= k < i ==> out@[k]@ == ids@[k]@,
        decreases ids@.len() - i,
    {
        out.push(ids[i].clone());
        i = i + 1;
    }
    assert(ids_view(out@) =~= ids_view(ids@));
    out
}

/// Identities are ordered by their source, then by their provider, then by their
/// kind and last by their name.
pub proof fn identities_are_ordered_part_by_part(a: IdView, b: IdView)
    ensures
        authority_level(a.authority) < authority_level(b.authority) ==> id_lt(a, b),
        a.authority == b.authority && a.provider_id != b.provider_id ==> (id_lt(a, b) <==> text_lt(
            a.provider_id,
            b.provider_id,
        )),
        a.authority == b.authority && a.provider_id == b.provider_id && a.kind is Tool && !(b.kind is Tool)
            ==> id_lt(a, b),
        a.authority == b.authority && a.provider_id == b.provider_id && !(a.kind is AppAction)
            && b.kind is AppAction ==> id_lt(a, b),
        a.authority == b.authority && a.provider_id == b.provider_id && a.kind is Skill && b.kind is Resource
            ==> id_lt(a, b),
        a.authority == b.authority && a.provider_id == b.provider_id && a.kind == b.kind ==> (id_lt(a, b)
            <==> text_lt(a.canonical_name, b.canonical_name)),
{
}

proof fn lemma_insert_id(l: Seq<IdView>, x: IdView) -> (r: Seq<IdView>)
    requires
        in_id_order(l),
    ensures
        in_id_order(r),
        forall|k: IdView| #[trigger] r.contains(k) <==> l.contains(k) || k == x,
    decreases l.len(),
{
    if l.len() == 0 {
        let r = seq![x];
        assert(r[0] == x);
        r
    } else {
        let y = l.last();
        let front = l.drop_last();
        assert(l[l.len() - 1] == y);
        assert(in_id_order(front)) by {
            assert forall|i: int, j: int| 0 <= i < j < front.len() implies id_lt(
                #[trigger] front[i],
                #[trigger] front[j],
            ) by {
                assert(front[i] == l[i] && front[j] == l[j]);
            }
        }
        id_order_is_total(x, y);
        if x == y {
            l
        } else if id_lt(y, x) {
            let r = l.push(x);
            assert forall|i: int, j: int| 0 <= i < j < r.len() implies id_lt(
                #[trigger] r[i],
                #[trigger] r[j],
            ) by {
                if j == l.len() {
                    if i < l.len() - 1 {
                        assert(id_lt(l[i], l[l.len() - 1]));
                        id_order_is_transitive(l[i], y, x);
                    }
                } else {
                    assert(r[i] == l[i] && r[j] == l[j]);
                }
            }
            lemma_pushed(l, x);
            r
        } else {
            let b = lemma_insert_id(front, x);
            let r = b.push(y);
            assert forall|i: int, j: int| 0 <= i < j < r.len() implies id_lt(
                #[trigger] r[i],
                #[trigger] r[j],
            ) by {
                if j == b.len() {
                    assert(b.contains(b[i]));
                    if b[i] != x {
                        let k = choose|k: int| 0 <= k < front.len() && front[k] == b[i];
                        assert(id_lt(l[k], l[l.len() - 1]));
                    }
                } else {
                    assert(r[i] == b[i] && r[j] == b[j]);
                }
            }
            lemma_pushed(b, y);
            lemma_pushed(front, y);
            assert(front.push(y) =~= l);
            r
        }
    }
}

proof fn lemma_pushed(l: Seq<IdView>, x: IdView)
    ensures
        forall|k: IdView| #[trigger] l.push(x).contains(k) <==> l.contains(k) || k == x,
{
    assert forall|k: IdView| #[trigger] l.push(x).contains(k) <==> l.contains(k) || k == x by {
        if l.contains(k) {
            let i = choose|i: int| 0 <= i < l.len() && l[i] == k;
            assert(l.push(x)[i] == k);
        }
        assert(l.push(x)[l.len() as int] == x);
    }
}

proof fn lemma_listing_exists(ids: Seq<IdView>) -> (l: Seq<IdView>)
    ensures
        is_listing(l, ids),
    decreases ids.len(),
{
    if ids.len() == 0 {
        ids
    } else {
        let below = lemma_listing_exists(ids.drop_last());
        let l = lemma_insert_id(below, ids.last());
        lemma_pushed(ids.drop_last(), ids.last());
        assert(ids.drop_last().push(ids.last()) =~= ids);
        assert forall|k: IdView| #[trigger] l.contains(k) <==> ids.contains(k) by {
            assert(below.contains(k) <==> ids.drop_last().contains(k));
        }
        l
    }
}

/// A list in order has the members of the list that it was made of, each once
/// and the smaller before the greater.
pub proof fn listings_have_every_member_once(ids: Seq<IdView>, id: IdView, i: int, j: int)
    ensures
        listing(ids).contains(id) <==> ids.contains(id),
        0 <= i < j < listing(ids).len() ==> id_lt(listing(ids)[i], listing(ids)[j]),
{
    let l = lemma_listing_exists(ids);
    listing_is_unique(l, ids);
}

/// The input of a stable identity tells identities apart by their parts, one
/// behind the other.
pub proof fn stable_inputs_hold_every_part(id: IdView)
    ensures
        stable_input(id) == decimal(authority_level(id.authority) as nat) + ("|"@ + id.provider_id) + ("|"@
            + (match id.kind {
            CapabilityKind::Tool => "tool"@,
            CapabilityKind::Skill => "skill"@,
            CapabilityKind::Resource => "resource"@,
            CapabilityKind::AppAction => "app_action"@,
        })) + ("|"@ + id.canonical_name),
{
    assert(stable_input(id) =~= decimal(authority_level(id.authority) as nat) + ("|"@ + id.provider_id) + (
    "|"@ + kind_word(id.kind)) + ("|"@ + id.canonical_name));
}

} // verus!
