//! Finding a capability by name or by identity.

use vstd::prelude::*;

use crate::capability::descriptor::{
    descriptors_view, CapabilityDescriptor, DescriptorView, ToolRouterBinding,
};
use crate::capability::exposure::ToolExposure;
use crate::capability::id::{ids_view, CapabilityId, IdView};
use crate::capability::idmap::IdMap;
use crate::strmap::StrMap;

verus! {

/// Whether the model can see or find a capability.
pub open spec fn model_visible(e: ToolExposure) -> bool {
    e == ToolExposure::Direct || e == ToolExposure::Deferred || e == ToolExposure::CodeMode
}

/// Finds capabilities.
pub trait ToolRouter {
    /// The router is sound.
    spec fn router_wf(&self) -> bool;

    /// The capability behind each name.
    spec fn names(&self) -> Map<Seq<char>, DescriptorView>;

    /// The names, oldest first.
    spec fn name_order(&self) -> Seq<Seq<char>>;

    /// The identities that are known.
    spec fn ids(&self) -> Set<IdView>;

    /// The names in the order are those that have a capability, each once.
    proof fn order_is_domain(&self)
        requires
            self.router_wf(),
        ensures
            self.name_order().no_duplicates(),
            forall|k: Seq<char>| #[trigger] self.name_order().contains(k)
                <==> self.names().dom().contains(k),
    ;

    /// The capability behind a name.
    fn resolve(&self, canonical_name: &str) -> (r: Option<&CapabilityDescriptor>)
        requires
            self.router_wf(),
        ensures
            match r {
                Some(d) => self.names().dom().contains(canonical_name@)
                    && self.names()[canonical_name@] == d@,
                None => !self.names().dom().contains(canonical_name@),
            },
    ;

    /// The capabilities that the model can see or find, by name.
    fn list_model_visible(&self) -> (r: Vec<&CapabilityDescriptor>)
        requires
            self.router_wf(),
        ensures
            r@.map_values(|d: &CapabilityDescriptor| d@) == visible_among(
                self.names(),
                self.name_order(),
            ),
    ;

    /// Whether an identity is known.
    fn contains(&self, id: &CapabilityId) -> (r: bool)
        requires
            self.router_wf(),
        ensures
            r == self.ids().contains(id@),
    ;
}

/// The capabilities behind `order` that the model can see or find, in order.
pub open spec fn visible_among(
    names: Map<Seq<char>, DescriptorView>,
    order: Seq<Seq<char>>,
) -> Seq<DescriptorView>
    decreases order.len(),
{
    if order.len() == 0 {
        Seq::empty()
    } else {
        let below = visible_among(names, order.drop_last());
        let d = names[order.last()];
        if model_visible(d.exposure) {
            below.push(d)
        } else {
            below
        }
    }
}

/// The capability behind each name: the last one that has it.
pub open spec fn named(ds: Seq<DescriptorView>) -> Map<Seq<char>, DescriptorView>
    decreases ds.len(),
{
    if ds.len() == 0 {
        Map::empty()
    } else {
        named(ds.drop_last()).insert(ds.last().id.canonical_name, ds.last())
    }
}

/// The names of descriptors, each where it occurs first.
pub open spec fn name_list(ds: Seq<DescriptorView>) -> Seq<Seq<char>>
    decreases ds.len(),
{
    if ds.len() == 0 {
        Seq::empty()
    } else {
        let below = name_list(ds.drop_last());
        if below.contains(ds.last().id.canonical_name) {
            below
        } else {
            below.push(ds.last().id.canonical_name)
        }
    }
}

/// The identities of descriptors.
pub open spec fn identities(ds: Seq<DescriptorView>) -> Set<IdView> {
    ds.map_values(|d: DescriptorView| d.id).to_set()
}

/// The descriptors that `all` has for `ids`, in order.
pub open spec fn bound(ids: Seq<IdView>, all: Map<IdView, DescriptorView>) -> Seq<(IdView, DescriptorView)>
    decreases ids.len(),
{
    if ids.len() == 0 {
        Seq::empty()
    } else {
        let below = bound(ids.drop_last(), all);
        if all.dom().contains(ids.last()) {
            below.push((ids.last(), all[ids.last()]))
        } else {
            below
        }
    }
}

/// The views of descriptors by identity.
pub open spec fn descriptor_map(m: Map<IdView, CapabilityDescriptor>) -> Map<IdView, DescriptorView> {
    m.map_values(|d: CapabilityDescriptor| d@)
}

/// A router over a list of descriptors.
#[derive(Debug)]
pub struct DefaultToolRouter {
    by_name: StrMap<CapabilityDescriptor>,
    by_id: IdMap<CapabilityDescriptor>,
}

impl DefaultToolRouter {
    fn add_descriptor(&mut self, id: CapabilityId, d: &CapabilityDescriptor)
        requires
            old(self).router_wf(),
        ensures
            final(self).router_wf(),
            final(self).names() == old(self).names().insert(d@.id.canonical_name, d@),
            final(self).name_order() == (if old(self).name_order().contains(d@.id.canonical_name) {
                old(self).name_order()
            } else {
                old(self).name_order().push(d@.id.canonical_name)
            }),
            final(self).ids() == old(self).ids().insert(id@),
    {
        proof {
            self.by_name.order_is_domain();
        }
        let ghost names = self.by_name@;
        let ghost ids = self.by_id@;
        let _ = self.by_name.insert(d.id.canonical_name.clone(), d.clone());
        self.by_id.insert(id, d.clone());
        proof {
            let n2 = self.by_name@;
            assert(self.names() =~= names.map_values(|x: CapabilityDescriptor| x@).insert(
                d@.id.canonical_name,
                d@,
            ));
            assert(self.ids() =~= ids.dom().insert(id@));
        }
    }

    /// A router over descriptors. Of several with one name the last counts.
    pub fn new(descriptors: &Vec<CapabilityDescriptor>) -> (r: Self)
        ensures
            r.router_wf(),
            r.names() == named(descriptors_view(descriptors@)),
            r.name_order() == name_list(descriptors_view(descriptors@)),
            r.ids() == identities(descriptors_view(descriptors@)),
    {
        let ghost all = descriptors_view(descriptors@);
        let mut r = DefaultToolRouter { by_name: StrMap::new(), by_id: IdMap::new() };
        assert(r.names() =~= Map::empty());
        assert(r.name_order() =~= Seq::empty());
        assert(r.ids() =~= identities(all.take(0)));
        let mut i: usize = 0;
        while i < descriptors.len()
            invariant
                i <= descriptors@.len(),
                all == descriptors_view(descriptors@),
                r.router_wf(),
                r.names() == named(all.take(i as int)),
                r.name_order() == name_list(all.take(i as int)),
                r.ids() == identities(all.take(i as int)),
            decreases descriptors@.len() - i,
        {
            let d = &descriptors[i];
            r.add_descriptor(d.id.clone(), d);
            proof {
                let t0 = all.take(i as int);
                let t1 = all.take(i as int + 1);
                assert(t1.drop_last() =~= t0);
                assert(t1.last() == d@);
                let f = |x: DescriptorView| x.id;
                assert forall|k: IdView| identities(t1).contains(k) <==> identities(t0).insert(
                    d@.id,
                ).contains(k) by {
                    if identities(t1).contains(k) {
                        let x = choose|x: int|
                            0 <= x < t1.map_values(f).len() && t1.map_values(f)[x] == k;
                        if x < i {
                            assert(t0.map_values(f)[x] == k);
                        }
                    }
                    if identities(t0).contains(k) {
                        let x = choose|x: int|
                            0 <= x < t0.map_values(f).len() && t0.map_values(f)[x] == k;
                        assert(t1.map_values(f)[x] == k);
                    }
                    if k == d@.id {
                        assert(t1.map_values(f)[i as int] == k);
                    }
                }
                assert(identities(t1) =~= identities(t0).insert(d@.id));
            }
            i = i + 1;
        }
        assert(all.take(descriptors@.len() as int) =~= all);
        r
    }

    /// A router over the bound capabilities that have a descriptor.
    pub fn from_binding(
        binding: &ToolRouterBinding,
        all_descriptors: &IdMap<CapabilityDescriptor>,
    ) -> (r: Self)
        requires
            all_descriptors.wf(),
        ensures
            r.router_wf(),
            ({
                let b = bound(
                    ids_view(binding.tool_capability_ids@),
                    descriptor_map(all_descriptors@),
                );
                &&& r.names() == named(b.map_values(|p: (IdView, DescriptorView)| p.1))
                &&& r.name_order() == name_list(b.map_values(|p: (IdView, DescriptorView)| p.1))
                &&& r.ids() == b.map_values(|p: (IdView, DescriptorView)| p.0).to_set()
            }),
    {
        let ids = &binding.tool_capability_ids;
        let ghost all = ids_view(ids@);
        let ghost known = descriptor_map(all_descriptors@);
        let ghost first = |p: (IdView, DescriptorView)| p.0;
        let ghost second = |p: (IdView, DescriptorView)| p.1;
        let mut r = DefaultToolRouter { by_name: StrMap::new(), by_id: IdMap::new() };
        assert(r.names() =~= Map::empty());
        assert(r.name_order() =~= Seq::empty());
        assert(bound(all.take(0), known) =~= Seq::empty());
        assert(r.ids() =~= bound(all.take(0), known).map_values(first).to_set());
        let mut i: usize = 0;
        while i < ids.len()
            invariant
                i <= ids@.len(),
                all == ids_view(ids@),
                all_descriptors.wf(),
                known == descriptor_map(all_descriptors@),
                first == |p: (IdView, DescriptorView)| p.0,
                second == |p: (IdView, DescriptorView)| p.1,
                r.router_wf(),
                r.names() == named(bound(all.take(i as int), known).map_values(second)),
                r.name_order() == name_list(bound(all.take(i as int), known).map_values(second)),
                r.ids() == bound(all.take(i as int), known).map_values(first).to_set(),
            decreases ids@.len() - i,
        {
            let ghost t0 = bound(all.take(i as int), known);
            let ghost t1 = bound(all.take(i as int + 1), known);
            proof {
                assert(all.take(i as int + 1).drop_last() =~= all.take(i as int));
                assert(all.take(i as int + 1).last() == ids@[i as int]@);
            }
            if let Some(d) = all_descriptors.get(&ids[i]) {
                let id = ids[i].clone();
                let ghost k0 = id@;
                r.add_descriptor(id, d);
                proof {
                    assert(t1 == t0.push((k0, d@)));
                    assert(t1.map_values(second).drop_last() =~= t0.map_values(second));
                    assert(t1.map_values(second).last() == d@);
                    assert forall|k: IdView| t1.map_values(first).to_set().contains(k)
                        <==> t0.map_values(first).to_set().insert(k0).contains(k) by {
                        if t1.map_values(first).contains(k) {
                            let x = choose|x: int|
                                0 <= x < t1.len() && t1.map_values(first)[x] == k;
                            if x < t0.len() {
                                assert(t0.map_values(first)[x] == k);
                            }
                        }
                        if t0.map_values(first).contains(k) {
                            let x = choose|x: int|
                                0 <= x < t0.len() && t0.map_values(first)[x] == k;
                            assert(t1.map_values(first)[x] == k);
                        }
                        if k == k0 {
                            assert(t1.map_values(first)[t0.len() as int] == k);
                        }
                    }
                    assert(t1.map_values(first).to_set() =~= t0.map_values(first).to_set().insert(
                        k0,
                    ));
                }
            }
            i = i + 1;
        }
        assert(all.take(ids@.len() as int) =~= all);
        r
    }
}

impl ToolRouter for DefaultToolRouter {
    closed spec fn router_wf(&self) -> bool {
        self.by_name.wf() && self.by_id.wf()
    }

    closed spec fn names(&self) -> Map<Seq<char>, DescriptorView> {
        self.by_name@.map_values(|d: CapabilityDescriptor| d@)
    }

    closed spec fn name_order(&self) -> Seq<Seq<char>> {
        self.by_name.order()
    }

    closed spec fn ids(&self) -> Set<IdView> {
        self.by_id@.dom()
    }

    proof fn order_is_domain(&self) {
        self.by_name.order_is_domain();
        assert(self.names().dom() =~= self.by_name@.dom());
    }

    fn resolve(&self, canonical_name: &str) -> (r: Option<&CapabilityDescriptor>) {
        self.by_name.get(canonical_name)
    }

    fn list_model_visible(&self) -> (r: Vec<&CapabilityDescriptor>) {
        let ghost order = self.by_name.order();
        let ghost f = |d: &CapabilityDescriptor| d@;
        let mut out: Vec<&CapabilityDescriptor> = Vec::new();
        let n: usize = self.by_name.len();
        let mut i: usize = 0;
        assert(out@.map_values(f) =~= visible_among(self.names(), order.take(0)));
        while i < n
            invariant
                i <= n == order.len(),
                self.router_wf(),
                order == self.by_name.order(),
                f == |d: &CapabilityDescriptor| d@,
                out@.map_values(f) == visible_among(self.names(), order.take(i as int)),
            decreases n - i,
        {
            proof {
                assert(order.take(i as int + 1).drop_last() =~= order.take(i as int));
                assert(order.take(i as int + 1).last() == order[i as int]);
            }
            let d = self.by_name.value_at(i);
            let visible = match d.exposure {
                ToolExposure::Direct => true,
                ToolExposure::Deferred => true,
                ToolExposure::CodeMode => true,
                _ => false,
            };
            if visible {
                let ghost before = out@;
                out.push(d);
                assert(out@.map_values(f) =~= before.map_values(f).push(d@));
            }
            i = i + 1;
        }
        assert(order.take(n as int) =~= order);
        out
    }

    fn contains(&self, id: &CapabilityId) -> (r: bool) {
        self.by_id.contains(id)
    }
}

/// A capability is listed exactly when a name stands for it and the model can
/// see or find it.
pub proof fn visible_capabilities_are_listed<R: ToolRouter>(router: &R, d: DescriptorView)
    requires
        router.router_wf(),
    ensures
        visible_among(router.names(), router.name_order()).contains(d) <==> (model_visible(
            d.exposure,
        ) && exists|k: Seq<char>| #[trigger]
            router.names().dom().contains(k) && router.names()[k] == d),
{
    router.order_is_domain();
    let names = router.names();
    let order = router.name_order();
    lemma_visible_among(names, order, d);
    if exists|k: Seq<char>| #[trigger] names.dom().contains(k) && names[k] == d {
        let k = choose|k: Seq<char>| #[trigger] names.dom().contains(k) && names[k] == d;
        assert(order.contains(k));
        let i = choose|i: int| 0 <= i < order.len() && order[i] == k;
        assert(names[order[i]] == d);
    }
    if exists|i: int| 0 <= i < order.len() && names[#[trigger] order[i]] == d {
        let i = choose|i: int| 0 <= i < order.len() && names[#[trigger] order[i]] == d;
        assert(order.contains(order[i]));
        assert(names.dom().contains(order[i]));
    }
}

proof fn lemma_visible_among(
    names: Map<Seq<char>, DescriptorView>,
    order: Seq<Seq<char>>,
    d: DescriptorView,
)
    ensures
        visible_among(names, order).contains(d) <==> (model_visible(d.exposure) && exists|i: int|
            0 <= i < order.len() && names[#[trigger] order[i]] == d),
    decreases order.len(),
{
    if order.len() > 0 {
        let rest = order.drop_last();
        lemma_visible_among(names, rest, d);
        let below = visible_among(names, rest);
        let all = visible_among(names, order);
        if below.contains(d) {
            let k = choose|k: int| 0 <= k < below.len() && below[k] == d;
            assert(all[k] == d);
        }
        if all.contains(d) && !below.contains(d) {
            let k = choose|k: int| 0 <= k < all.len() && all[k] == d;
            if k < below.len() {
                assert(below[k] == d);
            }
            assert(names[order[order.len() - 1]] == d);
        }
        if exists|i: int| 0 <= i < rest.len() && names[#[trigger] rest[i]] == d {
            let i = choose|i: int| 0 <= i < rest.len() && names[#[trigger] rest[i]] == d;
            assert(names[order[i]] == d);
        }
        if model_visible(d.exposure) && exists|i: int|
            0 <= i < order.len() && names[#[trigger] order[i]] == d {
            let i = choose|i: int| 0 <= i < order.len() && names[#[trigger] order[i]] == d;
            if i < rest.len() {
                assert(names[rest[i]] == d);
            } else {
                assert(all[all.len() - 1] == d);
            }
        }
    } else {
        assert(visible_among(names, order) =~= Seq::empty());
    }
}

/// What the model can see or find: what is exposed directly, deferred or to code.
pub proof fn exposure_decides_what_the_model_sees(e: ToolExposure)
    ensures
        model_visible(e) <==> !(e is AppOnly || e is Internal || e is Disabled),
{
}

/// Of two capabilities with a name the later has it. A name that no capability
/// has stands for none.
pub proof fn later_capabilities_take_the_name(ds: Seq<DescriptorView>, d: DescriptorView, other: Seq<char>)
    ensures
        ({
            let name = d.id.canonical_name;
            let before = named(ds);
            let after = named(ds.push(d));
            &&& after.dom().contains(name)
            &&& after[name] == d
            &&& other != name ==> (after.dom().contains(other) <==> before.dom().contains(other))
            &&& other != name && before.dom().contains(other) ==> after[other] == before[other]
            &&& !named(Seq::empty()).dom().contains(other)
        }),
{
    assert(ds.push(d).drop_last() =~= ds);
}

/// A name is listed once, where it first came up.
pub proof fn names_are_listed_once(ds: Seq<DescriptorView>, d: DescriptorView)
    ensures
        ({
            let name = d.id.canonical_name;
            let before = name_list(ds);
            let after = name_list(ds.push(d));
            &&& named(ds).dom().contains(name) ==> after == before
            &&& !named(ds).dom().contains(name) ==> after == before.push(name)
            &&& name_list(Seq::empty()).len() == 0
        }),
{
    assert(ds.push(d).drop_last() =~= ds);
    lemma_names_are_listed(ds, d.id.canonical_name);
}

proof fn lemma_names_are_listed(ds: Seq<DescriptorView>, name: Seq<char>)
    ensures
        name_list(ds).contains(name) <==> named(ds).dom().contains(name),
    decreases ds.len(),
{
    if ds.len() > 0 {
        lemma_names_are_listed(ds.drop_last(), name);
        let below = name_list(ds.drop_last());
        let last = ds.last().id.canonical_name;
        let all = name_list(ds);
        if below.contains(name) {
            let k = choose|k: int| 0 <= k < below.len() && below[k] == name;
            assert(all[k] == name);
        }
        if !below.contains(last) {
            assert(all[below.len() as int] == last);
        }
    }
}

/// The capabilities are listed in the order of their names, without those that
/// the model cannot see or find.
pub proof fn capabilities_are_listed_in_order(
    names: Map<Seq<char>, DescriptorView>,
    order: Seq<Seq<char>>,
    name: Seq<char>,
)
    ensures
        ({
            let e = names[name].exposure;
            let shown = e is Direct || e is Deferred || e is CodeMode;
            &&& shown ==> visible_among(names, order.push(name)) == visible_among(names, order).push(
                names[name],
            )
            &&& !shown ==> visible_among(names, order.push(name)) == visible_among(names, order)
            &&& visible_among(names, Seq::empty()).len() == 0
        }),
{
    assert(order.push(name).drop_last() =~= order);
}

/// Each identity that a capability is known for is bound to it, in order, and
/// the others are left out.
pub proof fn known_identities_are_bound(
    ids: Seq<IdView>,
    all: Map<IdView, DescriptorView>,
    id: IdView,
)
    ensures
        all.dom().contains(id) ==> bound(ids.push(id), all) == bound(ids, all).push((id, all[id])),
        !all.dom().contains(id) ==> bound(ids.push(id), all) == bound(ids, all),
        bound(Seq::empty(), all).len() == 0,
{
    assert(ids.push(id).drop_last() =~= ids);
}

/// The identities of capabilities are those that they have.
pub proof fn identities_are_those_of_the_capabilities(ds: Seq<DescriptorView>, d: DescriptorView, id: IdView)
    ensures
        identities(ds.push(d)).contains(id) <==> identities(ds).contains(id) || id == d.id,
        !identities(Seq::empty()).contains(id),
{
    let f = |x: DescriptorView| x.id;
    let a = ds.map_values(f);
    let b = ds.push(d).map_values(f);
    assert(b =~= a.push(d.id));
    if a.contains(id) {
        let k = choose|k: int| 0 <= k < a.len() && a[k] == id;
        assert(b[k] == id);
    }
    assert(b[a.len() as int] == d.id);
    assert(Seq::<DescriptorView>::empty().map_values(f) =~= Seq::empty());
}

} // verus!
