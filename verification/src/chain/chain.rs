//! A section as one of its members sees it.

use vstd::prelude::*;

use crate::chain::elders_info::{self, EldersInfo, EldersInfoView};
use crate::chain::shared_state::SharedState;
use crate::chain::state_view::SharedStateView;
use crate::closeness::{self, closest_names};
use crate::id::{P2pNode, P2pNodeView, PublicId};
use crate::messages::{Authority, AuthorityView};
use crate::ordered_map::{self, OrderedKey, OrderedMap, OrderedSet};
use crate::prefix::{self, Prefix};
use crate::value::{self, Value};
use crate::xor_name::{self, XorName};

verus! {

/// What a member knows of its section and the sections around it.
pub struct Chain {
    pub our_id: PublicId,
    pub state: SharedState,
    pub elder_size: usize,
    pub min_split_size: usize,
    pub parsec_prune_accumulated: usize,
}

#[verifier::ext_equal]
pub struct ChainView {
    pub our_id: Seq<u8>,
    pub state: SharedStateView,
    pub elder_size: usize,
    pub min_split_size: usize,
    pub parsec_prune_accumulated: usize,
}

impl View for Chain {
    type V = ChainView;

    open spec fn view(&self) -> ChainView {
        ChainView {
            our_id: self.our_id@,
            state: self.state@,
            elder_size: self.elder_size,
            min_split_size: self.min_split_size,
            parsec_prune_accumulated: self.parsec_prune_accumulated,
        }
    }
}

/// The nodes of all the infos, one info after the other.
pub open spec fn nodes_of(infos: Seq<EldersInfoView>) -> Seq<P2pNodeView>
    decreases infos.len(),
{
    if infos.len() == 0 {
        Seq::empty()
    } else {
        nodes_of(infos.drop_last()) + infos.last().member_nodes()
    }
}

/// The names of the nodes.
pub open spec fn names_of(nodes: Seq<P2pNodeView>) -> Seq<Seq<u8>> {
    Seq::new(nodes.len(), |i: int| nodes[i].public_id)
}

impl ChainView {
    /// The infos of the sections around ours, in ascending order of the prefixes that they are
    /// registered for.
    pub open spec fn neighbour_infos(self) -> Seq<EldersInfoView> {
        let list = ordered_map::listing::<Prefix, EldersInfoView>(self.state.neighbour_infos);
        Seq::new(list.len(), |i: int| list[i].1)
    }

    /// The prefixes of the sections around ours.
    pub open spec fn neighbour_prefixes(self) -> Set<Seq<bool>> {
        Seq::new(
            self.neighbour_infos().len(),
            |i: int| self.neighbour_infos()[i].prefix,
        ).to_set()
    }

    /// The prefixes of all sections that we know.
    pub open spec fn prefixes(self) -> Set<Seq<bool>> {
        self.neighbour_prefixes().insert(self.state.our_info().prefix)
    }

    /// The info of the section with the given prefix, if it is ours or registered as one around
    /// ours.
    pub open spec fn section(self, prefix: Seq<bool>) -> Option<EldersInfoView> {
        if prefix == self.state.our_info().prefix {
            Some(self.state.our_info())
        } else if self.state.neighbour_infos.contains_key(prefix) {
            Some(self.state.neighbour_infos[prefix])
        } else {
            None
        }
    }

    /// The elders that we should be connected to: those of the sections around ours, then ours.
    pub open spec fn elders(self) -> Seq<P2pNodeView> {
        nodes_of(self.neighbour_infos().push(self.state.our_info()))
    }

    /// The names of the elders of our section if it is the one that is closest to the name.
    pub open spec fn close_names(self, name: Seq<u8>) -> Option<Seq<Seq<u8>>> {
        if prefix::covers(self.state.our_info().prefix, name) {
            Some(self.state.our_info().member_ids())
        } else {
            None
        }
    }

    /// We are, or are part of, the authority.
    pub open spec fn in_authority(self, authority: AuthorityView) -> bool {
        match authority {
            AuthorityView::Section(name) => prefix::covers(self.state.our_info().prefix, name),
            AuthorityView::PrefixSection(p) => prefix::compatible(
                self.state.our_info().prefix,
                p,
            ),
            AuthorityView::Node(name) => name == self.our_id,
        }
    }
}

impl Chain {
    /// Our own id.
    pub fn our_id(&self) -> (r: &PublicId)
        ensures
            r@ == self@.our_id,
    {
        &self.our_id
    }

    /// Our section's prefix.
    pub fn our_prefix(&self) -> (r: &Prefix)
        ensures
            r@ == self@.state.our_info().prefix,
    {
        self.state.our_prefix()
    }

    /// The infos of the sections around ours.
    pub fn neighbour_infos(&self) -> (r: Vec<&EldersInfo>)
        ensures
            r@.len() == self@.neighbour_infos().len(),
            forall|i: int| 0 <= i < r@.len() ==> (#[trigger] r@[i])@ == self@.neighbour_infos()[i],
    {
        let mut r: Vec<&EldersInfo> = Vec::new();
        let len = self.state.neighbour_infos.len();
        let ghost infos = self@.neighbour_infos();
        for i in 0..len
            invariant
                infos == self@.neighbour_infos(),
                len == infos.len(),
                r@.len() == i,
                forall|j: int| 0 <= j < i ==> (#[trigger] r@[j])@ == infos[j],
        {
            r.push(self.state.neighbour_infos.entry_at(i).1);
        }
        r
    }

    /// The prefixes of the sections around ours.
    pub fn neighbour_prefixes(&self) -> (r: OrderedSet<Prefix>)
        ensures
            r@ == self@.neighbour_prefixes(),
    {
        let infos = self.neighbour_infos();
        let mut r: OrderedSet<Prefix> = OrderedSet::new();
        let ghost prefixes = Seq::new(
            self@.neighbour_infos().len(),
            |i: int| self@.neighbour_infos()[i].prefix,
        );
        assert(prefixes.take(0).to_set() =~= Set::<Seq<bool>>::empty());
        for i in 0..infos.len()
            invariant
                infos@.len() == prefixes.len(),
                forall|j: int|
                    0 <= j < infos@.len() ==> (#[trigger] infos@[j])@.prefix == prefixes[j],
                r@ == prefixes.take(i as int).to_set(),
        {
            proof {
                let p = prefixes[i as int];
                assert(infos@[i as int]@.prefix == p);
                assert(prefixes.take(i + 1) =~= prefixes.take(i as int).push(p));
                prefixes.take(i as int).lemma_push_to_set_commute(p);
            }
            r.insert(infos[i].prefix().duplicate());
        }
        assert(prefixes.take(infos@.len() as int) =~= prefixes);
        r
    }

    /// The prefixes of all sections that we know.
    pub fn prefixes(&self) -> (r: OrderedSet<Prefix>)
        ensures
            r@ == self@.prefixes(),
    {
        let mut r = self.neighbour_prefixes();
        r.insert(self.our_prefix().duplicate());
        r
    }

    /// The info of the section with the given prefix, if it is ours or registered as one around
    /// ours.
    pub fn get_section(&self, prefix: &Prefix) -> (r: Option<&EldersInfo>)
        ensures
            match r {
                Some(info) => self@.section(prefix@) == Some(info@),
                None => self@.section(prefix@) is None,
            },
    {
        if prefix.same(self.our_prefix()) {
            Some(self.state.our_info())
        } else {
            self.state.neighbour_infos.get(prefix)
        }
    }

    /// The elders that we should be connected to.
    pub fn elders(&self) -> (r: Vec<&P2pNode>)
        ensures
            r@.len() == self@.elders().len(),
            forall|i: int| 0 <= i < r@.len() ==> (#[trigger] r@[i])@ == self@.elders()[i],
    {
        let mut infos = self.neighbour_infos();
        infos.push(self.state.our_info());
        let ghost all = self@.neighbour_infos().push(self@.state.our_info());
        let mut r: Vec<&P2pNode> = Vec::new();
        for i in 0..infos.len()
            invariant
                infos@.len() == all.len(),
                forall|j: int| 0 <= j < infos@.len() ==> (#[trigger] infos@[j])@ == all[j],
                r@.len() == nodes_of(all.take(i as int)).len(),
                forall|j: int|
                    0 <= j < r@.len() ==> (#[trigger] r@[j])@ == nodes_of(all.take(i as int))[j],
        {
            let mut nodes = infos[i].member_nodes();
            proof {
                assert(infos@[i as int]@ == all[i as int]);
                assert(all.take(i + 1).drop_last() =~= all.take(i as int));
                assert(all.take(i + 1).last() == all[i as int]);
            }
            r.append(&mut nodes);
        }
        assert(all.take(infos@.len() as int) =~= all);
        r
    }

    /// What other sections know of us.
    pub fn get_their_knowledge(&self) -> (r: &OrderedMap<Prefix, u64>)
        ensures
            r@ == self@.state.their_knowledge,
    {
        self.state.get_their_knowledge()
    }

    /// If our section is the closest one to `name`, returns the names of all its elders.
    pub fn close_names(&self, name: &XorName) -> (r: Option<Vec<XorName>>)
        ensures
            match r {
                Some(names) => self@.close_names(name@) == Some(value::views(names@)),
                None => self@.close_names(name@) is None,
            },
    {
        if !self.our_prefix().matches(name) {
            return None;
        }
        let info = self.state.our_info();
        let members = info.members();
        let len = members.len();
        let ghost ids = info@.member_ids();
        let mut r: Vec<XorName> = Vec::new();
        for i in 0..len
            invariant
                members@ == info@.members,
                ids == info@.member_ids(),
                len == ids.len(),
                r@.len() == i,
                forall|j: int| 0 <= j < i ==> (#[trigger] r@[j])@ == ids[j],
        {
            r.push(*members.entry_at(i).0.name());
        }
        assert(value::views(r@) =~= ids);
        Some(r)
    }

    /// The `count` elders closest to `name`, the closest first.
    pub fn close_group(&self, name: &XorName, count: usize) -> (r: Vec<XorName>)
        ensures
            closeness::are_closest(
                value::views(r@),
                names_of(self@.elders()).to_set(),
                name@,
                count as int,
            ),
    {
        let elders = self.elders();
        let mut names: Vec<XorName> = Vec::new();
        for i in 0..elders.len()
            invariant
                elders@.len() == self@.elders().len(),
                forall|j: int|
                    0 <= j < elders@.len() ==> (#[trigger] elders@[j])@ == self@.elders()[j],
                names@.len() == i,
                forall|j: int|
                    0 <= j < i ==> (#[trigger] names@[j])@ == self@.elders()[j].public_id,
        {
            assert(elders@[i as int]@ == self@.elders()[i as int]);
            names.push(*elders[i].public_id().name());
        }
        assert(value::views(names@) =~= names_of(self@.elders()));
        closest_names(&names, name, count)
    }

    /// Whether we are, or are part of, the authority.
    pub fn in_authority(&self, authority: &Authority) -> (r: bool)
        ensures
            r == self@.in_authority(authority@),
    {
        match authority {
            Authority::Section(name) => self.our_prefix().matches(name),
            Authority::PrefixSection(prefix) => self.our_prefix().is_compatible(prefix),
            Authority::Node(name) => name.same(self.our_id.name()),
        }
    }
}

/// The nodes of several infos are exactly the nodes of each of them.
proof fn lemma_nodes_of(infos: Seq<EldersInfoView>, node: P2pNodeView)
    ensures
        nodes_of(infos).contains(node) <==> exists|i: int|
            0 <= i < infos.len() && (#[trigger] infos[i]).member_nodes().contains(node),
    decreases infos.len(),
{
    if infos.len() > 0 {
        let rest = infos.drop_last();
        let a = nodes_of(rest);
        let b = infos.last().member_nodes();
        lemma_nodes_of(rest, node);
        if (a + b).contains(node) {
            let k = choose|k: int| 0 <= k < (a + b).len() && (a + b)[k] == node;
            if k < a.len() {
                assert(a[k] == node);
                let i = choose|i: int|
                    0 <= i < rest.len() && (#[trigger] rest[i]).member_nodes().contains(node);
                assert(infos[i].member_nodes().contains(node));
            } else {
                assert(b[k - a.len()] == node);
                assert(infos[infos.len() - 1].member_nodes().contains(node));
            }
        }
        if exists|i: int| 0 <= i < infos.len() && (#[trigger] infos[i]).member_nodes().contains(
            node,
        ) {
            let i = choose|i: int|
                0 <= i < infos.len() && (#[trigger] infos[i]).member_nodes().contains(node);
            if i < rest.len() {
                assert(rest[i].member_nodes().contains(node));
                let k = choose|k: int| 0 <= k < a.len() && a[k] == node;
                assert((a + b)[k] == node);
            } else {
                let k = choose|k: int| 0 <= k < b.len() && b[k] == node;
                assert((a + b)[a.len() + k] == node);
            }
        }
    }
}

/// Each of the infos of the sections around ours is registered under some prefix.
proof fn lemma_neighbour_is_registered(c: ChainView, i: int) -> (p: Seq<bool>)
    requires
        c.state.neighbour_infos.dom().finite(),
        0 <= i < c.neighbour_infos().len(),
    ensures
        c.state.neighbour_infos.contains_key(p),
        c.state.neighbour_infos[p] == c.neighbour_infos()[i],
{
    let infos = c.state.neighbour_infos;
    let list = ordered_map::listing::<Prefix, EldersInfoView>(infos);
    ordered_map::law_listing_has_every_entry_once::<Prefix, EldersInfoView>(infos);
    assert(infos.contains_key(list[i].0));
    list[i].0
}

/// Each registered info is one of the infos of the sections around ours.
proof fn lemma_registered_is_neighbour(c: ChainView, p: Seq<bool>) -> (i: int)
    requires
        c.state.neighbour_infos.dom().finite(),
        c.state.neighbour_infos.contains_key(p),
    ensures
        0 <= i < c.neighbour_infos().len(),
        c.neighbour_infos()[i] == c.state.neighbour_infos[p],
{
    let infos = c.state.neighbour_infos;
    let list = ordered_map::listing::<Prefix, EldersInfoView>(infos);
    ordered_map::law_listing_has_every_entry_once::<Prefix, EldersInfoView>(infos);
    choose|i: int| 0 <= i < list.len() && #[trigger] list[i].0 == p
}

/// A node is one of the elders that we should be connected to exactly if it is registered as an
/// elder of our current info or of one of the sections around ours.
pub proof fn law_elders_of_all_sections(c: ChainView, node: P2pNodeView)
    requires
        c.state.neighbour_infos.dom().finite(),
    ensures
        c.elders().contains(node) <==> c.state.our_infos[c.state.our_infos.len()
            - 1].member_nodes().contains(node) || exists|k: Seq<bool>| #[trigger]
            c.state.neighbour_infos.contains_key(k)
                && c.state.neighbour_infos[k].member_nodes().contains(node),
{
    let ours = c.state.our_info();
    let infos = c.neighbour_infos().push(ours);
    lemma_nodes_of(infos, node);
    if exists|i: int| 0 <= i < infos.len() && (#[trigger] infos[i]).member_nodes().contains(node) {
        let i = choose|i: int|
            0 <= i < infos.len() && (#[trigger] infos[i]).member_nodes().contains(node);
        if i < c.neighbour_infos().len() {
            assert(infos[i] == c.neighbour_infos()[i]);
            let k = lemma_neighbour_is_registered(c, i);
            assert(c.state.neighbour_infos.contains_key(k));
        }
    }
    if ours.member_nodes().contains(node) {
        assert(infos[c.neighbour_infos().len() as int].member_nodes().contains(node));
    }
    if exists|k: Seq<bool>| #[trigger] c.state.neighbour_infos.contains_key(k)
        && c.state.neighbour_infos[k].member_nodes().contains(node) {
        let k = choose|k: Seq<bool>| #[trigger]
            c.state.neighbour_infos.contains_key(k)
                && c.state.neighbour_infos[k].member_nodes().contains(node);
        let i = lemma_registered_is_neighbour(c, k);
        assert(infos[i].member_nodes().contains(node));
    }
}

/// The prefixes of the sections around ours are those of their infos; all known prefixes are these
/// and that of our current info.
pub proof fn law_known_prefixes(c: ChainView, p: Seq<bool>)
    requires
        c.state.neighbour_infos.dom().finite(),
    ensures
        c.neighbour_prefixes().contains(p) <==> exists|k: Seq<bool>| #[trigger]
            c.state.neighbour_infos.contains_key(k) && c.state.neighbour_infos[k].prefix == p,
        c.prefixes().contains(p) <==> c.neighbour_prefixes().contains(p) || p
            == c.state.our_infos[c.state.our_infos.len() - 1].prefix,
{
    let prefixes = Seq::new(
        c.neighbour_infos().len(),
        |i: int| c.neighbour_infos()[i].prefix,
    );
    if c.neighbour_prefixes().contains(p) {
        let i = choose|i: int| 0 <= i < prefixes.len() && prefixes[i] == p;
        let k = lemma_neighbour_is_registered(c, i);
        assert(c.state.neighbour_infos[k].prefix == p);
    }
    if exists|k: Seq<bool>| #[trigger] c.state.neighbour_infos.contains_key(k)
        && c.state.neighbour_infos[k].prefix == p {
        let k = choose|k: Seq<bool>| #[trigger]
            c.state.neighbour_infos.contains_key(k) && c.state.neighbour_infos[k].prefix == p;
        let i = lemma_registered_is_neighbour(c, k);
        assert(prefixes[i] == p);
    }
}

/// The section with our current prefix is ours; another one is known exactly if it is registered as
/// one around ours, with the info that is registered.
pub proof fn law_sections_by_prefix(c: ChainView, p: Seq<bool>)
    ensures
        ({
            let ours = c.state.our_infos[c.state.our_infos.len() - 1];
            &&& c.section(ours.prefix) == Some(ours)
            &&& p != ours.prefix && c.state.neighbour_infos.contains_key(p) ==> c.section(p)
                == Some(c.state.neighbour_infos[p])
            &&& p != ours.prefix && !c.state.neighbour_infos.contains_key(p) ==> c.section(
                p,
            ) is None
        }),
{
}

/// Our section tells its names exactly if the name that is asked for has the bits of our current
/// prefix in front, and then they are those of all elders of our current info.
pub proof fn law_close_names_are_ours(c: ChainView, name: Seq<u8>, id: Seq<u8>)
    requires
        c.state.our_infos[c.state.our_infos.len() - 1].members.dom().finite(),
    ensures
        ({
            let ours = c.state.our_infos[c.state.our_infos.len() - 1];
            let bits = xor_name::name_bits(name);
            &&& c.close_names(name) is Some <==> ours.prefix.len() <= bits.len() && forall|i: int|
                0 <= i < ours.prefix.len() ==> ours.prefix[i] == bits[i]
            &&& c.close_names(name) matches Some(names) ==> {
                &&& names.contains(id) <==> ours.members.contains_key(id)
                &&& names.len() == ours.members.dom().len()
            }
        }),
{
    let ours = c.state.our_infos[c.state.our_infos.len() - 1];
    prefix::law_covered_names_start_with_the_bits(ours.prefix, name);
    elders_info::law_members_in_ascending_order(ours);
    assert(ours.member_ids().to_set().contains(id) == ours.members.dom().contains(id));
}

/// An elder is part of a section's authority exactly if the name has the bits of its prefix in
/// front, of that of sections with a prefix exactly if the prefixes agree in all bits that both
/// have, and of a node's exactly if the node is itself.
pub proof fn law_authorities_of_an_elder(
    c: ChainView,
    name: Seq<u8>,
    p: Seq<bool>,
)
    ensures
        ({
            let ours = c.state.our_infos[c.state.our_infos.len() - 1].prefix;
            let bits = xor_name::name_bits(name);
            &&& c.in_authority(AuthorityView::Section(name)) <==> ours.len() <= bits.len()
                && forall|i: int| 0 <= i < ours.len() ==> ours[i] == bits[i]
            &&& c.in_authority(AuthorityView::PrefixSection(p)) <==> forall|i: int|
                0 <= i < ours.len() && i < p.len() ==> ours[i] == p[i]
            &&& c.in_authority(AuthorityView::Node(name)) <==> name == c.our_id
        }),
{
    let ours = c.state.our_infos[c.state.our_infos.len() - 1].prefix;
    prefix::law_covered_names_start_with_the_bits(ours, name);
    prefix::law_compatible_prefixes_agree(ours, p);
}

/// The names of nodes are those of the nodes at the same places.
pub proof fn law_names_of_nodes(nodes: Seq<P2pNodeView>, i: int)
    requires
        0 <= i < nodes.len(),
    ensures
        names_of(nodes).len() == nodes.len(),
        names_of(nodes)[i] == nodes[i].public_id,
{
}

/// The elders that we should be connected to are listed with those of our own section last, in
/// ascending order of their ids.
pub proof fn law_own_elders_come_last(c: ChainView, i: int)
    requires
        0 <= i < c.state.our_infos[c.state.our_infos.len() - 1].member_nodes().len(),
    ensures
        ({
            let ours = c.state.our_infos[c.state.our_infos.len() - 1].member_nodes();
            &&& c.elders().len() >= ours.len()
            &&& c.elders()[c.elders().len() - ours.len() + i] == ours[i]
        }),
{
    let infos = c.neighbour_infos().push(c.state.our_info());
    assert(infos.drop_last() =~= c.neighbour_infos());
}

/// The elders of a section around ours stand together, before those of the sections whose prefixes
/// come later.
pub proof fn law_nodes_stand_together(infos: Seq<EldersInfoView>, more: Seq<EldersInfoView>)
    ensures
        nodes_of(infos + more) == nodes_of(infos) + nodes_of(more),
        infos.len() == 1 ==> nodes_of(infos) == infos[0].member_nodes(),
        infos.len() == 0 ==> nodes_of(infos).len() == 0,
    decreases more.len(),
{
    reveal_with_fuel(nodes_of, 2);
    if infos.len() == 1 {
        assert(nodes_of(infos) =~= infos[0].member_nodes());
    }
    if more.len() == 0 {
        assert(infos + more =~= infos);
    } else {
        law_nodes_stand_together(infos, more.drop_last());
        assert((infos + more).drop_last() =~= infos + more.drop_last());
        assert((infos + more).last() == more.last());
        assert(nodes_of(infos + more) =~= nodes_of(infos) + nodes_of(more));
    }
}

/// The infos of the sections around ours are in ascending order of the prefixes that they are
/// registered for.
pub proof fn law_neighbours_in_ascending_order(c: ChainView)
    requires
        c.state.neighbour_infos.dom().finite(),
    ensures
        exists|keys: Seq<Seq<bool>>|
            {
                &&& #[trigger] keys.to_set() == c.state.neighbour_infos.dom()
                &&& keys.len() == c.neighbour_infos().len()
                &&& forall|i: int|
                    0 <= i < keys.len() ==> c.neighbour_infos()[i] == c.state.neighbour_infos[
                    #[trigger] keys[i]]
                &&& forall|i: int, j: int|
                    0 <= i < j < keys.len() ==> Prefix::before(
                        #[trigger] keys[i],
                        #[trigger] keys[j],
                    )
            },
{
    let infos = c.state.neighbour_infos;
    let list = ordered_map::listing::<Prefix, EldersInfoView>(infos);
    ordered_map::law_listing_has_every_entry_once::<Prefix, EldersInfoView>(infos);
    let keys = Seq::new(list.len(), |i: int| list[i].0);
    assert forall|p: Seq<bool>| keys.to_set().contains(p) <==> infos.dom().contains(p) by {
        if keys.contains(p) {
            let i = choose|i: int| 0 <= i < keys.len() && keys[i] == p;
            assert(infos.contains_key(list[i].0));
        }
        if infos.contains_key(p) {
            let i = choose|i: int| 0 <= i < list.len() && #[trigger] list[i].0 == p;
            assert(keys[i] == p);
        }
    }
    assert(keys.to_set() =~= infos.dom());
    assert forall|i: int| 0 <= i < keys.len() implies c.neighbour_infos()[i]
        == infos[#[trigger] keys[i]] by {
        assert(list[i].1 == infos[list[i].0]);
    }
    assert forall|i: int, j: int| 0 <= i < j < keys.len() implies Prefix::before(
        #[trigger] keys[i],
        #[trigger] keys[j],
    ) by {
        assert(Prefix::before(list[i].0, list[j].0));
    }
}

} // verus!
