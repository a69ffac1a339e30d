//! The elders of a section at one version of it.

use vstd::prelude::*;
use vstd::std_specs::cmp::PartialEqSpec;

use crate::encoding::{Encoded, PlainP2pNode};
use crate::id::{P2pNode, P2pNodeView, PublicId};
use crate::ordered_map::{self, OrderedKey, OrderedMap, OrderedSet};
use crate::prefix::Prefix;
use crate::value::Value;
use crate::xor_name::{self, Digest256, XorName};

verus! {

/// The elders of a section, with the section's prefix, version and place in its history.
pub struct EldersInfo {
    members: OrderedMap<PublicId, P2pNode>,
    version: u64,
    prefix: Prefix,
    prev_hash: OrderedSet<Digest256>,
    hash: Digest256,
}

#[verifier::ext_equal]
pub struct EldersInfoView {
    pub members: Map<Seq<u8>, P2pNodeView>,
    pub version: u64,
    pub prefix: Seq<bool>,
    pub prev_hash: Set<Seq<u8>>,
    pub hash: Seq<u8>,
}

impl View for EldersInfo {
    type V = EldersInfoView;

    closed spec fn view(&self) -> EldersInfoView {
        EldersInfoView {
            members: self.members@,
            version: self.version,
            prefix: self.prefix@,
            prev_hash: self.prev_hash@,
            hash: self.hash@,
        }
    }
}

impl EldersInfoView {
    /// The ids of the elders in ascending order.
    pub open spec fn member_ids(self) -> Seq<Seq<u8>> {
        let list = ordered_map::listing::<PublicId, P2pNodeView>(self.members);
        Seq::new(list.len(), |i: int| list[i].0)
    }

    /// The elders in ascending order of their ids.
    pub open spec fn member_nodes(self) -> Seq<P2pNodeView> {
        let list = ordered_map::listing::<PublicId, P2pNodeView>(self.members);
        Seq::new(list.len(), |i: int| list[i].1)
    }

    /// Every elder is registered under its own id.
    pub open spec fn well_keyed(self) -> bool {
        forall|id: Seq<u8>| #[trigger]
            self.members.contains_key(id) ==> self.members[id].public_id == id
    }
}

impl EldersInfo {
    /// The info made of the given parts. `hash` identifies it and `prev_hash` its predecessors.
    pub fn new(
        members: OrderedMap<PublicId, P2pNode>,
        version: u64,
        prefix: Prefix,
        prev_hash: OrderedSet<Digest256>,
        hash: Digest256,
    ) -> (r: Self)
        ensures
            r@ == (EldersInfoView {
                members: members@,
                version,
                prefix: prefix@,
                prev_hash: prev_hash@,
                hash: hash@,
            }),
    {
        EldersInfo { members, version, prefix, prev_hash, hash }
    }

    /// The elders by their ids.
    pub fn members(&self) -> (r: &OrderedMap<PublicId, P2pNode>)
        ensures
            r@ == self@.members,
    {
        &self.members
    }

    /// The elders in ascending order of their ids.
    pub fn member_nodes(&self) -> (r: Vec<&P2pNode>)
        ensures
            r@.len() == self@.member_nodes().len(),
            forall|i: int| 0 <= i < r@.len() ==> (#[trigger] r@[i])@ == self@.member_nodes()[i],
    {
        let mut r: Vec<&P2pNode> = Vec::new();
        let len = self.members.len();
        for i in 0..len
            invariant
                len == self@.member_nodes().len(),
                r@.len() == i,
                forall|j: int| 0 <= j < i ==> (#[trigger] r@[j])@ == self@.member_nodes()[j],
        {
            r.push(self.members.entry_at(i).1);
        }
        r
    }

    /// The names of the elders.
    pub fn member_names(&self) -> (r: OrderedSet<XorName>)
        ensures
            r@ == self@.members.dom(),
    {
        let mut r: OrderedSet<XorName> = OrderedSet::new();
        let len = self.members.len();
        let ghost list = ordered_map::listing::<PublicId, P2pNodeView>(self.members@);
        proof {
            ordered_map::lemma_listing::<PublicId, P2pNodeView>(self.members@);
        }
        for i in 0..len
            invariant
                list == ordered_map::listing::<PublicId, P2pNodeView>(self.members@),
                ordered_map::is_listing::<PublicId, P2pNodeView>(list, self.members@),
                len == list.len(),
                forall|id: Seq<u8>| #[trigger] r@.contains(id) ==> self.members@.contains_key(id),
                forall|j: int| 0 <= j < i ==> r@.contains((#[trigger] list[j]).0),
        {
            r.insert(*self.members.entry_at(i).0.name());
        }
        assert forall|id: Seq<u8>| self.members@.contains_key(id) implies r@.contains(id) by {
            let j = choose|j: int| 0 <= j < list.len() && #[trigger] list[j].0 == id;
            assert(r@.contains(list[j].0));
        }
        assert(r@ =~= self@.members.dom());
        r
    }

    /// The version of the section.
    pub fn version(&self) -> (r: &u64)
        ensures
            *r == self@.version,
    {
        &self.version
    }

    /// The section's prefix.
    pub fn prefix(&self) -> (r: &Prefix)
        ensures
            r@ == self@.prefix,
    {
        &self.prefix
    }

    /// The hashes of the infos that came before.
    pub fn prev_hash(&self) -> (r: &OrderedSet<Digest256>)
        ensures
            r@ == self@.prev_hash,
    {
        &self.prev_hash
    }

    /// The hash of this info.
    pub fn hash(&self) -> (r: &Digest256)
        ensures
            r@ == self@.hash,
    {
        &self.hash
    }
}

impl Value for EldersInfo {
    fn same(&self, other: &Self) -> (r: bool) {
        self.members.same(&other.members) && self.version == other.version && self.prefix.same(
            &other.prefix,
        ) && self.prev_hash.same(&other.prev_hash) && self.hash.same(&other.hash)
    }

    fn duplicate(&self) -> (r: Self) {
        EldersInfo {
            members: self.members.duplicate(),
            version: self.version,
            prefix: self.prefix.duplicate(),
            prev_hash: self.prev_hash.duplicate(),
            hash: self.hash,
        }
    }
}

impl PartialEq for EldersInfo {
    fn eq(&self, other: &Self) -> (r: bool) {
        self.same(other)
    }
}

impl vstd::std_specs::cmp::PartialEqSpecImpl for EldersInfo {
    open spec fn obeys_eq_spec() -> bool {
        true
    }

    open spec fn eq_spec(&self, other: &Self) -> bool {
        self@ == other@
    }
}

/// The plain form of an elders info.
pub type PlainEldersInfo = (
    Vec<([u8; 32], PlainP2pNode)>,
    u64,
    Vec<bool>,
    Vec<[u8; 32]>,
    [u8; 32],
);

/// The view of the plain form of an elders info.
pub type PlainEldersInfoView = (
    Seq<(Seq<u8>, (Seq<u8>, ((bool, u64, u64, u16), Seq<u8>)))>,
    u64,
    Seq<bool>,
    Seq<Seq<u8>>,
    Seq<u8>,
);

impl Encoded for EldersInfo {
    type Plain = PlainEldersInfo;

    open spec fn encode(v: EldersInfoView) -> PlainEldersInfoView {
        (
            <OrderedMap<PublicId, P2pNode> as Encoded>::encode(v.members),
            v.version,
            v.prefix,
            <OrderedSet<Digest256> as Encoded>::encode(v.prev_hash),
            v.hash,
        )
    }

    open spec fn decode(p: PlainEldersInfoView) -> EldersInfoView {
        EldersInfoView {
            members: <OrderedMap<PublicId, P2pNode> as Encoded>::decode(p.0),
            version: p.1,
            prefix: p.2,
            prev_hash: <OrderedSet<Digest256> as Encoded>::decode(p.3),
            hash: p.4,
        }
    }

    open spec fn representable(v: EldersInfoView) -> bool {
        <OrderedMap<PublicId, P2pNode> as Encoded>::representable(v.members) && <OrderedSet<
            Digest256,
        > as Encoded>::representable(v.prev_hash)
    }

    proof fn decode_encode(v: EldersInfoView) {
        <OrderedMap<PublicId, P2pNode> as Encoded>::decode_encode(v.members);
        <OrderedSet<Digest256> as Encoded>::decode_encode(v.prev_hash);
    }

    fn to_plain(&self) -> (r: PlainEldersInfo) {
        (
            self.members.to_plain(),
            self.version,
            self.prefix.to_plain(),
            self.prev_hash.to_plain(),
            self.hash.to_plain(),
        )
    }

    fn from_plain(p: &PlainEldersInfo) -> (r: Self) {
        EldersInfo {
            members: OrderedMap::from_plain(&p.0),
            version: p.1,
            prefix: Prefix::from_plain(&p.2),
            prev_hash: OrderedSet::from_plain(&p.3),
            hash: Digest256::from_plain(&p.4),
        }
    }
}

/// The ids of the elders are exactly those that they are registered under, each once and in
/// ascending order, and the nodes stand at the places of their ids.
pub proof fn law_members_in_ascending_order(info: EldersInfoView)
    requires
        info.members.dom().finite(),
    ensures
        info.member_ids().len() == info.members.dom().len(),
        info.member_nodes().len() == info.members.dom().len(),
        info.member_ids().to_set() == info.members.dom(),
        forall|i: int, j: int|
            0 <= i < j < info.member_ids().len() ==> xor_name::bytes_before(
                #[trigger] info.member_ids()[i],
                #[trigger] info.member_ids()[j],
            ),
        forall|i: int|
            0 <= i < info.member_ids().len() ==> #[trigger] info.member_nodes()[i]
                == info.members[info.member_ids()[i]],
{
    let list = ordered_map::listing::<PublicId, P2pNodeView>(info.members);
    ordered_map::law_listing_has_every_entry_once::<PublicId, P2pNodeView>(info.members);
    let ids = info.member_ids();
    assert forall|id: Seq<u8>| ids.to_set().contains(id) <==> info.members.dom().contains(id) by {
        if ids.contains(id) {
            let i = choose|i: int| 0 <= i < ids.len() && ids[i] == id;
            assert(info.members.contains_key(list[i].0));
        }
        if info.members.contains_key(id) {
            let i = choose|i: int| 0 <= i < list.len() && #[trigger] list[i].0 == id;
            assert(ids[i] == id);
        }
    }
    assert(ids.to_set() =~= info.members.dom());
    assert forall|i: int, j: int| 0 <= i < j < ids.len() implies xor_name::bytes_before(
        #[trigger] info.member_ids()[i],
        #[trigger] info.member_ids()[j],
    ) by {
        assert(PublicId::before(list[i].0, list[j].0));
    }
    assert forall|i: int| 0 <= i < ids.len() implies #[trigger] info.member_nodes()[i]
        == info.members[ids[i]] by {
        assert(list[i].1 == info.members[list[i].0]);
    }
}

/// The plain form of an info has its version, prefix and hash as they are, the elders with their
/// ids and addresses in ascending order of the ids, and the hashes of its predecessors in ascending
/// order.
pub proof fn law_plain_form_has_every_part(info: EldersInfoView, i: int)
    requires
        info.members.dom().finite(),
        info.prev_hash.finite(),
    ensures
        ({
            let (members, version, prefix, prev_hash, hash) = EldersInfo::encode(info);
            let id = info.member_ids()[i];
            let reached = info.members[id].connection_info;
            let addr = reached.peer_addr;
            &&& version == info.version
            &&& prefix == info.prefix
            &&& hash == info.hash
            &&& members.len() == info.members.dom().len()
            &&& 0 <= i < members.len() ==> members[i] == (
                id,
                (
                    info.members[id].public_id,
                    ((addr.is_v6, addr.ip_high, addr.ip_low, addr.port), reached.peer_cert_der),
                ),
            )
            &&& prev_hash.len() == info.prev_hash.len()
            &&& prev_hash.to_set() == info.prev_hash
            &&& 0 <= i && i + 1 < prev_hash.len() ==> xor_name::bytes_before(
                prev_hash[i],
                prev_hash[i + 1],
            )
        }),
{
    law_members_in_ascending_order(info);
    ordered_map::lemma_set_listing::<Digest256>(info.prev_hash);
    let list = ordered_map::listing::<PublicId, P2pNodeView>(info.members);
    let hashes = ordered_map::set_listing::<Digest256>(info.prev_hash);
    let p = EldersInfo::encode(info);
    assert(p.3 =~= hashes);
    if 0 <= i < list.len() {
        assert(info.member_ids()[i] == list[i].0);
        assert(info.member_nodes()[i] == list[i].1);
    }
    if 0 <= i && i + 1 < hashes.len() {
        assert(Digest256::before(hashes[i], hashes[i + 1]));
    }
}

/// Two infos are equal exactly if all of their parts are: the elders, the version, the prefix, the
/// predecessors and the hash.
pub proof fn law_equal_infos(a: EldersInfo, b: EldersInfo)
    ensures
        EldersInfo::obeys_eq_spec(),
        a.eq_spec(&b) <==> {
            &&& a@.members == b@.members
            &&& a@.version == b@.version
            &&& a@.prefix == b@.prefix
            &&& a@.prev_hash == b@.prev_hash
            &&& a@.hash == b@.hash
        },
{
}

} // verus!
