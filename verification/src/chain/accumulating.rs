//! Events that the elders of a section agree on, and the proofs of their agreement.

use vstd::prelude::*;

use crate::chain::bls_emu::{BlsPublicKeyShare, BlsSignatureShare};
use crate::encoding::Encoded;
use crate::id::PublicId;
use crate::ordered_map::{self, OrderedKey, OrderedMap};
use crate::value::{duplicate_bytes, same_bytes, Value};
use crate::xor_name;

verus! {

/// An event that the elders have agreed on, in the form in which they exchange it.
#[derive(Debug, PartialEq, Eq)]
pub struct AccumulatingEvent {
    pub payload: Vec<u8>,
}

impl View for AccumulatingEvent {
    type V = Seq<u8>;

    open spec fn view(&self) -> Seq<u8> {
        self.payload@
    }
}

impl Value for AccumulatingEvent {
    fn same(&self, other: &Self) -> (r: bool) {
        same_bytes(&self.payload, &other.payload)
    }

    fn duplicate(&self) -> (r: Self) {
        AccumulatingEvent { payload: duplicate_bytes(&self.payload) }
    }
}

impl Encoded for AccumulatingEvent {
    type Plain = Vec<u8>;

    open spec fn encode(v: Seq<u8>) -> Seq<u8> {
        v
    }

    open spec fn decode(p: Seq<u8>) -> Seq<u8> {
        p
    }

    open spec fn representable(v: Seq<u8>) -> bool {
        true
    }

    proof fn decode_encode(v: Seq<u8>) {
    }

    fn to_plain(&self) -> (r: Vec<u8>) {
        let r = duplicate_bytes(&self.payload);
        assert(r.deep_view() =~= r@);
        r
    }

    fn from_plain(p: &Vec<u8>) -> (r: Self) {
        assert(p.deep_view() =~= p@);
        AccumulatingEvent { payload: duplicate_bytes(p) }
    }
}

/// One elder's share of the signature of an event.
#[derive(Debug, PartialEq, Eq)]
pub struct EventSigPayload {
    pub pub_key_share: BlsPublicKeyShare,
    pub sig_share: BlsSignatureShare,
}

#[verifier::ext_equal]
pub struct EventSigPayloadView {
    pub pub_key_share: Seq<u8>,
    pub sig_share: Seq<u8>,
}

impl View for EventSigPayload {
    type V = EventSigPayloadView;

    open spec fn view(&self) -> EventSigPayloadView {
        EventSigPayloadView { pub_key_share: self.pub_key_share@, sig_share: self.sig_share@ }
    }
}

impl Value for EventSigPayload {
    fn same(&self, other: &Self) -> (r: bool) {
        self.pub_key_share.same(&other.pub_key_share) && self.sig_share.same(&other.sig_share)
    }

    fn duplicate(&self) -> (r: Self) {
        EventSigPayload {
            pub_key_share: self.pub_key_share,
            sig_share: self.sig_share.duplicate(),
        }
    }
}

/// The signature shares that the elders have given for an event, by elder.
pub struct AccumulatingProof {
    sig_shares: OrderedMap<PublicId, EventSigPayload>,
}

impl View for AccumulatingProof {
    type V = Map<Seq<u8>, EventSigPayloadView>;

    closed spec fn view(&self) -> Map<Seq<u8>, EventSigPayloadView> {
        self.sig_shares@
    }
}

/// The shares in ascending order of the elders that gave them: whose key, and which signature.
pub open spec fn shares_of(proofs: Map<Seq<u8>, EventSigPayloadView>) -> Seq<(Seq<u8>, Seq<u8>)> {
    let list = ordered_map::listing::<PublicId, EventSigPayloadView>(proofs);
    Seq::new(list.len(), |i: int| (list[i].1.pub_key_share, list[i].1.sig_share))
}

impl AccumulatingProof {
    /// A proof without any share.
    pub fn new() -> (r: Self)
        ensures
            r@ == Map::<Seq<u8>, EventSigPayloadView>::empty(),
    {
        AccumulatingProof { sig_shares: OrderedMap::new() }
    }

    /// Adds the share of an elder.
    pub fn add_sig_share(&mut self, id: PublicId, payload: EventSigPayload)
        ensures
            final(self)@ == old(self)@.insert(id@, payload@),
    {
        self.sig_shares.insert(id, payload);
    }

    /// The shares by elder.
    pub fn into_sig_shares(self) -> (r: OrderedMap<PublicId, EventSigPayload>)
        ensures
            r@ == self@,
    {
        self.sig_shares
    }
}

impl Value for AccumulatingProof {
    fn same(&self, other: &Self) -> (r: bool) {
        self.sig_shares.same(&other.sig_shares)
    }

    fn duplicate(&self) -> (r: Self) {
        AccumulatingProof { sig_shares: self.sig_shares.duplicate() }
    }
}

/// The shares of a proof are as many as the elders that gave one. The elders can be put in
/// ascending order so that each share is the key share and the signature share of one and the same
/// elder, at that elder's place.
pub proof fn law_shares_are_those_of_the_elders(proofs: Map<Seq<u8>, EventSigPayloadView>)
    requires
        proofs.dom().finite(),
    ensures
        shares_of(proofs).len() == proofs.dom().len(),
        exists|ids: Seq<Seq<u8>>|
            {
                &&& #[trigger] ids.to_set() == proofs.dom()
                &&& ids.len() == proofs.dom().len()
                &&& forall|i: int, j: int|
                    0 <= i < j < ids.len() ==> xor_name::bytes_before(
                        #[trigger] ids[i],
                        #[trigger] ids[j],
                    )
                &&& forall|i: int|
                    0 <= i < ids.len() ==> (#[trigger] shares_of(proofs)[i]).0
                        == proofs[ids[i]].pub_key_share && shares_of(proofs)[i].1
                        == proofs[ids[i]].sig_share
            },
{
    let list = ordered_map::listing::<PublicId, EventSigPayloadView>(proofs);
    ordered_map::law_listing_has_every_entry_once::<PublicId, EventSigPayloadView>(proofs);
    let ids = Seq::new(list.len(), |i: int| list[i].0);
    assert forall|id: Seq<u8>| ids.to_set().contains(id) <==> proofs.dom().contains(id) by {
        if ids.contains(id) {
            let i = choose|i: int| 0 <= i < ids.len() && ids[i] == id;
            assert(proofs.contains_key(list[i].0));
        }
        if proofs.contains_key(id) {
            let i = choose|i: int| 0 <= i < list.len() && #[trigger] list[i].0 == id;
            assert(ids[i] == id);
        }
    }
    assert(ids.to_set() =~= proofs.dom());
    assert forall|i: int, j: int| 0 <= i < j < ids.len() implies xor_name::bytes_before(
        #[trigger] ids[i],
        #[trigger] ids[j],
    ) by {
        assert(PublicId::before(list[i].0, list[j].0));
    }
    assert forall|i: int| 0 <= i < ids.len() implies (#[trigger] shares_of(proofs)[i]).0
        == proofs[ids[i]].pub_key_share && shares_of(proofs)[i].1 == proofs[ids[i]].sig_share by {
        assert(list[i].1 == proofs[list[i].0]);
    }
}

/// Every elder's key share and signature share are among the shares, as one pair.
pub proof fn law_every_elder_has_its_share(proofs: Map<Seq<u8>, EventSigPayloadView>, id: Seq<u8>)
    requires
        proofs.dom().finite(),
        proofs.contains_key(id),
    ensures
        shares_of(proofs).contains((proofs[id].pub_key_share, proofs[id].sig_share)),
{
    let list = ordered_map::listing::<PublicId, EventSigPayloadView>(proofs);
    ordered_map::law_listing_has_every_entry_once::<PublicId, EventSigPayloadView>(proofs);
    let i = choose|i: int| 0 <= i < list.len() && #[trigger] list[i].0 == id;
    assert(list[i].1 == proofs[id]);
    assert(shares_of(proofs)[i] == (proofs[id].pub_key_share, proofs[id].sig_share));
}

} // verus!
