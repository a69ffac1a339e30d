//! How to reach the peers that a node knows.

use vstd::prelude::*;

use crate::id::{ConnectionInfo, ConnectionInfoView, PublicId};
use crate::ordered_map::{self, OrderedMap};
use crate::value::{self, Value};

verus! {

/// The connection infos of peers by their ids.
pub struct PeerMap {
    peers: OrderedMap<PublicId, ConnectionInfo>,
}

impl View for PeerMap {
    type V = Map<Seq<u8>, ConnectionInfoView>;

    closed spec fn view(&self) -> Map<Seq<u8>, ConnectionInfoView> {
        self.peers@
    }
}

/// The connection infos in ascending order of the ids of the peers.
pub open spec fn connection_infos(
    peers: Map<Seq<u8>, ConnectionInfoView>,
) -> Seq<ConnectionInfoView> {
    let list = ordered_map::listing::<PublicId, ConnectionInfoView>(peers);
    Seq::new(list.len(), |i: int| list[i].1)
}

impl PeerMap {
    /// A map without any peer.
    pub fn new() -> (r: Self)
        ensures
            r@ == Map::<Seq<u8>, ConnectionInfoView>::empty(),
    {
        PeerMap { peers: OrderedMap::new() }
    }

    /// Registers how to reach a peer.
    pub fn insert(&mut self, pub_id: PublicId, conn_info: ConnectionInfo)
        ensures
            final(self)@ == old(self)@.insert(pub_id@, conn_info@),
    {
        self.peers.insert(pub_id, conn_info);
    }

    /// How to reach the peer, if that is known.
    pub fn get_connection_info(&self, pub_id: &PublicId) -> (r: Option<&ConnectionInfo>)
        ensures
            match r {
                Some(info) => self@.contains_pair(pub_id@, info@),
                None => !self@.contains_key(pub_id@),
            },
    {
        self.peers.get(pub_id)
    }

    /// Forgets all peers and returns how they were reached.
    pub fn remove_all(&mut self) -> (r: Vec<ConnectionInfo>)
        ensures
            final(self)@ == Map::<Seq<u8>, ConnectionInfoView>::empty(),
            value::views(r@) == connection_infos(old(self)@),
    {
        let mut r: Vec<ConnectionInfo> = Vec::new();
        let len = self.peers.len();
        let ghost infos = connection_infos(self.peers@);
        for i in 0..len
            invariant
                infos == connection_infos(self.peers@),
                len == infos.len(),
                r@.len() == i,
                forall|j: int| 0 <= j < i ==> (#[trigger] r@[j])@ == infos[j],
        {
            r.push(self.peers.entry_at(i).1.duplicate());
        }
        assert(value::views(r@) =~= infos);
        self.peers = OrderedMap::new();
        r
    }
}

/// There is one connection info for each peer: every peer's is among them, and each is that of a
/// peer.
pub proof fn law_one_connection_info_for_each_peer(
    peers: Map<Seq<u8>, ConnectionInfoView>,
    id: Seq<u8>,
    i: int,
)
    requires
        peers.dom().finite(),
    ensures
        connection_infos(peers).len() == peers.dom().len(),
        peers.contains_key(id) ==> connection_infos(peers).contains(peers[id]),
        0 <= i < peers.dom().len() ==> exists|peer: Seq<u8>| #[trigger]
            peers.contains_key(peer) && connection_infos(peers)[i] == peers[peer],
{
    let list = ordered_map::listing::<PublicId, ConnectionInfoView>(peers);
    ordered_map::law_listing_has_every_entry_once::<PublicId, ConnectionInfoView>(peers);
    if peers.contains_key(id) {
        let k = choose|k: int| 0 <= k < list.len() && #[trigger] list[k].0 == id;
        assert(list[k].1 == peers[id]);
        assert(connection_infos(peers)[k] == peers[id]);
    }
    if 0 <= i < peers.dom().len() {
        assert(peers.contains_key(list[i].0));
        assert(list[i].1 == peers[list[i].0]);
    }
}

} // verus!
