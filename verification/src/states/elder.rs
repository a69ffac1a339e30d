//! A node that takes part in the decisions of its section.

use vstd::prelude::*;

use crate::chain::chain::{Chain, ChainView};
use crate::id::{ConnectionInfoView, FullId, FullIdView, PublicId};
use crate::network_service::{NetworkActionView, NetworkService};
use crate::peer_map::PeerMap;
use crate::timer::{Timer, TimerView};
use crate::value;
use crate::xor_name::XorName;

verus! {

/// The names between two names.
#[derive(Clone, Copy, Debug, PartialEq, Eq)]
pub struct XorTargetInterval(pub XorName, pub XorName);

/// State of a node that is an elder of its section.
pub struct Elder {
    pub network_service: NetworkService,
    pub full_id: FullId,
    pub peer_map: PeerMap,
    pub timer: Timer,
    pub chain: Chain,
    /// The custom events that this node votes for.
    pub user_votes: Vec<Vec<u8>>,
    /// The nodes that are to be relocated, with the addresses that they are relocated to.
    pub relocations: Vec<(PublicId, XorName)>,
    /// The name to be used when the next relocation request is received.
    pub next_relocation_dst: Option<XorName>,
    /// The interval in which the next relocated node has to choose its name.
    pub next_relocation_interval: Option<XorTargetInterval>,
    /// Whether the elders have yet to agree on something that this node knows of.
    pub has_unpolled_observations: bool,
}

#[verifier::ext_equal]
pub struct ElderView {
    pub network_service: Seq<NetworkActionView>,
    pub full_id: FullIdView,
    pub peer_map: Map<Seq<u8>, ConnectionInfoView>,
    pub timer: TimerView,
    pub chain: ChainView,
    pub user_votes: Seq<Seq<u8>>,
    pub relocations: Seq<(Seq<u8>, Seq<u8>)>,
    pub next_relocation_dst: Option<XorName>,
    pub next_relocation_interval: Option<XorTargetInterval>,
    pub has_unpolled_observations: bool,
}

impl View for Elder {
    type V = ElderView;

    open spec fn view(&self) -> ElderView {
        ElderView {
            network_service: self.network_service@,
            full_id: self.full_id@,
            peer_map: self.peer_map@,
            timer: self.timer@,
            chain: self.chain@,
            user_votes: value::views(self.user_votes@),
            relocations: value::views(self.relocations@),
            next_relocation_dst: self.next_relocation_dst,
            next_relocation_interval: self.next_relocation_interval,
            has_unpolled_observations: self.has_unpolled_observations,
        }
    }
}

impl Elder {
    /// Votes for a custom event.
    pub fn vote_for_user_event(&mut self, event: Vec<u8>)
        ensures
            final(self)@ == (ElderView {
                user_votes: old(self)@.user_votes.push(event@),
                ..old(self)@
            }),
    {
        self.user_votes.push(event);
        assert(self@.user_votes =~= old(self)@.user_votes.push(event@));
    }

    /// Sets a name to be used when the next relocation request is received.
    pub fn set_next_relocation_dst(&mut self, dst: Option<XorName>)
        ensures
            final(self)@ == (ElderView { next_relocation_dst: dst, ..old(self)@ }),
    {
        self.next_relocation_dst = dst;
    }

    /// Sets an interval in which the next relocated node has to choose its name.
    pub fn set_next_relocation_interval(&mut self, interval: Option<XorTargetInterval>)
        ensures
            final(self)@ == (ElderView { next_relocation_interval: interval, ..old(self)@ }),
    {
        self.next_relocation_interval = interval;
    }

    /// Has the given node relocated to the given address.
    pub fn trigger_relocation(&mut self, node_id: PublicId, destination_address: XorName)
        ensures
            final(self)@ == (ElderView {
                relocations: old(self)@.relocations.push((node_id@, destination_address@)),
                ..old(self)@
            }),
    {
        self.relocations.push((node_id, destination_address));
        assert(self@.relocations =~= old(self)@.relocations.push(
            (node_id@, destination_address@),
        ));
    }
}

} // verus!
