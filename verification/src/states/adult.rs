//! A node that has been approved by a section.

use vstd::prelude::*;

use crate::chain::chain::Chain;
use crate::chain::network_params::NetworkParams;
use crate::event::Event;
use crate::id::{ConnectionInfoView, FullId, FullIdView, P2pNode, P2pNodeView};
use crate::messages::{
    DirectMessage, DirectMessageView, GenesisPfxInfo, GenesisPfxInfoView, RoutingMessageView,
    SignedRoutingMessage, SignedRoutingMessageView,
};
use crate::network_service::{NetworkActionView, NetworkService};
use crate::peer_map::PeerMap;
use crate::routing_message_filter::RoutingMessageFilter;
use crate::timer::{Timer, TimerView};
use crate::value;

verus! {

/// What a node takes along when it becomes an adult.
pub struct AdultDetails {
    pub network_service: NetworkService,
    pub event_backlog: Vec<Event>,
    pub full_id: FullId,
    pub gen_pfx_info: GenesisPfxInfo,
    pub routing_msg_backlog: Vec<SignedRoutingMessage>,
    pub direct_msg_backlog: Vec<(P2pNode, DirectMessage)>,
    pub peer_map: PeerMap,
    pub routing_msg_filter: RoutingMessageFilter,
    pub timer: Timer,
    pub network_cfg: NetworkParams,
}

#[verifier::ext_equal]
pub struct AdultDetailsView {
    pub network_service: Seq<NetworkActionView>,
    pub event_backlog: Seq<Seq<u8>>,
    pub full_id: FullIdView,
    pub gen_pfx_info: GenesisPfxInfoView,
    pub routing_msg_backlog: Seq<SignedRoutingMessageView>,
    pub direct_msg_backlog: Seq<(P2pNodeView, DirectMessageView)>,
    pub peer_map: Map<Seq<u8>, ConnectionInfoView>,
    pub routing_msg_filter: Set<RoutingMessageView>,
    pub timer: TimerView,
    pub network_cfg: NetworkParams,
}

impl View for AdultDetails {
    type V = AdultDetailsView;

    open spec fn view(&self) -> AdultDetailsView {
        AdultDetailsView {
            network_service: self.network_service@,
            event_backlog: value::views(self.event_backlog@),
            full_id: self.full_id@,
            gen_pfx_info: self.gen_pfx_info@,
            routing_msg_backlog: value::views(self.routing_msg_backlog@),
            direct_msg_backlog: value::views(self.direct_msg_backlog@),
            peer_map: self.peer_map@,
            routing_msg_filter: self.routing_msg_filter@,
            timer: self.timer@,
            network_cfg: self.network_cfg,
        }
    }
}

/// State of a node that is a member of a section, but none of its elders.
pub struct Adult {
    pub details: AdultDetails,
    pub chain: Chain,
}

} // verus!
