//! A node that has found the network and asks a section to let it in.

use vstd::prelude::*;
use vstd::string::*;

use crate::chain::network_params::NetworkParams;
use crate::error::{InterfaceError, RoutingError};
use crate::id::{ConnectionInfo, ConnectionInfoView, FullId, FullIdView, P2pNode, P2pNodeView};
use crate::messages::{
    self, Authority, AuthorityView, DirectMessage, DirectMessageView, GenesisPfxInfo, HopMessage,
    MessageContent, MessageContentView, RelocatePayload, RoutingMessage, RoutingMessageView,
    SignedRoutingMessage, SignedRoutingMessageView,
};
use crate::network_service::{NetworkActionView, NetworkService};
use crate::peer_map::{self, PeerMap};
use crate::routing_message_filter::RoutingMessageFilter;
use crate::state_machine::{State, Transition, TransitionView};
use crate::states::adult::{Adult, AdultDetails, AdultDetailsView};
use crate::states::bootstrapping_peer::{BootstrappingPeer, BootstrappingPeerView};
use crate::timer::{Timer, TimerView};
use crate::value::{self, Value};

verus! {

/// Time in seconds after which bootstrap is cancelled (and possibly retried).
pub const JOIN_TIMEOUT: u64 = 120;

/// How many times will the node try to join the same section before giving up and rebootstrapping.
pub const MAX_JOIN_ATTEMPTS: u8 = 3;

/// State of a node after bootstrapping, while joining a section
pub struct JoiningPeer {
    network_service: NetworkService,
    routing_msg_filter: RoutingMessageFilter,
    routing_msg_backlog: Vec<SignedRoutingMessage>,
    direct_msg_backlog: Vec<(P2pNode, DirectMessage)>,
    full_id: FullId,
    peer_map: PeerMap,
    timer: Timer,
    join_token: u64,
    join_attempts: u8,
    p2p_nodes: Vec<P2pNode>,
    relocate_payload: Option<RelocatePayload>,
    network_cfg: NetworkParams,
}

#[verifier::ext_equal]
pub struct JoiningPeerView {
    pub network_service: Seq<NetworkActionView>,
    pub routing_msg_filter: Set<RoutingMessageView>,
    pub routing_msg_backlog: Seq<SignedRoutingMessageView>,
    pub direct_msg_backlog: Seq<(P2pNodeView, DirectMessageView)>,
    pub full_id: FullIdView,
    pub peer_map: Map<Seq<u8>, ConnectionInfoView>,
    pub timer: TimerView,
    pub join_token: u64,
    pub join_attempts: u8,
    pub p2p_nodes: Seq<P2pNodeView>,
    pub relocate_payload: Option<Seq<u8>>,
    pub network_cfg: NetworkParams,
}

impl View for JoiningPeer {
    type V = JoiningPeerView;

    closed spec fn view(&self) -> JoiningPeerView {
        JoiningPeerView {
            network_service: self.network_service@,
            routing_msg_filter: self.routing_msg_filter@,
            routing_msg_backlog: value::views(self.routing_msg_backlog@),
            direct_msg_backlog: value::views(self.direct_msg_backlog@),
            full_id: self.full_id@,
            peer_map: self.peer_map@,
            timer: self.timer@,
            join_token: self.join_token,
            join_attempts: self.join_attempts,
            p2p_nodes: value::views(self.p2p_nodes@),
            relocate_payload: messages::payload_view(self.relocate_payload),
            network_cfg: self.network_cfg,
        }
    }
}

/// The requests to join: one to each of the nodes.
pub open spec fn join_requests(
    nodes: Seq<P2pNodeView>,
    payload: Option<Seq<u8>>,
) -> Seq<NetworkActionView> {
    Seq::new(
        nodes.len(),
        |i: int|
            NetworkActionView::SendDirect {
                dst: nodes[i].connection_info,
                msg: DirectMessageView::JoinRequest(payload),
            },
    )
}

/// The requests to disconnect from all the peers.
pub open spec fn disconnects(peers: Map<Seq<u8>, ConnectionInfoView>) -> Seq<NetworkActionView> {
    let infos = peer_map::connection_infos(peers);
    Seq::new(
        infos.len(),
        |i: int| NetworkActionView::Disconnect { peer_addr: infos[i].peer_addr },
    )
}

impl JoiningPeerView {
    /// The peer after it has asked all nodes of the section to let it in.
    pub open spec fn with_join_requests(self) -> JoiningPeerView {
        JoiningPeerView {
            network_service: self.network_service + join_requests(
                self.p2p_nodes,
                self.relocate_payload,
            ),
            ..self
        }
    }

    /// The peer with a new timeout for the answer to its requests.
    pub open spec fn with_join_timeout(self) -> JoiningPeerView {
        JoiningPeerView {
            timer: self.timer.scheduled(JOIN_TIMEOUT),
            join_token: self.timer.next_token,
            ..self
        }
    }

    /// The timeout ends the last attempt to join.
    pub open spec fn gives_up(self, token: u64) -> bool {
        token == self.join_token && self.join_attempts + 1 >= MAX_JOIN_ATTEMPTS
    }

    /// The peer after a timeout. If it is the one for the answer to the requests, the peer tries
    /// again, or disconnects from all peers after the last attempt.
    pub open spec fn after_timeout(self, token: u64) -> JoiningPeerView {
        let counted = JoiningPeerView {
            join_attempts: (self.join_attempts + 1) as u8,
            ..self
        };
        if token != self.join_token {
            self
        } else if self.gives_up(token) {
            JoiningPeerView {
                peer_map: Map::empty(),
                network_service: self.network_service + disconnects(self.peer_map),
                ..counted
            }
        } else {
            counted.with_join_timeout().with_join_requests()
        }
    }

    /// The peer with one more routing message to be handled later.
    pub open spec fn with_backlog(self, msg: SignedRoutingMessageView) -> JoiningPeerView {
        JoiningPeerView { routing_msg_backlog: self.routing_msg_backlog.push(msg), ..self }
    }

    /// The peer after it has answered a connection request.
    pub open spec fn connected(
        self,
        pub_id: Seq<u8>,
        conn_info: ConnectionInfoView,
    ) -> JoiningPeerView {
        JoiningPeerView {
            peer_map: self.peer_map.insert(pub_id, conn_info),
            network_service: self.network_service.push(
                NetworkActionView::SendDirect {
                    dst: conn_info,
                    msg: DirectMessageView::ConnectionResponse,
                },
            ),
            ..self
        }
    }

    /// The peer after a message to it that is properly signed, and what becomes of its state: an
    /// approval by a section makes it an adult, a connection request by a node is answered, and all
    /// else is left for later.
    pub open spec fn dispatched(
        self,
        msg: SignedRoutingMessageView,
    ) -> (JoiningPeerView, TransitionView) {
        let routing = msg.content;
        match routing.content {
            MessageContentView::NodeApproval(gen_pfx_info) => if routing.src is PrefixSection
                && routing.dst is Node {
                (self, TransitionView::IntoAdult { gen_pfx_info })
            } else {
                (self.with_backlog(msg), TransitionView::Stay)
            },
            MessageContentView::ConnectionRequest { conn_info, pub_id, msg_id } =>
                if routing.src is Node && routing.dst is Node {
                (self.connected(pub_id, conn_info), TransitionView::Stay)
            } else {
                (self.with_backlog(msg), TransitionView::Stay)
            },
            MessageContentView::Other(_) => (self.with_backlog(msg), TransitionView::Stay),
        }
    }

    /// The authority is this node.
    pub open spec fn in_authority(self, dst: AuthorityView) -> bool {
        dst.is_node(self.full_id.public_id)
    }

    /// The peer that knows the message.
    pub open spec fn with_known(self, msg: RoutingMessageView) -> JoiningPeerView {
        JoiningPeerView { routing_msg_filter: self.routing_msg_filter.insert(msg), ..self }
    }

    /// What the peer takes along when it becomes an adult.
    pub open spec fn adult_details(
        self,
        gen_pfx_info: messages::GenesisPfxInfoView,
    ) -> AdultDetailsView {
        AdultDetailsView {
            network_service: self.network_service,
            event_backlog: Seq::empty(),
            full_id: self.full_id,
            gen_pfx_info,
            routing_msg_backlog: self.routing_msg_backlog,
            direct_msg_backlog: self.direct_msg_backlog,
            peer_map: self.peer_map,
            routing_msg_filter: self.routing_msg_filter,
            timer: self.timer,
            network_cfg: self.network_cfg,
        }
    }
}

/// The state of a peer that has just asked to join.
pub open spec fn started(
    network_service: Seq<NetworkActionView>,
    full_id: FullIdView,
    network_cfg: NetworkParams,
    timer: TimerView,
    peer_map: Map<Seq<u8>, ConnectionInfoView>,
    p2p_nodes: Seq<P2pNodeView>,
    relocate_payload: Option<Seq<u8>>,
) -> JoiningPeerView {
    JoiningPeerView {
        network_service: network_service + join_requests(p2p_nodes, relocate_payload),
        routing_msg_filter: Set::empty(),
        routing_msg_backlog: Seq::empty(),
        direct_msg_backlog: Seq::empty(),
        full_id,
        peer_map,
        timer: timer.scheduled(JOIN_TIMEOUT),
        join_token: timer.next_token,
        join_attempts: 0,
        p2p_nodes,
        relocate_payload,
        network_cfg,
    }
}

impl JoiningPeer {
    /// Asks the given nodes of a section to let this node in.
    pub fn new(
        network_service: NetworkService,
        full_id: FullId,
        network_cfg: NetworkParams,
        timer: Timer,
        peer_map: PeerMap,
        p2p_nodes: Vec<P2pNode>,
        relocate_payload: Option<RelocatePayload>,
    ) -> (r: Self)
        ensures
            r@ == started(
                network_service@,
                full_id@,
                network_cfg,
                timer@,
                peer_map@,
                value::views(p2p_nodes@),
                messages::payload_view(relocate_payload),
            ),
    {
        let mut timer = timer;
        let join_token = timer.schedule(JOIN_TIMEOUT);
        let mut joining_peer = JoiningPeer {
            network_service,
            routing_msg_filter: RoutingMessageFilter::new(),
            routing_msg_backlog: Vec::new(),
            direct_msg_backlog: Vec::new(),
            full_id,
            timer,
            peer_map,
            join_token,
            join_attempts: 0,
            p2p_nodes,
            relocate_payload,
            network_cfg,
        };
        assert(joining_peer@.routing_msg_backlog =~= Seq::empty());
        assert(joining_peer@.direct_msg_backlog =~= Seq::empty());
        joining_peer.send_join_requests();
        joining_peer
    }

    /// Becomes an adult of the section that has approved this node, as `from_joining_peer` tells.
    pub fn into_adult<F: FnOnce(AdultDetails) -> Result<Adult, RoutingError>>(
        self,
        gen_pfx_info: GenesisPfxInfo,
        from_joining_peer: F,
    ) -> (r: Result<State, RoutingError>)
        requires
            forall|details: AdultDetails| call_requires(from_joining_peer, (details,)),
        ensures
            exists|details: AdultDetails, adult: Result<Adult, RoutingError>|
                {
                    &&& details@ == self@.adult_details(gen_pfx_info@)
                    &&& #[trigger] call_ensures(from_joining_peer, (details,), adult)
                    &&& r == (match adult {
                        Ok(adult) => Ok::<State, RoutingError>(State::Adult(adult)),
                        Err(error) => Err::<State, RoutingError>(error),
                    })
                },
    {
        let details = AdultDetails {
            network_service: self.network_service,
            event_backlog: Vec::new(),
            full_id: self.full_id,
            gen_pfx_info,
            routing_msg_backlog: self.routing_msg_backlog,
            direct_msg_backlog: self.direct_msg_backlog,
            peer_map: self.peer_map,
            routing_msg_filter: self.routing_msg_filter,
            timer: self.timer,
            network_cfg: self.network_cfg,
        };
        assert(details@ =~= self@.adult_details(gen_pfx_info@));
        match from_joining_peer(details) {
            Ok(adult) => Ok(State::Adult(adult)),
            Err(error) => Err(error),
        }
    }

    /// Looks for the network again, under the given new identity.
    pub fn rebootstrap(self, full_id: FullId) -> (r: Result<State, RoutingError>)
        ensures
            r matches Ok(State::BootstrappingPeer(peer)) && peer@ == (BootstrappingPeerView {
                network_service: self@.network_service,
                full_id: full_id@,
                network_cfg: self@.network_cfg,
                timer: self@.timer,
            }),
    {
        Ok(
            State::BootstrappingPeer(
                BootstrappingPeer::new(
                    self.network_service,
                    full_id,
                    self.network_cfg,
                    self.timer,
                ),
            ),
        )
    }

    /// Asks all nodes of the section to let this node in.
    fn send_join_requests(&mut self)
        ensures
            final(self)@ == old(self)@.with_join_requests(),
    {
        let ghost start = self@;
        let ghost requests = join_requests(self@.p2p_nodes, self@.relocate_payload);
        assert(start.network_service + requests.take(0) =~= start.network_service);
        let len = self.p2p_nodes.len();
        for i in 0..len
            invariant
                requests == join_requests(start.p2p_nodes, start.relocate_payload),
                len == start.p2p_nodes.len(),
                self@ == (JoiningPeerView {
                    network_service: start.network_service + requests.take(i as int),
                    ..start
                }),
        {
            assert(value::views(self.p2p_nodes@) == start.p2p_nodes);
            let dst = self.p2p_nodes[i].connection_info().duplicate();
            let payload = messages::duplicate_payload(&self.relocate_payload);
            proof {
                assert(self.p2p_nodes@[i as int]@ == start.p2p_nodes[i as int]);
                assert(requests.take(i + 1) =~= requests.take(i as int).push(requests[i as int]));
                assert(start.network_service + requests.take(i + 1) =~= (start.network_service
                    + requests.take(i as int)).push(requests[i as int]));
            }
            self.send_direct_message(&dst, DirectMessage::JoinRequest(payload));
        }
        assert(requests.take(requests.len() as int) =~= requests);
    }

    /// Sends a message to a peer.
    fn send_direct_message(&mut self, dst: &ConnectionInfo, msg: DirectMessage)
        ensures
            final(self)@ == (JoiningPeerView {
                network_service: old(self)@.network_service.push(
                    NetworkActionView::SendDirect { dst: dst@, msg: msg@ },
                ),
                ..old(self)@
            }),
    {
        self.network_service.send_direct(dst.duplicate(), msg);
    }

    /// Handles a message to this node that is properly signed.
    pub fn dispatch_routing_message(&mut self, msg: SignedRoutingMessage) -> (r: Result<
        Transition,
        RoutingError,
    >)
        ensures
            r matches Ok(transition) && (final(self)@, transition@) == old(self)@.dispatched(msg@),
    {
        let ghost start = self@;
        let (msg, metadata) = msg.into_parts();
        match msg {
            RoutingMessage {
                content: MessageContent::NodeApproval(gen_info),
                src: Authority::PrefixSection(_),
                dst: Authority::Node(_),
            } => Ok(self.handle_node_approval(gen_info)),
            RoutingMessage {
                content: MessageContent::ConnectionRequest { conn_info, pub_id, msg_id: _ },
                src: Authority::Node(_),
                dst: Authority::Node(_),
            } => {
                self.peer_map.insert(pub_id, conn_info.duplicate());
                let p2p_node = P2pNode::new(pub_id, conn_info);
                self.send_direct_message(
                    p2p_node.connection_info(),
                    DirectMessage::ConnectionResponse,
                );
                Ok(Transition::Stay)
            },
            msg => {
                let msg = SignedRoutingMessage::from_parts(msg, metadata);
                self.add_to_backlog(msg);
                Ok(Transition::Stay)
            },
        }
    }

    /// Leaves a routing message for later.
    fn add_to_backlog(&mut self, msg: SignedRoutingMessage)
        ensures
            final(self)@ == old(self)@.with_backlog(msg@),
    {
        self.routing_msg_backlog.push(msg);
        assert(self@.routing_msg_backlog =~= old(self)@.routing_msg_backlog.push(msg@));
    }

    /// The section has approved this node to join.
    fn handle_node_approval(&mut self, gen_pfx_info: GenesisPfxInfo) -> (r: Transition)
        ensures
            *final(self) == *old(self),
            r@ == (TransitionView::IntoAdult { gen_pfx_info: gen_pfx_info@ }),
    {
        Transition::IntoAdult { gen_pfx_info }
    }

    /// Returns the tokens of the timeouts that have ended.
    pub fn get_timed_out_tokens(&mut self) -> (r: Vec<u64>)
        ensures
            r@ == old(self)@.timer.timed_out_tokens(),
            final(self)@ == (JoiningPeerView {
                timer: old(self)@.timer.without_ended(),
                ..old(self)@
            }),
    {
        self.timer.get_timed_out_tokens()
    }

    /// What is to be done on the network.
    pub fn network_service(&self) -> (r: &NetworkService)
        ensures
            r@ == self@.network_service,
    {
        &self.network_service
    }

    /// What is to be done on the network, to be changed.
    pub fn network_service_mut(&mut self) -> (r: &mut NetworkService)
        ensures
            r@ == old(self)@.network_service,
            final(self)@ == (JoiningPeerView { network_service: final(r)@, ..old(self)@ }),
    {
        &mut self.network_service
    }

    /// The node's identity.
    pub fn full_id(&self) -> (r: &FullId)
        ensures
            r@ == self@.full_id,
    {
        &self.full_id
    }

    /// Whether the authority is this node.
    pub fn in_authority(&self, dst: &Authority) -> (r: bool)
        ensures
            r == self@.in_authority(dst@),
    {
        dst.is_single() && dst.is_node(self.full_id.public_id().name())
    }

    /// The peers that this node knows how to reach.
    pub fn peer_map(&self) -> (r: &PeerMap)
        ensures
            r@ == self@.peer_map,
    {
        &self.peer_map
    }

    /// The peers that this node knows how to reach, to be changed.
    pub fn peer_map_mut(&mut self) -> (r: &mut PeerMap)
        ensures
            r@ == old(self)@.peer_map,
            final(self)@ == (JoiningPeerView { peer_map: final(r)@, ..old(self)@ }),
    {
        &mut self.peer_map
    }

    /// How often the node has asked in vain.
    pub fn join_attempts(&self) -> (r: u8)
        ensures
            r == self@.join_attempts,
    {
        self.join_attempts
    }

    /// The token of the timeout for the answer to the requests.
    pub fn join_token(&self) -> (r: u64)
        ensures
            r == self@.join_token,
    {
        self.join_token
    }

    /// The timer, to be changed.
    pub fn timer(&mut self) -> (r: &mut Timer)
        ensures
            r@ == old(self)@.timer,
            final(self)@ == (JoiningPeerView { timer: final(r)@, ..old(self)@ }),
    {
        &mut self.timer
    }

    /// Refuses, in silence, to send a message for the user: the node has not joined yet.
    pub fn handle_send_message(
        &mut self,
        _src: Authority,
        _dst: Authority,
        _content: Vec<u8>,
    ) -> (r: Result<(), InterfaceError>)
        ensures
            r == Ok::<(), InterfaceError>(()),
            *final(self) == *old(self),
    {
        Ok(())
    }

    /// Handles the end of a timeout.
    pub fn handle_timeout(&mut self, token: u64) -> (r: Transition)
        requires
            token == old(self)@.join_token ==> old(self)@.join_attempts < u8::MAX,
        ensures
            final(self)@ == old(self)@.after_timeout(token),
            r@ == (if old(self)@.gives_up(token) {
                TransitionView::Rebootstrap
            } else {
                TransitionView::Stay
            }),
    {
        if self.join_token == token {
            self.join_attempts = self.join_attempts + 1;
            if self.join_attempts < MAX_JOIN_ATTEMPTS {
                self.join_token = self.timer.schedule(JOIN_TIMEOUT);
                self.send_join_requests();
            } else {
                self.disconnect_from_all();
                return Transition::Rebootstrap;
            }
        }
        Transition::Stay
    }

    /// Forgets all peers and disconnects from them.
    fn disconnect_from_all(&mut self)
        ensures
            final(self)@ == (JoiningPeerView {
                peer_map: Map::empty(),
                network_service: old(self)@.network_service + disconnects(old(self)@.peer_map),
                ..old(self)@
            }),
    {
        let ghost start = self@;
        let ghost requests = disconnects(self@.peer_map);
        let conn_infos = self.peer_map.remove_all();
        assert(start.network_service + requests.take(0) =~= start.network_service);
        for i in 0..conn_infos.len()
            invariant
                requests == disconnects(start.peer_map),
                value::views(conn_infos@) == peer_map::connection_infos(start.peer_map),
                self@ == (JoiningPeerView {
                    peer_map: Map::empty(),
                    network_service: start.network_service + requests.take(i as int),
                    ..start
                }),
        {
            let peer_addr = conn_infos[i].peer_addr;
            proof {
                assert(conn_infos@[i as int]@ == value::views(conn_infos@)[i as int]);
                assert(value::views(conn_infos@).len() == requests.len());
                assert(requests.take(i + 1) =~= requests.take(i as int).push(requests[i as int]));
                assert(start.network_service + requests.take(i + 1) =~= (start.network_service
                    + requests.take(i as int)).push(requests[i as int]));
            }
            self.network_service.disconnect_from(peer_addr);
        }
        assert(value::views(conn_infos@).len() == requests.len());
        assert(requests.take(requests.len() as int) =~= requests);
    }

    /// Leaves a direct message for later.
    pub fn handle_direct_message(&mut self, msg: DirectMessage, p2p_node: P2pNode) -> (r: Result<
        Transition,
        RoutingError,
    >)
        ensures
            r matches Ok(transition) && transition@ == TransitionView::Stay,
            final(self)@ == (JoiningPeerView {
                direct_msg_backlog: old(self)@.direct_msg_backlog.push((p2p_node@, msg@)),
                ..old(self)@
            }),
    {
        self.direct_msg_backlog.push((p2p_node, msg));
        assert(self@.direct_msg_backlog =~= old(self)@.direct_msg_backlog.push(
            (p2p_node@, msg@),
        ));
        Ok(Transition::Stay)
    }

    /// Handles a message that has arrived: a known one is dropped, one for this node is handled if
    /// `check_integrity` finds it properly signed, and one for others is left for later.
    pub fn handle_hop_message<F: FnOnce(&SignedRoutingMessage) -> Result<(), RoutingError>>(
        &mut self,
        msg: HopMessage,
        check_integrity: F,
    ) -> (r: Result<Transition, RoutingError>)
        requires
            forall|msg: &SignedRoutingMessage| call_requires(check_integrity, (msg,)),
        ensures
            ({
                let routing = msg.content@.content;
                let known = old(self)@.with_known(routing);
                if old(self)@.routing_msg_filter.contains(routing) {
                    &&& r matches Ok(transition) && transition@ == TransitionView::Stay
                    &&& final(self)@ == old(self)@
                } else if !old(self)@.in_authority(routing.dst) {
                    &&& r matches Ok(transition) && transition@ == TransitionView::Stay
                    &&& final(self)@ == known.with_backlog(msg.content@)
                } else {
                    exists|signed: &SignedRoutingMessage, checked: Result<(), RoutingError>|
                        {
                            &&& *signed == msg.content
                            &&& #[trigger] call_ensures(check_integrity, (signed,), checked)
                            &&& match checked {
                                Ok(_) => r matches Ok(transition) && (final(self)@, transition@)
                                    == known.dispatched(msg.content@),
                                Err(error) => r == Err::<Transition, RoutingError>(error)
                                    && final(self)@ == known,
                            }
                        }
                }
            }),
    {
        let HopMessage { content: msg } = msg;
        if !self.routing_msg_filter.filter_incoming(msg.routing_message()).is_new() {
            assert(self@.routing_msg_filter =~= old(self)@.routing_msg_filter);
            return Ok(Transition::Stay);
        }
        if self.in_authority(&msg.routing_message().dst) {
            match check_integrity(&msg) {
                Ok(_) => self.dispatch_routing_message(msg),
                Err(error) => Err(error),
            }
        } else {
            self.add_to_backlog(msg);
            Ok(Transition::Stay)
        }
    }

    /// Refuses, in silence, to send a routing message: the node has not joined yet.
    pub fn send_routing_message(&mut self, _routing_msg: RoutingMessage) -> (r: Result<
        (),
        RoutingError,
    >)
        ensures
            r == Ok::<(), RoutingError>(()),
            *final(self) == *old(self),
    {
        Ok(())
    }

    /// The text of a joining peer whose name has the given text.
    pub fn fmt(&self, name_text: &str) -> (r: String)
        ensures
            r@ == "JoiningPeer("@ + name_text@ + ")"@,
    {
        String::from_str("JoiningPeer(").concat(name_text).concat(")")
    }
}

/// A peer whose requests are never answered asks three times in all, each time with a new timeout,
/// and then gives up: it forgets its peers, disconnects from them and looks for the network again,
/// without another timeout.
pub proof fn law_third_timeout_gives_up(peer: JoiningPeerView)
    requires
        peer.join_attempts == 0,
    ensures
        ({
            let second = peer.after_timeout(peer.join_token);
            let third = second.after_timeout(second.join_token);
            let last = third.after_timeout(third.join_token);
            let requests = join_requests(peer.p2p_nodes, peer.relocate_payload);
            &&& !peer.gives_up(peer.join_token)
            &&& !second.gives_up(second.join_token)
            &&& third.gives_up(third.join_token)
            &&& second.timer == peer.timer.scheduled(JOIN_TIMEOUT)
            &&& second.join_token == peer.timer.next_token
            &&& second.network_service == peer.network_service + requests
            &&& third.timer == second.timer.scheduled(JOIN_TIMEOUT)
            &&& third.join_token == second.timer.next_token
            &&& last.timer == third.timer
            &&& last.join_token == third.join_token
            &&& third.network_service == peer.network_service + requests + requests
            &&& third.peer_map == peer.peer_map
            &&& last.peer_map == Map::<Seq<u8>, ConnectionInfoView>::empty()
            &&& last.network_service == third.network_service + disconnects(peer.peer_map)
        }),
{
}

/// A timeout that is not the one for the answer to the requests changes nothing.
pub proof fn law_other_timeouts_ignored(peer: JoiningPeerView, token: u64)
    requires
        token != peer.join_token,
    ensures
        peer.after_timeout(token) == peer,
        !peer.gives_up(token),
{
}

/// Once the peer has tried again, the timeout of the attempt before is one of the others.
pub proof fn law_timeout_counts_once(peer: JoiningPeerView)
    requires
        peer.join_token != peer.timer.next_token,
        !peer.gives_up(peer.join_token),
    ensures
        peer.after_timeout(peer.join_token).join_token != peer.join_token,
        peer.after_timeout(peer.join_token).join_token != peer.after_timeout(
            peer.join_token,
        ).timer.next_token,
{
}

/// No message is lost: what waits to be handled goes on waiting, and a message that is neither an
/// approval that ends the wait nor a connection request that is answered joins it. What waits is
/// handed on when the peer becomes an adult.
pub proof fn law_no_message_lost(
    peer: JoiningPeerView,
    msg: SignedRoutingMessageView,
    gen_pfx_info: messages::GenesisPfxInfoView,
)
    ensures
        ({
            let (after, transition) = peer.dispatched(msg);
            &&& after.direct_msg_backlog == peer.direct_msg_backlog
            &&& {
                ||| transition is IntoAdult && after == peer
                ||| transition is Stay && after.routing_msg_backlog
                    == peer.routing_msg_backlog.push(msg)
                ||| transition is Stay && after.routing_msg_backlog == peer.routing_msg_backlog
                    && msg.content.content is ConnectionRequest
            }
        }),
        peer.adult_details(gen_pfx_info).routing_msg_backlog == peer.routing_msg_backlog,
        peer.adult_details(gen_pfx_info).direct_msg_backlog == peer.direct_msg_backlog,
{
}

/// A message is handled once: when it has arrived it is known, and whatever else is handled, it
/// stays known, also when the peer becomes an adult.
pub proof fn law_message_stays_known(
    peer: JoiningPeerView,
    msg: RoutingMessageView,
    other: SignedRoutingMessageView,
    token: u64,
    gen_pfx_info: messages::GenesisPfxInfoView,
)
    ensures
        peer.with_known(msg).routing_msg_filter.contains(msg),
        peer.routing_msg_filter.contains(msg) ==> {
            &&& peer.with_known(other.content).routing_msg_filter.contains(msg)
            &&& peer.dispatched(other).0.routing_msg_filter.contains(msg)
            &&& peer.with_backlog(other).routing_msg_filter.contains(msg)
            &&& peer.after_timeout(token).routing_msg_filter.contains(msg)
            &&& peer.adult_details(gen_pfx_info).routing_msg_filter.contains(msg)
        },
{
}

/// The requests to join are one for each node, in the order of the nodes: to where that node is
/// reached, with the payload.
pub proof fn law_each_node_is_asked_once(
    nodes: Seq<P2pNodeView>,
    payload: Option<Seq<u8>>,
    i: int,
)
    requires
        0 <= i < nodes.len(),
    ensures
        join_requests(nodes, payload).len() == nodes.len(),
        join_requests(nodes, payload)[i] == (NetworkActionView::SendDirect {
            dst: nodes[i].connection_info,
            msg: DirectMessageView::JoinRequest(payload),
        }),
{
}

/// Disconnecting from all peers is one request for each peer: every peer's address is among them,
/// and there is nothing else.
pub proof fn law_each_peer_is_disconnected(
    peers: Map<Seq<u8>, ConnectionInfoView>,
    id: Seq<u8>,
    i: int,
)
    requires
        peers.dom().finite(),
    ensures
        disconnects(peers).len() == peers.dom().len(),
        peers.contains_key(id) ==> disconnects(peers).contains(
            NetworkActionView::Disconnect { peer_addr: peers[id].peer_addr },
        ),
        0 <= i < peers.dom().len() ==> exists|peer: Seq<u8>| #[trigger]
            peers.contains_key(peer) && disconnects(peers)[i] == (NetworkActionView::Disconnect {
                peer_addr: peers[peer].peer_addr,
            }),
{
    peer_map::law_one_connection_info_for_each_peer(peers, id, i);
    let infos = peer_map::connection_infos(peers);
    if peers.contains_key(id) {
        let k = choose|k: int| 0 <= k < infos.len() && infos[k] == peers[id];
        assert(disconnects(peers)[k] == (NetworkActionView::Disconnect {
            peer_addr: peers[id].peer_addr,
        }));
    }
}

/// A new peer has asked each of the nodes once, waits for the answer with a timeout, and knows no
/// message yet.
pub proof fn law_new_peer_has_asked(
    network_service: Seq<NetworkActionView>,
    full_id: FullIdView,
    network_cfg: NetworkParams,
    timer: TimerView,
    peers: Map<Seq<u8>, ConnectionInfoView>,
    p2p_nodes: Seq<P2pNodeView>,
    relocate_payload: Option<Seq<u8>>,
    i: int,
    msg: RoutingMessageView,
)
    ensures
        ({
            let peer = started(
                network_service,
                full_id,
                network_cfg,
                timer,
                peers,
                p2p_nodes,
                relocate_payload,
            );
            let n = network_service.len() as int;
            &&& peer.network_service.len() == n + p2p_nodes.len()
            &&& 0 <= i < n ==> peer.network_service[i] == network_service[i]
            &&& 0 <= i < p2p_nodes.len() ==> peer.network_service[n + i] == (
            NetworkActionView::SendDirect {
                dst: p2p_nodes[i].connection_info,
                msg: DirectMessageView::JoinRequest(relocate_payload),
            })
            &&& peer.timer == timer.scheduled(JOIN_TIMEOUT)
            &&& peer.join_token == timer.next_token
            &&& peer.join_attempts == 0
            &&& !peer.routing_msg_filter.contains(msg)
            &&& peer.routing_msg_backlog.len() == 0
            &&& peer.direct_msg_backlog.len() == 0
            &&& peer.full_id == full_id
            &&& peer.peer_map == peers
            &&& peer.p2p_nodes == p2p_nodes
            &&& peer.relocate_payload == relocate_payload
            &&& peer.network_cfg == network_cfg
        }),
{
}

/// What a timeout does. One that is not for the answer to the requests does nothing. The first and
/// the second one that is make the peer ask all nodes again, with a new timeout. The third one
/// makes it forget all peers and disconnect from them. Nothing else changes but the count.
pub proof fn law_effect_of_a_timeout(peer: JoiningPeerView, token: u64)
    requires
        token == peer.join_token ==> peer.join_attempts < u8::MAX,
    ensures
        ({
            let after = peer.after_timeout(token);
            &&& token != peer.join_token ==> after == peer
            &&& peer.gives_up(token) <==> token == peer.join_token && peer.join_attempts >= 2
            &&& token == peer.join_token && peer.join_attempts < 2 ==> {
                &&& after.network_service == peer.network_service + join_requests(
                    peer.p2p_nodes,
                    peer.relocate_payload,
                )
                &&& after.timer == peer.timer.scheduled(JOIN_TIMEOUT)
                &&& after.join_token == peer.timer.next_token
                &&& after.peer_map == peer.peer_map
            }
            &&& token == peer.join_token && peer.join_attempts >= 2 ==> {
                &&& after.network_service == peer.network_service + disconnects(peer.peer_map)
                &&& after.timer == peer.timer
                &&& after.join_token == peer.join_token
                &&& forall|id: Seq<u8>| !after.peer_map.contains_key(id)
            }
            &&& token == peer.join_token ==> after.join_attempts == peer.join_attempts + 1
            &&& after.routing_msg_filter == peer.routing_msg_filter
            &&& after.routing_msg_backlog == peer.routing_msg_backlog
            &&& after.direct_msg_backlog == peer.direct_msg_backlog
            &&& after.full_id == peer.full_id
            &&& after.p2p_nodes == peer.p2p_nodes
            &&& after.relocate_payload == peer.relocate_payload
            &&& after.network_cfg == peer.network_cfg
        }),
{
}

/// A peer becomes an adult exactly on an approval by a section with a prefix to a node, with the
/// very genesis info that the message carries, and is itself unchanged.
pub proof fn law_approval_makes_an_adult(peer: JoiningPeerView, msg: SignedRoutingMessageView)
    ensures
        ({
            let (after, transition) = peer.dispatched(msg);
            let routing = msg.content;
            &&& transition is IntoAdult <==> routing.content is NodeApproval
                && routing.src is PrefixSection && routing.dst is Node
            &&& transition matches TransitionView::IntoAdult { gen_pfx_info } ==> routing.content
                == MessageContentView::NodeApproval(gen_pfx_info) && after == peer
            &&& transition is IntoAdult || transition is Stay
        }),
{
}

/// A connection request of a node to a node is answered where the request says that the node is
/// reached, and the node is remembered as reached there; nothing else changes. Any other message
/// that is no approval by a section to a node is left for later as it is, after those that wait
/// already; nothing else changes.
pub proof fn law_other_messages(peer: JoiningPeerView, msg: SignedRoutingMessageView)
    ensures
        ({
            let (after, transition) = peer.dispatched(msg);
            let routing = msg.content;
            let n = peer.network_service.len() as int;
            let m = peer.routing_msg_backlog.len() as int;
            let answered = routing.content is ConnectionRequest && routing.src is Node
                && routing.dst is Node;
            let approved = routing.content is NodeApproval && routing.src is PrefixSection
                && routing.dst is Node;
            &&& answered ==> {
                let pub_id = routing.content->ConnectionRequest_pub_id;
                let conn_info = routing.content->ConnectionRequest_conn_info;
                &&& after.peer_map.contains_key(pub_id)
                &&& after.peer_map[pub_id] == conn_info
                &&& forall|id: Seq<u8>|
                    id != pub_id ==> (#[trigger] after.peer_map.contains_key(id)
                        <==> peer.peer_map.contains_key(id)) && after.peer_map[id]
                        == peer.peer_map[id]
                &&& after.network_service.len() == n + 1
                &&& after.network_service[n] == (NetworkActionView::SendDirect {
                    dst: conn_info,
                    msg: DirectMessageView::ConnectionResponse,
                })
                &&& forall|i: int|
                    0 <= i < n ==> after.network_service[i] == peer.network_service[i]
                &&& after == JoiningPeerView {
                    peer_map: after.peer_map,
                    network_service: after.network_service,
                    ..peer
                }
            }
            &&& !answered && !approved ==> {
                &&& after.routing_msg_backlog.len() == m + 1
                &&& after.routing_msg_backlog[m] == msg
                &&& forall|i: int|
                    0 <= i < m ==> after.routing_msg_backlog[i] == peer.routing_msg_backlog[i]
                &&& after == JoiningPeerView {
                    routing_msg_backlog: after.routing_msg_backlog,
                    ..peer
                }
            }
            &&& !approved ==> transition is Stay
        }),
{
}

/// Only messages to the node of its own name are for the peer.
pub proof fn law_messages_for_the_peer(peer: JoiningPeerView, dst: AuthorityView)
    ensures
        peer.in_authority(dst) <==> dst is Node && dst->Node_0 == peer.full_id.public_id,
{
}

/// A message that has arrived is known, along with those that were, and a message that is left for
/// later comes after those that wait; nothing else changes.
pub proof fn law_known_and_waiting_messages(
    peer: JoiningPeerView,
    msg: SignedRoutingMessageView,
    other: RoutingMessageView,
)
    ensures
        ({
            let known = peer.with_known(msg.content);
            let waiting = peer.with_backlog(msg);
            let m = peer.routing_msg_backlog.len() as int;
            &&& known.routing_msg_filter.contains(other) <==> other == msg.content
                || peer.routing_msg_filter.contains(other)
            &&& known == JoiningPeerView { routing_msg_filter: known.routing_msg_filter, ..peer }
            &&& waiting.routing_msg_backlog.len() == m + 1
            &&& waiting.routing_msg_backlog[m] == msg
            &&& forall|i: int|
                0 <= i < m ==> waiting.routing_msg_backlog[i] == peer.routing_msg_backlog[i]
            &&& waiting == JoiningPeerView {
                routing_msg_backlog: waiting.routing_msg_backlog,
                ..peer
            }
        }),
{
}

/// A peer that becomes an adult takes along all that it has, the genesis info that it was approved
/// with, and no events.
pub proof fn law_adult_takes_everything_along(
    peer: JoiningPeerView,
    gen_pfx_info: messages::GenesisPfxInfoView,
)
    ensures
        ({
            let details = peer.adult_details(gen_pfx_info);
            &&& details.network_service == peer.network_service
            &&& details.event_backlog.len() == 0
            &&& details.full_id == peer.full_id
            &&& details.gen_pfx_info == gen_pfx_info
            &&& details.routing_msg_backlog == peer.routing_msg_backlog
            &&& details.direct_msg_backlog == peer.direct_msg_backlog
            &&& details.peer_map == peer.peer_map
            &&& details.routing_msg_filter == peer.routing_msg_filter
            &&& details.timer == peer.timer
            &&& details.network_cfg == peer.network_cfg
        }),
{
}

} // verus!
