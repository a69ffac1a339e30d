//! A peer that joins a section.

use routing::chain::chain::Chain;
use routing::chain::elders_info::EldersInfo;
use routing::chain::network_params::NetworkParams;
use routing::chain::shared_state::SharedState;
use routing::error::RoutingError;
use routing::id::{ConnectionInfo, FullId, P2pNode, PeerAddr, PublicId};
use routing::messages::{
    Authority, DirectMessage, GenesisPfxInfo, HopMessage, MessageContent, RelocatePayload,
    RoutingMessage, SecurityMetadata, SignedRoutingMessage,
};
use routing::network_service::{NetworkAction, NetworkService};
use routing::ordered_map::{OrderedMap, OrderedSet};
use routing::peer_map::PeerMap;
use routing::prefix::Prefix;
use routing::state_machine::{State, Transition};
use routing::states::adult::{Adult, AdultDetails};
use routing::states::joining_peer::{JoiningPeer, JOIN_TIMEOUT, MAX_JOIN_ATTEMPTS};
use routing::timer::Timer;
use routing::xor_name::{Digest256, XorName};

const CFG: NetworkParams = NetworkParams { elder_size: 3, safe_section_size: 9 };

fn conn_info(port: u16) -> ConnectionInfo {
    ConnectionInfo {
        peer_addr: PeerAddr { is_v6: false, ip_high: 0, ip_low: 1, port },
        peer_cert_der: vec![port as u8],
    }
}

fn id(byte: u8) -> PublicId {
    PublicId::new(XorName([byte; 32]))
}

fn node(byte: u8) -> P2pNode {
    P2pNode::new(id(byte), conn_info(byte as u16))
}

fn our_name() -> XorName {
    XorName([1; 32])
}

fn joining_peer(payload: Option<RelocatePayload>) -> JoiningPeer {
    let mut peers = PeerMap::new();
    peers.insert(id(8), conn_info(80));
    peers.insert(id(7), conn_info(70));
    JoiningPeer::new(
        NetworkService::new(),
        FullId::new(PublicId::new(our_name()), vec![42]),
        CFG,
        Timer::new(1000),
        peers,
        vec![node(2), node(3)],
        payload,
    )
}

fn info() -> EldersInfo {
    EldersInfo::new(
        OrderedMap::new(),
        4,
        Prefix::from_bits(&vec![false]),
        OrderedSet::new(),
        Digest256([4; 32]),
    )
}

fn genesis() -> GenesisPfxInfo {
    GenesisPfxInfo {
        first_info: info(),
        first_state_serialized: vec![1, 2],
        first_ages: OrderedMap::new(),
        latest_info: info(),
    }
}

fn signed(src: Authority, dst: Authority, content: MessageContent) -> SignedRoutingMessage {
    SignedRoutingMessage::from_parts(
        RoutingMessage { src, dst, content },
        SecurityMetadata { bytes: vec![3] },
    )
}

fn hop(src: Authority, dst: Authority, content: MessageContent) -> HopMessage {
    HopMessage { content: signed(src, dst, content) }
}

fn section() -> Authority {
    Authority::PrefixSection(Prefix::from_bits(&vec![false]))
}

fn approval() -> HopMessage {
    hop(section(), Authority::Node(our_name()), MessageContent::NodeApproval(genesis()))
}

fn fine(_: &SignedRoutingMessage) -> Result<(), RoutingError> {
    Ok(())
}

fn forged(_: &SignedRoutingMessage) -> Result<(), RoutingError> {
    Err(RoutingError::FailedSignature)
}

// The sizes of the backlogs that an adult would take over.
fn details(peer: JoiningPeer) -> AdultDetails {
    let mut taken = None;
    let r = peer.into_adult(genesis(), |details| {
        taken = Some(details);
        Err(RoutingError::Terminated)
    });
    assert!(matches!(r, Err(RoutingError::Terminated)));
    taken.unwrap()
}

fn ports_asked(actions: &Vec<NetworkAction>) -> Vec<u16> {
    actions
        .iter()
        .map(|action| match action {
            NetworkAction::SendDirect { dst, msg: DirectMessage::JoinRequest(None) } => {
                dst.peer_addr.port
            }
            _ => panic!("not a join request"),
        })
        .collect()
}

#[test]
fn new_peer_asks_to_join() {
    let mut peer = joining_peer(None);
    assert_eq!(ports_asked(&peer.network_service_mut().take_actions()), vec![2, 3]);
    assert_eq!(peer.full_id().public_id().name().0, [1; 32]);
    assert!(peer.peer_map().get_connection_info(&id(7)).is_some());
    assert!(peer.peer_map().get_connection_info(&id(2)).is_none());
    assert_eq!(peer.fmt("010101.."), "JoiningPeer(010101..)");
}

#[test]
fn relocated_peer_hands_in_its_payload() {
    let mut peer = joining_peer(Some(RelocatePayload { bytes: vec![9, 9] }));
    let actions = peer.network_service_mut().take_actions();
    assert_eq!(actions.len(), 2);
    for action in &actions {
        match action {
            NetworkAction::SendDirect { msg: DirectMessage::JoinRequest(Some(payload)), .. } => {
                assert_eq!(payload.bytes, vec![9, 9]);
            }
            _ => panic!("no payload"),
        }
    }
}

#[test]
fn timeout_ends_after_the_join_timeout() {
    let mut peer = joining_peer(None);
    peer.timer().set_time(1000 + JOIN_TIMEOUT - 1);
    assert!(peer.get_timed_out_tokens().is_empty());
    peer.timer().set_time(1000 + JOIN_TIMEOUT);
    assert_eq!(peer.get_timed_out_tokens(), vec![0]);
    assert!(peer.get_timed_out_tokens().is_empty());
}

#[test]
fn third_timeout_gives_up() {
    assert_eq!(MAX_JOIN_ATTEMPTS, 3);
    let mut peer = joining_peer(None);
    let _ = peer.network_service_mut().take_actions();
    // A timeout of someone else is ignored.
    assert!(matches!(peer.handle_timeout(77), Transition::Stay));
    assert!(peer.network_service_mut().take_actions().is_empty());

    assert!(matches!(peer.handle_timeout(0), Transition::Stay));
    assert_eq!(ports_asked(&peer.network_service_mut().take_actions()), vec![2, 3]);
    // The first timeout counts once.
    assert!(matches!(peer.handle_timeout(0), Transition::Stay));
    assert!(peer.network_service_mut().take_actions().is_empty());
    assert!(matches!(peer.handle_timeout(1), Transition::Stay));
    assert_eq!(ports_asked(&peer.network_service_mut().take_actions()), vec![2, 3]);
    assert!(matches!(peer.handle_timeout(2), Transition::Rebootstrap));
    let ports: Vec<u16> = peer
        .network_service_mut()
        .take_actions()
        .iter()
        .map(|action| match action {
            NetworkAction::Disconnect { peer_addr } => peer_addr.port,
            _ => panic!("not a disconnect"),
        })
        .collect();
    assert_eq!(ports, vec![70, 80]);
    assert!(peer.peer_map().get_connection_info(&id(7)).is_none());

    match peer.rebootstrap(FullId::new(id(99), vec![])) {
        Ok(State::BootstrappingPeer(peer)) => {
            assert_eq!(peer.full_id().public_id().name().0, [99; 32]);
            assert_eq!(*peer.network_cfg(), CFG);
        }
        _ => panic!("not bootstrapping"),
    }
}

#[test]
fn each_attempt_has_a_timeout_of_its_own() {
    let mut peer = joining_peer(None);
    assert_eq!(peer.join_token(), 0);
    peer.timer().set_time(2000);
    let _ = peer.handle_timeout(0);
    assert_eq!(peer.join_token(), 1);
    peer.timer().set_time(3000);
    let _ = peer.handle_timeout(1);
    assert_eq!(peer.join_token(), 2);
    assert!(matches!(peer.handle_timeout(2), Transition::Rebootstrap));
    assert_eq!(peer.join_token(), 2);
    // The attempt that gives up schedules nothing.
    peer.timer().set_time(3000 + JOIN_TIMEOUT - 1);
    assert_eq!(peer.get_timed_out_tokens(), vec![0u64, 1]);
    peer.timer().set_time(u64::max_value());
    assert_eq!(peer.get_timed_out_tokens(), vec![2u64]);
}

#[test]
fn other_timeouts_are_ignored_at_any_count() {
    let mut peer = joining_peer(None);
    while peer.join_attempts() < u8::max_value() {
        let token = peer.join_token();
        let _ = peer.handle_timeout(token);
    }
    let _ = peer.network_service_mut().take_actions();
    peer.peer_map_mut().insert(id(7), conn_info(70));
    for token in [0u64, 1, 77].iter() {
        assert!(matches!(peer.handle_timeout(*token), Transition::Stay));
    }
    assert_eq!(peer.join_attempts(), u8::max_value());
    assert_eq!(peer.join_token(), 2);
    assert!(peer.network_service_mut().take_actions().is_empty());
    assert!(peer.peer_map().get_connection_info(&id(7)).is_some());
}

#[test]
fn approval_makes_an_adult() {
    let mut peer = joining_peer(None);
    let gen_pfx_info = match peer.handle_hop_message(approval(), fine) {
        Ok(Transition::IntoAdult { gen_pfx_info }) => gen_pfx_info,
        _ => panic!("not approved"),
    };
    assert_eq!(gen_pfx_info.first_state_serialized, vec![1, 2]);
    let make = |details: AdultDetails| {
        assert_eq!(details.event_backlog.len(), 0);
        assert_eq!(details.network_cfg, CFG);
        let state = SharedState::new(info(), OrderedMap::new());
        let our_id = *details.full_id.public_id();
        Ok(Adult {
            details,
            chain: Chain {
                our_id,
                state,
                elder_size: 3,
                min_split_size: 9,
                parsec_prune_accumulated: 0,
            },
        })
    };
    match peer.into_adult(gen_pfx_info, make) {
        Ok(State::Adult(adult)) => {
            assert_eq!(adult.details.gen_pfx_info.first_state_serialized, vec![1, 2]);
            assert_eq!(adult.chain.our_id, id(1));
        }
        _ => panic!("not an adult"),
    }
}

#[test]
fn approval_of_the_wrong_kind_waits() {
    for (src, dst) in vec![
        (Authority::Node(our_name()), Authority::Node(our_name())),
        (Authority::Section(our_name()), Authority::Node(our_name())),
        (section(), section()),
    ] {
        let mut peer = joining_peer(None);
        let msg = signed(src, dst, MessageContent::NodeApproval(genesis()));
        assert!(matches!(peer.dispatch_routing_message(msg), Ok(Transition::Stay)));
        assert_eq!(details(peer).routing_msg_backlog.len(), 1);
    }
}

#[test]
fn connection_request_is_answered() {
    let mut peer = joining_peer(None);
    let _ = peer.network_service_mut().take_actions();
    let request = || MessageContent::ConnectionRequest {
        conn_info: conn_info(55),
        pub_id: id(5),
        msg_id: 1,
    };
    let msg = hop(Authority::Node(XorName([5; 32])), Authority::Node(our_name()), request());
    assert!(matches!(peer.handle_hop_message(msg, fine), Ok(Transition::Stay)));
    assert_eq!(peer.peer_map().get_connection_info(&id(5)), Some(&conn_info(55)));
    let actions = peer.network_service_mut().take_actions();
    assert_eq!(actions.len(), 1);
    match &actions[0] {
        NetworkAction::SendDirect { dst, msg: DirectMessage::ConnectionResponse } => {
            assert_eq!(*dst, conn_info(55));
        }
        _ => panic!("no response"),
    }
    // A request by a section is not.
    let msg = hop(section(), Authority::Node(our_name()), request());
    assert!(matches!(peer.handle_hop_message(msg, fine), Ok(Transition::Stay)));
    assert!(peer.network_service_mut().take_actions().is_empty());
    assert_eq!(details(peer).routing_msg_backlog.len(), 1);
}

#[test]
fn known_messages_are_dropped() {
    let mut peer = joining_peer(None);
    assert!(matches!(
        peer.handle_hop_message(approval(), fine),
        Ok(Transition::IntoAdult { .. })
    ));
    assert!(matches!(peer.handle_hop_message(approval(), fine), Ok(Transition::Stay)));
    assert_eq!(details(peer).routing_msg_backlog.len(), 0);
}

#[test]
fn forged_message_is_an_error() {
    let mut peer = joining_peer(None);
    assert!(matches!(
        peer.handle_hop_message(approval(), forged),
        Err(RoutingError::FailedSignature)
    ));
    // It is known from then on.
    assert!(matches!(peer.handle_hop_message(approval(), fine), Ok(Transition::Stay)));
    assert_eq!(details(peer).routing_msg_backlog.len(), 0);
}

#[test]
fn messages_for_others_wait_unchecked() {
    let mut peer = joining_peer(None);
    for dst in vec![
        Authority::Node(XorName([2; 32])),
        Authority::Section(our_name()),
        section(),
    ] {
        let msg = hop(section(), dst, MessageContent::Other(vec![6]));
        assert!(matches!(peer.handle_hop_message(msg, forged), Ok(Transition::Stay)));
    }
    // So do other messages for this node.
    let msg = hop(section(), Authority::Node(our_name()), MessageContent::Other(vec![6]));
    assert!(matches!(peer.handle_hop_message(msg, fine), Ok(Transition::Stay)));
    let direct = DirectMessage::Other(vec![1]);
    assert!(matches!(peer.handle_direct_message(direct, node(6)), Ok(Transition::Stay)));

    let details = details(peer);
    assert_eq!(details.routing_msg_backlog.len(), 4);
    match &details.routing_msg_backlog[3].routing_message().content {
        MessageContent::Other(bytes) => assert_eq!(*bytes, vec![6]),
        _ => panic!("another message"),
    }
    assert_eq!(details.direct_msg_backlog.len(), 1);
    assert_eq!(*details.direct_msg_backlog[0].0.public_id(), id(6));
}

#[test]
fn authority() {
    let peer = joining_peer(None);
    assert!(peer.in_authority(&Authority::Node(our_name())));
    assert!(!peer.in_authority(&Authority::Node(XorName([2; 32]))));
    assert!(!peer.in_authority(&Authority::Section(our_name())));
    assert!(!peer.in_authority(&section()));
}

#[test]
fn nothing_is_sent_before_the_peer_has_joined() {
    let mut peer = joining_peer(None);
    let _ = peer.network_service_mut().take_actions();
    assert_eq!(
        peer.handle_send_message(section(), Authority::Node(our_name()), vec![1]),
        Ok(())
    );
    let msg = RoutingMessage {
        src: Authority::Node(our_name()),
        dst: section(),
        content: MessageContent::Other(vec![]),
    };
    assert_eq!(peer.send_routing_message(msg), Ok(()));
    assert!(peer.network_service_mut().take_actions().is_empty());
}
