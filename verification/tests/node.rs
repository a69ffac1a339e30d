//! A node as its user sees it.

use routing::chain::chain::Chain;
use routing::chain::elders_info::EldersInfo;
use routing::chain::network_params::NetworkParams;
use routing::chain::shared_state::SharedState;
use routing::error::RoutingError;
use routing::id::{ConnectionInfo, FullId, P2pNode, PeerAddr, PublicId};
use routing::messages::Authority;
use routing::network_service::NetworkService;
use routing::node::{NetworkConfig, Node, OurType};
use routing::ordered_map::{OrderedMap, OrderedSet};
use routing::peer_map::PeerMap;
use routing::prefix::Prefix;
use routing::state_machine::{State, StateMachine};
use routing::states::elder::{Elder, XorTargetInterval};
use routing::timer::Timer;
use routing::xor_name::{Digest256, XorName};

fn conn_info(port: u16) -> ConnectionInfo {
    ConnectionInfo {
        peer_addr: PeerAddr { is_v6: false, ip_high: 0, ip_low: 1, port },
        peer_cert_der: vec![],
    }
}

fn id(byte: u8) -> PublicId {
    PublicId::new(XorName([byte; 32]))
}

fn full_id(byte: u8) -> FullId {
    FullId::new(id(byte), vec![byte])
}

fn info(bits: Vec<bool>, version: u64, members: &[u8]) -> EldersInfo {
    let mut map = OrderedMap::new();
    for byte in members {
        map.insert(id(*byte), P2pNode::new(id(*byte), conn_info(*byte as u16)));
    }
    EldersInfo::new(
        map,
        version,
        Prefix::from_bits(&bits),
        OrderedSet::new(),
        Digest256([version as u8; 32]),
    )
}

// An elder of section 0 with the sections 10 and 11 around it.
fn elder() -> Elder {
    let mut state = SharedState::new(info(vec![false], 5, &[1, 2, 3]), OrderedMap::new());
    state
        .neighbour_infos
        .insert(Prefix::from_bits(&vec![true, false]), info(vec![true, false], 6, &[0x80, 0x81]));
    // The section 11 is still known by the info of the whole of 1.
    state
        .neighbour_infos
        .insert(Prefix::from_bits(&vec![true, true]), info(vec![true], 4, &[0xc0]));
    state.update_their_knowledge(Prefix::from_bits(&vec![true]), 8);
    let mut peer_map = PeerMap::new();
    peer_map.insert(id(2), conn_info(2));
    Elder {
        network_service: NetworkService::new(),
        full_id: full_id(1),
        peer_map,
        timer: Timer::new(0),
        chain: Chain {
            our_id: id(1),
            state,
            elder_size: 3,
            min_split_size: 10,
            parsec_prune_accumulated: 2,
        },
        user_votes: vec![],
        relocations: vec![],
        next_relocation_dst: None,
        next_relocation_interval: None,
        has_unpolled_observations: true,
    }
}

fn elder_node() -> Node {
    Node::new(StateMachine::new(State::Elder(elder())))
}

fn terminated_node() -> Node {
    Node::new(StateMachine::new(State::Terminated))
}

fn start(config: NetworkConfig) -> (NetworkService, Timer) {
    assert_eq!(config.our_type, OurType::Node);
    (NetworkService::new(), Timer::new(0))
}

fn no_elder(
    _: NetworkService,
    _: FullId,
    _: NetworkParams,
    _: Timer,
) -> Result<Elder, RoutingError> {
    panic!("not the first node")
}

#[test]
fn default_node_bootstraps_under_a_new_id() {
    let machine = Node::builder().make_state_machine(|| full_id(9), start, no_elder);
    match machine.current() {
        State::BootstrappingPeer(peer) => {
            assert_eq!(*peer.full_id(), full_id(9));
            assert_eq!(
                *peer.network_cfg(),
                NetworkParams { elder_size: 7, safe_section_size: 100 }
            );
        }
        _ => panic!("not bootstrapping"),
    }
}

#[test]
fn settings_are_used() {
    let cfg = NetworkParams { elder_size: 1, safe_section_size: 2 };
    let config = || NetworkConfig {
        our_type: OurType::Client,
        port: Some(77),
        hard_coded_contacts: vec![conn_info(4)],
    };
    let start_with_config = |config: NetworkConfig| {
        assert_eq!(config.our_type, OurType::Node);
        assert_eq!(config.port, Some(77));
        assert_eq!(config.hard_coded_contacts, vec![conn_info(4)]);
        (NetworkService::new(), Timer::new(0))
    };
    let machine = Node::builder()
        .network_config(NetworkConfig::default())
        .full_id(full_id(1))
        .first(true)
        .network_cfg(cfg)
        .full_id(full_id(3))
        .first(false)
        .network_config(config())
        .make_state_machine(|| panic!("the id is set"), start_with_config, no_elder);
    match machine.current() {
        State::BootstrappingPeer(peer) => {
            assert_eq!(*peer.full_id(), full_id(3));
            assert_eq!(*peer.network_cfg(), cfg);
        }
        _ => panic!("not bootstrapping"),
    }
}

#[test]
fn first_node_is_an_elder_or_terminated() {
    let machine = Node::builder().first(true).full_id(full_id(1)).make_state_machine(
        || panic!("the id is set"),
        start,
        |_, id, _, _| {
            assert_eq!(id, full_id(1));
            Ok(elder())
        },
    );
    assert!(Node::new(machine).is_elder());
    let machine = Node::builder().first(true).make_state_machine(
        || full_id(9),
        start,
        |_, _, _, _| Err(RoutingError::InvalidNewSectionInfo),
    );
    assert!(matches!(machine.current(), State::Terminated));
}

#[test]
fn ids() {
    assert_eq!(elder_node().id(), Ok(id(1)));
    assert_eq!(terminated_node().id(), Err(RoutingError::Terminated));
    let machine = Node::builder().make_state_machine(|| full_id(9), start, no_elder);
    assert_eq!(Node::new(machine).id(), Ok(id(9)));
}

fn texts(set: &OrderedSet<Prefix>) -> Vec<String> {
    (0..set.len())
        .map(|i| {
            let bits = set.member_at(i).to_bits();
            bits.iter().map(|bit| if *bit { '1' } else { '0' }).collect()
        })
        .collect()
}

fn first_bytes(set: &OrderedSet<XorName>) -> Vec<u8> {
    (0..set.len()).map(|i| set.member_at(i).0[0]).collect()
}

#[test]
fn elder_knows_the_sections() {
    let node = elder_node();
    assert!(node.is_elder());
    assert!(node.elder_state().is_some());
    assert_eq!(*node.elder_state_unchecked().full_id.public_id(), id(1));
    assert_eq!(node.our_prefix().map(|p| p.to_bits()), Some(vec![false]));
    assert_eq!(node.our_name(), Some(&XorName([1; 32])));
    assert_eq!(texts(&node.neighbour_prefixes()), vec!["1", "10"]);
    assert_eq!(texts(&node.prefixes()), vec!["0", "1", "10"]);
    assert_eq!(node.elder_size(), Some(3));
    assert_eq!(node.min_split_size(), Some(10));
    assert_eq!(node.parsec_prune_accumulated(), Some(2));
    assert!(node.has_unpolled_observations());
    let elders: Vec<u8> = node.elders().iter().map(|id| id.name().0[0]).collect();
    assert_eq!(elders, vec![0x80, 0x81, 0xc0, 1, 2, 3]);
    let knowledge = node.get_their_knowledge();
    assert_eq!(knowledge.len(), 1);
    assert_eq!(knowledge.get(&Prefix::from_bits(&vec![true])), Some(&8));
}

#[test]
fn sections_by_prefix() {
    let node = elder_node();
    let ours = Prefix::from_bits(&vec![false]);
    let next = Prefix::from_bits(&vec![true, false]);
    let split = Prefix::from_bits(&vec![true, true]);
    let unknown = Prefix::from_bits(&vec![true]);
    assert_eq!(node.section_elder_info_version(&ours), 5);
    assert_eq!(node.section_elder_info_version(&next), 6);
    assert_eq!(node.section_elder_info_version(&split), 4);
    assert_eq!(node.section_elder_info_version(&unknown), 0);
    assert_eq!(first_bytes(&node.section_elders(&ours)), vec![1, 2, 3]);
    assert_eq!(first_bytes(&node.section_elders(&next)), vec![0x80, 0x81]);
    assert_eq!(first_bytes(&node.section_elders(&unknown)), Vec::<u8>::new());
}

#[test]
fn closest_nodes() {
    let node = elder_node();
    let names = |count: usize| -> Vec<u8> {
        let target = XorName([0x82; 32]);
        node.close_group(target, count).unwrap().iter().map(|name| name.0[0]).collect()
    };
    // In the order of the distances 02, 03, 42, 80, 81, 83 of the first bytes.
    assert_eq!(names(0), Vec::<u8>::new());
    assert_eq!(names(3), vec![0x80, 0x81, 0xc0]);
    assert_eq!(names(100), vec![0x80, 0x81, 0xc0, 2, 3, 1]);

    let close: Vec<u8> =
        node.close_names(&XorName([5; 32])).unwrap().iter().map(|name| name.0[0]).collect();
    assert_eq!(close, vec![1, 2, 3]);
    assert!(node.close_names(&XorName([0x80; 32])).is_none());
}

#[test]
fn authorities() {
    let node = elder_node();
    assert!(node.in_authority(&Authority::Node(XorName([1; 32]))));
    assert!(!node.in_authority(&Authority::Node(XorName([2; 32]))));
    assert!(node.in_authority(&Authority::Section(XorName([2; 32]))));
    assert!(!node.in_authority(&Authority::Section(XorName([0x90; 32]))));
    assert!(node.in_authority(&Authority::PrefixSection(Prefix::from_bits(&vec![false, true]))));
    assert!(!node.in_authority(&Authority::PrefixSection(Prefix::from_bits(&vec![true]))));
    let machine = Node::builder().make_state_machine(|| full_id(9), start, no_elder);
    let node = Node::new(machine);
    assert!(node.in_authority(&Authority::Node(XorName([9; 32]))));
    assert!(!node.in_authority(&Authority::Section(XorName([9; 32]))));
    assert!(!terminated_node().in_authority(&Authority::Node(XorName([9; 32]))));
}

#[test]
fn connections() {
    assert!(elder_node().is_connected(&XorName([2; 32])));
    assert!(!elder_node().is_connected(&XorName([3; 32])));
    assert!(!terminated_node().is_connected(&XorName([2; 32])));
}

#[test]
fn elder_is_changed() {
    let mut node = elder_node();
    node.vote_for(vec![1, 2]);
    node.vote_for(vec![3]);
    node.set_next_relocation_dst(Some(XorName([4; 32])));
    let interval = XorTargetInterval(XorName([4; 32]), XorName([5; 32]));
    node.set_next_relocation_interval(Some(interval));
    node.trigger_relocation(id(2), XorName([6; 32]));
    let elder = node.elder_state_unchecked();
    assert_eq!(elder.user_votes, vec![vec![1, 2], vec![3]]);
    assert_eq!(elder.next_relocation_dst, Some(XorName([4; 32])));
    assert_eq!(elder.next_relocation_interval, Some(interval));
    assert_eq!(elder.relocations, vec![(id(2), XorName([6; 32]))]);
    if let Some(elder) = node.elder_state_mut() {
        elder.has_unpolled_observations = false;
    }
    assert!(!node.has_unpolled_observations());
}

#[test]
fn node_without_a_section() {
    let mut node = terminated_node();
    node.vote_for(vec![1]);
    node.set_next_relocation_dst(None);
    node.set_next_relocation_interval(None);
    node.trigger_relocation(id(1), XorName([1; 32]));
    assert!(matches!(node.state(), State::Terminated));
    assert!(!node.is_elder());
    assert!(node.elder_state_mut().is_none());
    assert!(node.our_prefix().is_none());
    assert!(node.our_name().is_none());
    assert_eq!(node.neighbour_prefixes().len(), 0);
    assert_eq!(node.prefixes().len(), 0);
    assert!(node.elders().is_empty());
    assert_eq!(node.get_their_knowledge().len(), 0);
    assert!(node.close_names(&XorName([1; 32])).is_none());
    assert!(node.close_group(XorName([1; 32]), 1).is_none());
    assert_eq!(node.elder_size(), None);
    assert_eq!(node.min_split_size(), None);
    assert_eq!(node.parsec_prune_accumulated(), None);
    assert!(!node.has_unpolled_observations());
    let ours = Prefix::from_bits(&vec![false]);
    assert_eq!(node.section_elder_info_version(&ours), 0);
    let proof = node.prove(&Authority::Node(XorName([1; 32])), |chain: &Chain, _: &Authority| {
        chain.state.our_history.slice_from(0)
    });
    assert!(proof.is_none());
}

#[test]
fn proof_is_that_of_the_chain() {
    let node = elder_node();
    let proof = node.prove(&Authority::Node(XorName([1; 32])), |chain: &Chain, _: &Authority| {
        chain.state.our_history.slice_from(1)
    });
    assert_eq!(*proof.unwrap().last_public_key_info().version(), 5);
}
