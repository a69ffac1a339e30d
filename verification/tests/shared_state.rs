//! The shared state of a section.

use routing::chain::accumulating::{AccumulatingEvent, AccumulatingProof, EventSigPayload};
use routing::chain::bls_emu::{
    BlsPublicKey, BlsPublicKeySet, BlsPublicKeyShare, BlsSignature, BlsSignatureShare,
};
use routing::chain::elders_info::EldersInfo;
use routing::chain::genesis::GenesisInfo;
use routing::chain::member_info::{
    AgeCounter, MemberInfo, MemberPersona, MemberState, MIN_AGE_COUNTER,
};
use routing::chain::non_empty_list::NonEmptyList;
use routing::chain::proof_chain::SectionKeyInfo;
use routing::chain::shared_state::{
    GenesisPart, PrefixChange, SharedState, MAX_THEIR_RECENT_KEYS,
};
use routing::error::RoutingError;
use routing::id::{ConnectionInfo, P2pNode, PeerAddr, PublicId};
use routing::ordered_map::{OrderedMap, OrderedSet};
use routing::prefix::Prefix;
use routing::value::Value;
use routing::xor_name::{Digest256, XorName};

fn prefix(text: &str) -> Prefix {
    match Prefix::from_str(text) {
        Ok(p) => p,
        Err(c) => panic!("not a bit: {}", c),
    }
}

fn text(p: &Prefix) -> String {
    p.to_bits().iter().map(|bit| if *bit { '1' } else { '0' }).collect()
}

fn connection_info(port: u16) -> ConnectionInfo {
    ConnectionInfo {
        peer_addr: PeerAddr { is_v6: false, ip_high: 0, ip_low: 0x7f00_0001, port },
        peer_cert_der: vec![],
    }
}

// A name with the bits of the prefix in front and the given bytes at the end.
fn name_in(pfx: &Prefix, tag: u8, index: u8) -> XorName {
    let mut bytes = [0u8; 32];
    for (i, bit) in pfx.to_bits().iter().enumerate() {
        if *bit {
            bytes[i / 8] |= 0x80 >> (i % 8);
        }
    }
    bytes[29] = tag;
    bytes[31] = index;
    XorName(bytes)
}

fn gen_elders_info_of_size(
    pfx: Prefix,
    version: u64,
    tag: u8,
    sec_size: u8,
) -> EldersInfo {
    let mut members: OrderedMap<PublicId, P2pNode> = OrderedMap::new();
    for index in 0..sec_size {
        let pub_id = PublicId::new(name_in(&pfx, tag, index));
        members.insert(pub_id, P2pNode::new(pub_id, connection_info(9000 + index as u16)));
    }
    let mut hash = [0u8; 32];
    hash[0] = tag;
    hash[1] = version as u8;
    hash[2] = sec_size;
    for (i, bit) in pfx.to_bits().iter().enumerate() {
        hash[3 + i] = if *bit { 2 } else { 1 };
    }
    EldersInfo::new(members, version, pfx, OrderedSet::new(), Digest256(hash))
}

fn gen_elders_info(pfx: Prefix, version: u64, tag: u8) -> EldersInfo {
    gen_elders_info_of_size(pfx, version, tag, 5)
}

fn state(info: EldersInfo) -> SharedState {
    SharedState::new(info, OrderedMap::new())
}

// updates: our section prefix followed by the prefixes of the sections we update the keys for,
//          in sequence; every entry in the vector will get its own key.
// expected: vec of pairs (prefix, index)
//           the prefix is the prefix of the section whose key we check
//           the index is the index in the `updates` vector, which should have generated the
//           key we expect to get for the given prefix
fn update_keys_and_check(updates: Vec<&str>, expected: Vec<(&str, usize)>) {
    update_keys_and_check_with_version(updates.into_iter().enumerate().collect(), expected)
}

fn update_keys_and_check_with_version(updates: Vec<(usize, &str)>, expected: Vec<(&str, usize)>) {
    //
    // Arrange
    //
    let keys_to_update: Vec<(SectionKeyInfo, EldersInfo)> = updates
        .into_iter()
        .enumerate()
        .map(|(index, (version, pfx_str))| {
            let elders_info = gen_elders_info(prefix(pfx_str), version as u64, index as u8);
            let key_info = SectionKeyInfo::from_elders_info(&elders_info);
            (key_info, elders_info)
        })
        .collect();
    let expected_keys: Vec<(String, Option<usize>)> = expected
        .into_iter()
        .map(|(pfx_str, index)| (pfx_str.to_string(), Some(index)))
        .collect();

    let mut state = {
        let start_section = keys_to_update[0].1.duplicate();
        SharedState::new(start_section, OrderedMap::new())
    };

    //
    // Act
    //
    for (key_info, _) in keys_to_update.iter().skip(1) {
        state.update_their_keys(key_info);
    }

    //
    // Assert
    //
    let actual_keys: Vec<(String, Option<usize>)> = state
        .get_their_keys_info()
        .iter()
        .map(|(p, info)| {
            (
                text(p),
                keys_to_update.iter().position(|(key_info, _)| key_info == *info),
            )
        })
        .collect();

    assert_eq!(actual_keys, expected_keys);
}

#[test]
fn single_prefix_multiple_updates() {
    update_keys_and_check(
        vec!["0", "1", "1", "1", "1"],
        vec![("0", 0), ("1", 4), ("1", 3), ("1", 2), ("1", 1)],
    );
}

#[test]
fn single_prefix_multiple_updates_out_of_order() {
    // Late version ignored
    update_keys_and_check_with_version(
        vec![(0, "0"), (0, "1"), (2, "1"), (1, "1"), (3, "1")],
        vec![("0", 0), ("1", 4), ("1", 2), ("1", 1)],
    );
}

#[test]
fn simple_split() {
    update_keys_and_check(
        vec!["0", "10", "11", "101"],
        vec![("0", 0), ("100", 1), ("101", 3), ("11", 2), ("10", 1)],
    );
}

#[test]
fn simple_split_out_of_order() {
    // Late version ignored
    update_keys_and_check_with_version(
        vec![(0, "0"), (5, "10"), (5, "11"), (7, "101"), (6, "10")],
        vec![("0", 0), ("100", 1), ("101", 3), ("11", 2), ("10", 1)],
    );
}

#[test]
fn our_section_not_sibling_of_ancestor() {
    // 01 Not the sibling of the single bit parent prefix of 111
    update_keys_and_check(
        vec!["01", "1", "111"],
        vec![("01", 0), ("10", 1), ("110", 1), ("111", 2), ("1", 1)],
    );
}

#[test]
fn multiple_split() {
    update_keys_and_check(
        vec!["0", "1", "1011001"],
        vec![
            ("0", 0),
            ("100", 1),
            ("1010", 1),
            ("1011000", 1),
            ("1011001", 2),
            ("101101", 1),
            ("10111", 1),
            ("11", 1),
            ("1", 1),
        ],
    );
}

#[test]
fn same_key_twice_changes_nothing() {
    update_keys_and_check_with_version(
        vec![(0, "0"), (1, "1"), (1, "1")],
        vec![("0", 0), ("1", 1)],
    );
}

#[test]
fn news_of_a_split_section_do_not_undo_the_split() {
    // A newer key for the parent of a known section is ignored.
    update_keys_and_check_with_version(
        vec![(0, "0"), (1, "10"), (1, "11"), (9, "1")],
        vec![("0", 0), ("10", 1), ("11", 2)],
    );
}

#[test]
fn recent_keys_are_bounded() {
    let count = MAX_THEIR_RECENT_KEYS + 4;
    let mut updates = vec!["0"];
    updates.resize(count + 1, "1");
    let mut expected = vec![("0", 0), ("1", count)];
    for back in 1..=MAX_THEIR_RECENT_KEYS {
        expected.push(("1", count - back));
    }
    assert_eq!(expected.len(), 12);
    update_keys_and_check(updates, expected);
}

fn knowledge(state: &SharedState) -> Vec<(String, u64)> {
    let map = state.get_their_knowledge();
    (0..map.len())
        .map(|i| {
            let (p, version) = map.entry_at(i);
            (text(p), *version)
        })
        .collect()
}

#[test]
fn their_knowledge_follows_splits() {
    let mut state = state(gen_elders_info(prefix("0"), 0, 0));
    assert_eq!(knowledge(&state), vec![]);
    state.update_their_knowledge(prefix("1"), 3);
    assert_eq!(knowledge(&state), vec![("1".to_string(), 3)]);
    // Late and equal versions are ignored.
    state.update_their_knowledge(prefix("1"), 2);
    state.update_their_knowledge(prefix("1"), 3);
    assert_eq!(knowledge(&state), vec![("1".to_string(), 3)]);
    state.update_their_knowledge(prefix("101"), 5);
    assert_eq!(
        knowledge(&state),
        vec![("100".to_string(), 3), ("101".to_string(), 5), ("11".to_string(), 3)]
    );
    // The section has been split: news of the whole of it are ignored.
    state.update_their_knowledge(prefix("1"), 9);
    assert_eq!(
        knowledge(&state),
        vec![("100".to_string(), 3), ("101".to_string(), 5), ("11".to_string(), 3)]
    );
}

#[test]
fn new_state() {
    let info = gen_elders_info(prefix("01"), 7, 1);
    let first = *info.members().entry_at(0).0;
    let second = *info.members().entry_at(1).0;
    let mut ages = OrderedMap::new();
    ages.insert(second, AgeCounter(40));
    let state = SharedState::new(info.duplicate(), ages);

    assert!(!state.handled_genesis_event);
    assert!(state.new_info == info);
    assert!(*state.our_info() == info);
    assert_eq!(state.our_infos().len(), 1);
    assert_eq!(text(state.our_prefix()), "01");
    assert_eq!(state.our_version(), 7);
    assert_eq!(state.change, PrefixChange::NoChange);
    assert!(state.split_cache.is_none());
    assert_eq!(state.merging.len(), 0);
    assert_eq!(state.neighbour_infos.len(), 0);
    assert_eq!(state.our_history.blocks_len(), 0);
    assert!(*state.our_history.last_public_key_info() == SectionKeyInfo::from_elders_info(&info));
    assert_eq!(state.their_recent_keys.len(), 0);
    assert_eq!(state.churn_event_backlog.len(), 0);

    let members = state.our_members();
    assert_eq!(members.len(), 5);
    let age_of = |id: &PublicId| members.get(id).map(|m| m.age_counter);
    assert_eq!(age_of(&first), Some(AgeCounter(MIN_AGE_COUNTER)));
    assert_eq!(age_of(&second), Some(AgeCounter(40)));
    let member = members.get(&second).unwrap();
    assert_eq!(member.state, MemberState::Joined);
    assert_eq!(member.connection_info, connection_info(9001));
}

fn member(age: u32, state: MemberState) -> MemberInfo {
    MemberInfo {
        age_counter: AgeCounter(age),
        state,
        connection_info: connection_info(1),
    }
}

#[test]
fn personas() {
    let info = gen_elders_info(prefix("0"), 0, 0);
    let elder = *info.members().entry_at(0).0;
    let mut state = state(info);
    let infant = PublicId::new(name_in(&prefix("0"), 7, 1));
    let adult = PublicId::new(name_in(&prefix("0"), 7, 2));
    let stranger = PublicId::new(name_in(&prefix("0"), 7, 3));
    state.our_members.insert(infant, member(MIN_AGE_COUNTER, MemberState::Joined));
    state.our_members.insert(adult, member(MIN_AGE_COUNTER + 1, MemberState::Joined));

    assert_eq!(state.get_persona(&elder), Some(MemberPersona::Elder));
    assert_eq!(state.get_persona(&infant), Some(MemberPersona::Infant));
    assert_eq!(state.get_persona(&adult), Some(MemberPersona::Adult));
    assert_eq!(state.get_persona(&stranger), None);
}

#[test]
fn joined_members() {
    let mut state = state(gen_elders_info_of_size(prefix("0"), 0, 0, 2));
    let gone = PublicId::new(name_in(&prefix("0"), 0, 100));
    let come = PublicId::new(name_in(&prefix("0"), 0, 200));
    state.our_members.insert(gone, member(20, MemberState::Left));
    state.our_members.insert(come, member(20, MemberState::Joined));
    let joined: Vec<PublicId> = state.our_joined_members().iter().map(|(id, _)| **id).collect();
    let expected: Vec<PublicId> =
        [0, 1, 200].iter().map(|i| PublicId::new(name_in(&prefix("0"), 0, *i))).collect();
    assert_eq!(joined, expected);
}

#[test]
fn members_outside_the_prefix_are_removed() {
    let mut state = state(gen_elders_info_of_size(prefix(""), 0, 0, 0));
    let inside = PublicId::new(name_in(&prefix("01"), 0, 1));
    let outside = PublicId::new(name_in(&prefix("00"), 0, 1));
    let opposite = PublicId::new(name_in(&prefix("1"), 0, 1));
    for id in [inside, outside, opposite].iter() {
        state.our_members.insert(*id, member(20, MemberState::Joined));
    }
    state.remove_our_members_not_matching_prefix(&prefix("01"));
    assert_eq!(state.our_members.len(), 1);
    assert!(state.our_members.contains_key(&inside));
    state.remove_our_members_not_matching_prefix(&prefix("01"));
    assert_eq!(state.our_members.len(), 1);
    state.remove_our_members_not_matching_prefix(&prefix("1"));
    assert_eq!(state.our_members.len(), 0);
}

#[test]
fn info_by_hash() {
    let first = gen_elders_info(prefix("0"), 0, 0);
    let second = gen_elders_info(prefix("0"), 1, 1);
    let mut state = state(first.duplicate());
    state.our_infos.push(second.duplicate());
    assert!(*state.our_info_by_hash(first.hash()).unwrap() == first);
    assert!(*state.our_info_by_hash(second.hash()).unwrap() == second);
    assert!(state.our_info_by_hash(&Digest256([9; 32])).is_none());
}

fn merged(ours: &EldersInfo, theirs: &EldersInfo) -> Result<EldersInfo, RoutingError> {
    let version = *ours.version() + *theirs.version();
    Ok(gen_elders_info(ours.prefix().popped(), version, 99))
}

#[test]
fn merge_needs_both_signals() {
    let ours = gen_elders_info(prefix("10"), 2, 0);
    let theirs = gen_elders_info(prefix("11"), 3, 1);
    let mut state = state(ours.duplicate());
    assert!(matches!(state.try_merge(merged), Ok(None)));
    state.neighbour_infos.insert(prefix("11"), theirs.duplicate());
    assert!(matches!(state.try_merge(merged), Ok(None)));
    state.merging.insert(*theirs.hash());
    assert!(matches!(state.try_merge(merged), Ok(None)));
    assert!(!state.is_self_merge_ready());
    state.merging.insert(*ours.hash());
    assert!(state.is_self_merge_ready());
    state.merging.insert(Digest256([7; 32]));

    let new_info = match state.try_merge(merged) {
        Ok(Some(info)) => info,
        _ => panic!("no merge"),
    };
    assert_eq!(text(new_info.prefix()), "1");
    assert_eq!(*new_info.version(), 5);
    assert!(state.new_info == new_info);
    assert_eq!(state.merging.len(), 1);
    assert!(state.merging.contains(&Digest256([7; 32])));
    assert!(!state.is_self_merge_ready());
    // The signals are used up.
    assert!(matches!(state.try_merge(merged), Ok(None)));
}

#[test]
fn failed_merge_uses_up_the_signals() {
    let ours = gen_elders_info(prefix("10"), 2, 0);
    let theirs = gen_elders_info(prefix("11"), 3, 1);
    let mut state = state(ours.duplicate());
    state.neighbour_infos.insert(prefix("11"), theirs.duplicate());
    state.merging.insert(*theirs.hash());
    state.merging.insert(*ours.hash());
    let failing = |_: &EldersInfo, _: &EldersInfo| -> Result<EldersInfo, RoutingError> {
        Err(RoutingError::InvalidNewSectionInfo)
    };
    assert!(matches!(
        state.try_merge(failing),
        Err(RoutingError::InvalidNewSectionInfo)
    ));
    assert_eq!(state.merging.len(), 0);
    assert!(state.new_info == ours);
}

#[test]
fn votes_for_merge() {
    let small = gen_elders_info_of_size(prefix("11"), 0, 1, 2);
    let large = gen_elders_info_of_size(prefix("11"), 0, 1, 5);
    let far = gen_elders_info_of_size(prefix("00"), 0, 2, 1);

    let mut ours = state(gen_elders_info_of_size(prefix("10"), 0, 0, 4));
    // We have too few elders.
    assert!(ours.should_vote_for_merge(5, &vec![]));
    // There are enough of them everywhere.
    assert!(!ours.should_vote_for_merge(4, &vec![&large]));
    // Our sibling has too few elders.
    assert!(ours.should_vote_for_merge(4, &vec![&large, &small]));
    // A section that would not merge with ours has too few elders.
    assert!(!ours.should_vote_for_merge(4, &vec![&far]));
    // Our sibling has signalled for merging.
    ours.merging.insert(*large.hash());
    assert!(ours.should_vote_for_merge(4, &vec![&large]));
    // Not while we split.
    ours.change = PrefixChange::Splitting;
    assert!(!ours.should_vote_for_merge(4, &vec![&large, &small]));
    assert!(!ours.should_vote_for_merge(100, &vec![]));
    ours.change = PrefixChange::Merging;
    assert!(ours.should_vote_for_merge(100, &vec![]));

    // The only section has no one to merge with.
    let only = state(gen_elders_info_of_size(prefix(""), 0, 0, 1));
    assert!(!only.should_vote_for_merge(100, &vec![&small]));
}

fn signature(key: &BlsPublicKey, msg: &[u8]) -> BlsSignature {
    let mut bytes = vec![];
    for id in key.holders() {
        bytes.extend_from_slice(&id.name().0);
    }
    bytes.extend_from_slice(msg);
    BlsSignature { bytes }
}

fn verify(key: &BlsPublicKey, sig: &BlsSignature, msg: &Vec<u8>) -> bool {
    *sig == signature(key, msg)
}

fn proofs(info: &EldersInfo) -> AccumulatingProof {
    let mut proofs = AccumulatingProof::new();
    for node in info.member_nodes() {
        let id = *node.public_id();
        proofs.add_sig_share(
            id,
            EventSigPayload {
                pub_key_share: BlsPublicKeyShare(id),
                sig_share: BlsSignatureShare { bytes: vec![id.name().0[31]] },
            },
        );
    }
    proofs
}

// Pushes `next` with a signature of the elders of the current info.
fn push(state: &mut SharedState, next: &EldersInfo) -> Result<(), RoutingError> {
    let current = state.our_info().duplicate();
    let pk_set = BlsPublicKeySet { public_key: BlsPublicKey::from_elders_info(&current) };
    let msg = SectionKeyInfo::from_elders_info(next).serialise_for_signature().unwrap();
    let combine = |set: &BlsPublicKeySet, shares: &Vec<(BlsPublicKeyShare, BlsSignatureShare)>| {
        let expected: Vec<u8> = (0..set.public_key.holders().len() as u8).collect();
        let given: Vec<u8> = shares.iter().map(|(_, share)| share.bytes[0]).collect();
        assert_eq!(given, expected);
        Some(signature(&set.public_key, &msg))
    };
    state.push_our_new_info(next.duplicate(), proofs(&current), &pk_set, combine)
}

#[test]
fn new_infos_extend_the_history() {
    let first = gen_elders_info(prefix("0"), 1, 0);
    let second = gen_elders_info(prefix("0"), 2, 1);
    let third = gen_elders_info(prefix("01"), 3, 2);
    let mut state = state(first.duplicate());
    assert_eq!(push(&mut state, &second), Ok(()));
    assert_eq!(push(&mut state, &third), Ok(()));

    assert_eq!(state.our_infos().len(), 3);
    assert!(*state.our_info() == third);
    assert_eq!(state.our_history.blocks_len(), 2);
    assert!(state.our_history.validate(&verify));
    assert!(*state.our_history.last_public_key_info() == SectionKeyInfo::from_elders_info(&third));
    let keys: Vec<(String, u64)> = state
        .get_their_keys_info()
        .iter()
        .map(|(p, info)| (text(p), *info.version()))
        .collect();
    assert_eq!(
        keys,
        vec![
            ("00".to_string(), 2),
            ("01".to_string(), 3),
            ("0".to_string(), 2),
            ("0".to_string(), 1)
        ]
    );
}

#[test]
fn new_info_without_signature_is_refused() {
    let first = gen_elders_info(prefix("0"), 1, 0);
    let second = gen_elders_info(prefix("0"), 2, 1);
    let mut state = state(first.duplicate());
    let pk_set = BlsPublicKeySet { public_key: BlsPublicKey::from_elders_info(&first) };
    let none = |_: &BlsPublicKeySet, _: &Vec<(BlsPublicKeyShare, BlsSignatureShare)>| {
        let sig: Option<BlsSignature> = None;
        sig
    };
    assert_eq!(
        state.push_our_new_info(second, AccumulatingProof::new(), &pk_set, none),
        Err(RoutingError::InvalidNewSectionInfo)
    );
    assert_eq!(state.our_infos().len(), 1);
    assert_eq!(state.our_history.blocks_len(), 0);
    assert_eq!(state.get_their_keys_info().len(), 1);
}

// A state in which all that is handed over at genesis is there.
fn rich_state() -> SharedState {
    let mut state = state(gen_elders_info(prefix("0"), 1, 0));
    assert_eq!(push(&mut state, &gen_elders_info(prefix("0"), 2, 1)), Ok(()));
    let gone = PublicId::new(name_in(&prefix("0"), 3, 3));
    state.our_members.insert(gone, member(33, MemberState::Left));
    state.neighbour_infos.insert(prefix("1"), gen_elders_info(prefix("1"), 4, 4));
    state.update_their_keys(&SectionKeyInfo::from_elders_info(&gen_elders_info(
        prefix("1"),
        4,
        4,
    )));
    state.update_their_knowledge(prefix("10"), 6);
    state.churn_event_backlog.push_back(AccumulatingEvent { payload: vec![1, 2, 3] });
    state.churn_event_backlog.push_back(AccumulatingEvent { payload: vec![] });
    state
}

#[test]
fn genesis_info_round_trip() {
    let source = rich_state();
    let bytes = source.get_genesis_related_info().unwrap();
    assert!(!bytes.is_empty());

    let fresh_info = gen_elders_info(prefix("0"), 9, 9);
    let mut fresh = state(fresh_info.duplicate());
    let mut differing = vec![];
    assert_eq!(fresh.update_with_genesis_related_info(&bytes, &verify, &mut differing), Ok(()));
    // A node without a history has nothing to compare.
    assert_eq!(differing, vec![]);
    assert!(fresh.handled_genesis_event);
    assert!(fresh.new_info == fresh_info);
    assert!(fresh.our_infos.same(&source.our_infos));
    assert!(fresh.our_history.same(&source.our_history));
    assert!(fresh.our_members.same(&source.our_members));
    assert!(fresh.neighbour_infos.same(&source.neighbour_infos));
    assert!(fresh.their_keys.same(&source.their_keys));
    assert!(fresh.their_knowledge.same(&source.their_knowledge));
    assert_eq!(fresh.their_recent_keys.len(), 1);
    assert!(fresh.their_recent_keys[0].same(&source.their_recent_keys[0]));
    assert_eq!(fresh.churn_event_backlog, source.churn_event_backlog);
    // And it hands the same on.
    assert_eq!(fresh.get_genesis_related_info().unwrap(), bytes);
}

#[test]
fn genesis_info_bytes_are_those_of_the_wire_format() {
    let info = gen_elders_info_of_size(prefix("1"), 5, 0, 0);
    let state = state(info.duplicate());
    let mut elders = vec![];
    elders.extend_from_slice(&[0; 8]); // no members
    elders.extend_from_slice(&[5, 0, 0, 0, 0, 0, 0, 0]); // version
    elders.extend_from_slice(&[1, 0, 0, 0, 0, 0, 0, 0, 1]); // prefix
    elders.extend_from_slice(&[0; 8]); // no predecessors
    elders.extend_from_slice(&info.hash().0);
    let mut key_info = elders.clone();
    key_info.extend_from_slice(&[0; 8]); // no holders of the key

    let mut expected = vec![];
    expected.extend_from_slice(&[0; 8]); // no earlier infos
    expected.extend_from_slice(&elders);
    expected.extend_from_slice(&key_info);
    expected.extend_from_slice(&[0; 8]); // no blocks
    expected.extend_from_slice(&[0; 8]); // no members
    expected.extend_from_slice(&[0; 8]); // no neighbours
    expected.extend_from_slice(&[1, 0, 0, 0, 0, 0, 0, 0]); // one key, ours
    expected.extend_from_slice(&[1, 0, 0, 0, 0, 0, 0, 0, 1]);
    expected.extend_from_slice(&key_info);
    expected.extend_from_slice(&[0; 8]); // no knowledge
    expected.extend_from_slice(&[0; 8]); // no recent keys
    expected.extend_from_slice(&[0; 8]); // no events
    assert_eq!(state.get_genesis_related_info().unwrap(), expected);
}

#[test]
fn genesis_event_without_info_is_only_marked() {
    let mut state = rich_state();
    let before = state.get_genesis_related_info().unwrap();
    let mut differing = vec![];
    assert_eq!(state.update_with_genesis_related_info(&[], &verify, &mut differing), Ok(()));
    assert!(state.handled_genesis_event);
    assert_eq!(differing, vec![]);
    assert_eq!(state.get_genesis_related_info().unwrap(), before);
    // A second genesis event is noted.
    assert_eq!(state.update_with_genesis_related_info(&[], &verify, &mut differing), Ok(()));
    assert_eq!(differing, vec![GenesisPart::HandledGenesisEvent]);
}

#[test]
fn broken_genesis_info_is_refused() {
    let mut state = rich_state();
    let before = state.get_genesis_related_info().unwrap();
    let mut too_long = before.clone();
    too_long.push(0);
    let too_short = &before[..before.len() - 1];
    for bytes in [&[1u8, 2, 3][..], &too_long[..], too_short].iter() {
        let mut differing = vec![];
        state.handled_genesis_event = false;
        assert_eq!(
            state.update_with_genesis_related_info(bytes, &verify, &mut differing),
            Err(RoutingError::SerialisationError)
        );
        assert!(state.handled_genesis_event);
        assert_eq!(differing, vec![]);
        assert_eq!(state.get_genesis_related_info().unwrap(), before);
    }
}

#[test]
fn node_with_history_reports_what_differs() {
    let source = rich_state();
    let bytes = source.get_genesis_related_info().unwrap();

    let mut same = rich_state();
    let mut differing = vec![];
    assert_eq!(same.update_with_genesis_related_info(&bytes, &verify, &mut differing), Ok(()));
    assert_eq!(differing, vec![]);

    let mut other = rich_state();
    other.handled_genesis_event = true;
    other.our_members = OrderedMap::new();
    other.update_their_knowledge(prefix("10"), 7);
    other.churn_event_backlog.clear();
    let mut differing = vec![];
    assert_eq!(other.update_with_genesis_related_info(&bytes, &verify, &mut differing), Ok(()));
    assert_eq!(
        differing,
        vec![
            GenesisPart::HandledGenesisEvent,
            GenesisPart::OurMembers,
            GenesisPart::TheirKnowledge,
            GenesisPart::ChurnEventBacklog
        ]
    );
    assert_eq!(other.get_genesis_related_info().unwrap(), bytes);

    // Histories that are not valid never count as the same.
    let mut unsure = rich_state();
    let mut differing = vec![];
    let never = |_: &BlsPublicKey, _: &BlsSignature, _: &Vec<u8>| false;
    assert_eq!(unsure.update_with_genesis_related_info(&bytes, &never, &mut differing), Ok(()));
    assert_eq!(differing, vec![GenesisPart::OurHistory]);
}

#[test]
fn all_parts_of_the_genesis_info_are_compared() {
    let mut state = rich_state();
    let info = gen_elders_info(prefix("1"), 1, 50);
    let key_info = SectionKeyInfo::from_elders_info(&info);
    let mut differing = vec![GenesisPart::HandledGenesisEvent];
    let other = GenesisInfo {
        our_infos: NonEmptyList::new(info),
        our_history: routing::chain::proof_chain::SectionProofChain::from_genesis(key_info),
        our_members: OrderedMap::new(),
        neighbour_infos: OrderedMap::new(),
        their_keys: OrderedMap::new(),
        their_knowledge: OrderedMap::new(),
        their_recent_keys: Default::default(),
        churn_event_backlog: Default::default(),
    };
    state.update_with_genesis_info(other, &verify, &mut differing);
    assert_eq!(
        differing,
        vec![
            GenesisPart::HandledGenesisEvent,
            GenesisPart::OurInfos,
            GenesisPart::OurHistory,
            GenesisPart::OurMembers,
            GenesisPart::NeighbourInfos,
            GenesisPart::TheirKeys,
            GenesisPart::TheirKnowledge,
            GenesisPart::TheirRecentKeys,
            GenesisPart::ChurnEventBacklog
        ]
    );
    assert_eq!(text(state.our_prefix()), "1");
    assert!(!state.handled_genesis_event);
}

#[test]
fn comparing_states() {
    let never = |_: &BlsPublicKey, _: &BlsSignature, _: &Vec<u8>| false;
    let state = rich_state();
    assert!(state.eq(&rich_state(), &verify));
    // The history has to be valid.
    assert!(!state.eq(&rich_state(), &never));

    let changes: Vec<fn(&mut SharedState)> = vec![
        |s| s.handled_genesis_event = true,
        |s| s.new_info = gen_elders_info(prefix("0"), 3, 3),
        |s| s.our_infos.push(gen_elders_info(prefix("0"), 3, 3)),
        |s| s.our_members = OrderedMap::new(),
        |s| s.neighbour_infos = OrderedMap::new(),
        |s| s.change = PrefixChange::Merging,
        |s| {
            s.split_cache = Some((gen_elders_info(prefix("0"), 3, 3), AccumulatingProof::new()))
        },
        |s| s.merging.insert(Digest256([1; 32])),
        |s| s.our_history = s.our_history.slice_from(1),
        |s| s.their_keys = OrderedMap::new(),
        |s| s.their_knowledge = OrderedMap::new(),
        |s| s.their_recent_keys.clear(),
        |s| s.churn_event_backlog.clear(),
    ];
    for change in &changes {
        let mut other = rich_state();
        change(&mut other);
        assert!(!state.eq(&other, &verify));
        assert!(!other.eq(&state, &verify));
        let mut same = rich_state();
        change(&mut same);
        assert!(other.eq(&same, &verify));
    }

    let info = gen_elders_info(prefix("0"), 3, 3);
    let mut signed = rich_state();
    signed.split_cache = Some((info.duplicate(), proofs(&info)));
    let mut unsigned = rich_state();
    unsigned.split_cache = Some((info.duplicate(), AccumulatingProof::new()));
    assert!(!signed.eq(&unsigned, &verify));
}
