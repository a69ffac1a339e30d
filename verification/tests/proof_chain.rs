//! The history of a section's keys.

use routing::chain::accumulating::AccumulatingProof;
use routing::chain::bls_emu::{
    BlsPublicKey, BlsPublicKeySet, BlsPublicKeyShare, BlsSignature, BlsSignatureShare,
};
use routing::chain::elders_info::EldersInfo;
use routing::chain::non_empty_list::NonEmptyList;
use routing::chain::proof_chain::{SectionKeyInfo, SectionProofBlock, SectionProofChain};
use routing::id::{ConnectionInfo, P2pNode, PeerAddr, PublicId};
use routing::ordered_map::{OrderedMap, OrderedSet};
use routing::prefix::Prefix;
use routing::value::Value;
use routing::xor_name::{Digest256, XorName};

fn info(version: u64) -> EldersInfo {
    let mut members: OrderedMap<PublicId, P2pNode> = OrderedMap::new();
    let id = PublicId::new(XorName([version as u8; 32]));
    members.insert(
        id,
        P2pNode::new(
            id,
            ConnectionInfo {
                peer_addr: PeerAddr { is_v6: true, ip_high: 1, ip_low: 2, port: 0x0304 },
                peer_cert_der: vec![5, 6],
            },
        ),
    );
    let prefix = Prefix::from_bits(&vec![true, false]);
    EldersInfo::new(members, version, prefix, OrderedSet::new(), Digest256([version as u8; 32]))
}

fn key_info(version: u64) -> SectionKeyInfo {
    SectionKeyInfo::from_elders_info(&info(version))
}

fn signature(key: &BlsPublicKey, msg: &[u8]) -> BlsSignature {
    let mut bytes = msg.to_vec();
    for id in key.holders() {
        bytes.extend_from_slice(&id.name().0);
    }
    BlsSignature { bytes }
}

fn verify(key: &BlsPublicKey, sig: &BlsSignature, msg: &Vec<u8>) -> bool {
    *sig == signature(key, msg)
}

// The block for the info of one version, signed with the key of another.
fn block(version: u64, signer: u64) -> SectionProofBlock {
    let msg = key_info(version).serialise_for_signature().unwrap();
    let pk_set = BlsPublicKeySet { public_key: BlsPublicKey::from_elders_info(&info(signer)) };
    let combine = |set: &BlsPublicKeySet, _: &Vec<(BlsPublicKeyShare, BlsSignatureShare)>| {
        Some(signature(&set.public_key, &msg))
    };
    SectionProofBlock::from_elders_info_with_proofs(
        &info(version),
        AccumulatingProof::new(),
        &pk_set,
        combine,
    )
    .unwrap()
}

fn chain(len: u64) -> SectionProofChain {
    let mut chain = SectionProofChain::from_genesis(key_info(0));
    for version in 1..=len {
        chain.push(block(version, version - 1));
    }
    chain
}

fn versions(chain: &SectionProofChain) -> Vec<u64> {
    chain.all_key_infos().iter().map(|info| *info.version()).collect()
}

#[test]
fn chain_grows() {
    let chain = chain(3);
    assert_eq!(chain.blocks_len(), 3);
    assert_eq!(versions(&chain), vec![0, 1, 2, 3]);
    assert_eq!(*chain.last_public_key_info().version(), 3);
    assert!(chain.last_public_key().same(key_info(3).key()));
    assert!(chain.validate(&verify));
    let start = SectionProofChain::from_genesis(key_info(0));
    assert!(*start.last_public_key_info() == key_info(0));
    assert!(start.validate(&verify));
}

#[test]
fn wrong_signature_breaks_the_chain() {
    let mut broken = chain(2);
    broken.push(block(3, 1));
    assert!(!broken.validate(&verify));
    // Further blocks do not mend it.
    broken.push(block(4, 3));
    assert!(!broken.validate(&verify));
    // What is left after the wrong signature is fine.
    assert!(broken.slice_from(3).validate(&verify));
    assert!(!broken.slice_from(2).validate(&verify));
}

#[test]
fn block_is_checked_with_the_key_that_signed_it() {
    let block = block(2, 1);
    assert!(block.verify_with_pk(key_info(1).key(), &verify));
    assert!(!block.verify_with_pk(key_info(2).key(), &verify));
    assert!(*block.key_info() == key_info(2));
    assert!(block.key().same(key_info(2).key()));
}

#[test]
fn slices() {
    let whole = chain(3);
    assert_eq!(versions(&whole.slice_from(0)), vec![0, 1, 2, 3]);
    assert_eq!(versions(&whole.slice_from(1)), vec![1, 2, 3]);
    assert_eq!(versions(&whole.slice_from(2)), vec![2, 3]);
    assert_eq!(versions(&whole.slice_from(3)), vec![3]);
    // Beyond the end the last key is left.
    assert_eq!(versions(&whole.slice_from(4)), vec![3]);
    assert_eq!(versions(&whole.slice_from(usize::max_value())), vec![3]);
    for first_index in 0..5 {
        let slice = whole.slice_from(first_index);
        assert!(slice.validate(&verify));
        assert!(*slice.last_public_key_info() == key_info(3));
    }
    for first in 0..6 {
        for second in 0..6 {
            let twice = whole.slice_from(first).slice_from(second);
            assert!(twice.same(&whole.slice_from(first + second)));
        }
    }
    let start = SectionProofChain::from_genesis(key_info(0));
    assert_eq!(versions(&start.slice_from(7)), vec![0]);
}

#[test]
fn equality_needs_valid_chains() {
    assert!(chain(2).eq(&chain(2), &verify));
    assert!(!chain(2).eq(&chain(3), &verify));
    assert!(!chain(2).eq(&chain(2).slice_from(1), &verify));
    let never = |_: &BlsPublicKey, _: &BlsSignature, _: &Vec<u8>| false;
    assert!(!chain(2).eq(&chain(2), &never));

    // Signatures are not compared, but they have to be good.
    assert!(block(2, 1) == block(2, 0));
    assert!(!block(2, 1).same(&block(2, 0)));
    assert!(block(2, 1) != block(1, 1));
    let mut other = chain(1);
    other.push(block(2, 0));
    assert!(!chain(2).eq(&other, &verify));
    assert!(!other.eq(&chain(2), &verify));
    let always = |_: &BlsPublicKey, _: &BlsSignature, _: &Vec<u8>| true;
    assert!(chain(2).eq(&other, &always));
}

#[test]
fn signed_bytes() {
    let mut expected = vec![];
    expected.extend_from_slice(&[1, 0, 0, 0, 0, 0, 0, 0]); // one member
    expected.extend_from_slice(&[7; 32]); // its id
    expected.extend_from_slice(&[7; 32]);
    expected.push(1);
    expected.extend_from_slice(&[1, 0, 0, 0, 0, 0, 0, 0]);
    expected.extend_from_slice(&[2, 0, 0, 0, 0, 0, 0, 0]);
    expected.extend_from_slice(&[4, 3]);
    expected.extend_from_slice(&[2, 0, 0, 0, 0, 0, 0, 0, 5, 6]);
    expected.extend_from_slice(&[7, 0, 0, 0, 0, 0, 0, 0]); // the version
    expected.extend_from_slice(&[2, 0, 0, 0, 0, 0, 0, 0, 1, 0]); // the prefix
    expected.extend_from_slice(&[0; 8]); // no predecessors
    expected.extend_from_slice(&[7; 32]); // the hash
    assert_eq!(key_info(7).serialise_for_signature(), Some(expected));
}

#[test]
fn texts() {
    assert_eq!(
        key_info(120).fmt("Prefix(10)", "key"),
        "SectionKeyInfo { prefix: Prefix(10), version: 120, key: key }"
    );
    assert_eq!(block(1, 0).fmt("info"), "SectionProofBlock { key_info: info, sig: .. }");
    assert_eq!(
        key_info(0).fmt("", ""),
        "SectionKeyInfo { prefix: , version: 0, key:  }"
    );
}

#[test]
fn non_empty_list() {
    let mut list = NonEmptyList::new("a".to_string());
    assert_eq!(list.len(), 1);
    assert_eq!(list.fmt(), "[a]");
    list.push("b".to_string());
    list.push("cd".to_string());
    assert_eq!(list.len(), 3);
    assert_eq!(list.last(), "cd");
    assert_eq!(list.head().len(), 2);
    let items: Vec<&str> = list.iter().iter().map(|item| item.as_str()).collect();
    assert_eq!(items, vec!["a", "b", "cd"]);
    assert_eq!(list.fmt(), "[a, b, cd]");
    let numbers = NonEmptyList::from_parts(vec![1u64, 2], 3);
    assert!(numbers.same(&NonEmptyList::from_parts(vec![1, 2], 3)));
    assert!(!numbers.same(&NonEmptyList::from_parts(vec![1, 2], 4)));
    assert!(!numbers.same(&NonEmptyList::from_parts(vec![1], 3)));
    assert!(numbers == NonEmptyList::from_parts(vec![1, 2], 3));
    assert!(numbers != NonEmptyList::new(3));
}

#[test]
fn validity_of_a_longer_chain() {
    for signer in 0..3 {
        let mut longer = chain(2);
        let next = block(3, signer);
        let signed = next.verify_with_pk(longer.last_public_key(), &verify);
        assert_eq!(signed, signer == 2);
        longer.push(next);
        assert_eq!(longer.blocks_len(), 3);
        assert_eq!(longer.validate(&verify), signed);
    }
    let mut broken = chain(1);
    broken.push(block(2, 0));
    assert!(!broken.validate(&verify));
    broken.push(block(3, 2));
    assert!(!broken.validate(&verify));
}

#[test]
fn clones() {
    assert!(key_info(3).clone() == key_info(3));
    assert!(block(2, 1).clone().same(&block(2, 1)));
    assert!(chain(2).clone().same(&chain(2)));
    assert!(chain(2).slice_from(0).same(&chain(2)));
}
