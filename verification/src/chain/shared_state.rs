//! Section state that is shared among all elders of a section.

use std::collections::VecDeque;

use vstd::prelude::*;

use crate::chain::accumulating::{AccumulatingEvent, AccumulatingProof};
use crate::chain::bls_emu::{
    self, BlsPublicKey, BlsPublicKeySet, BlsPublicKeyShare, BlsSignature, BlsSignatureShare,
};
use crate::chain::elders_info::EldersInfo;
use crate::chain::genesis::{self, GenesisInfo, PlainGenesisInfo};
use crate::chain::member_info::{
    AgeCounter, MemberInfo, MemberInfoView, MemberPersona, MemberState, MIN_AGE_COUNTER,
};
use crate::chain::non_empty_list::NonEmptyList;
use crate::chain::proof_chain::{
    self, SectionKeyInfo, SectionKeyInfoView, SectionProofBlock, SectionProofChain,
};
use crate::chain::state_view::{self, SharedStateView};
use crate::encoding::{list_to_plain, queue_to_plain, Encoded};
use crate::error::RoutingError;
use crate::id::PublicId;
use crate::ordered_map::{self, OrderedMap, OrderedSet};
use crate::prefix::{self, Prefix};
use crate::prefix_map::{find_compatible, replace_and_split};
use crate::value::{self, same_queue, Value};
use crate::wire::{self, deserialise_genesis_info, serialise_genesis_info};
use crate::xor_name::Digest256;

verus! {

/// Number of recent keys we keep: i.e how many other section churns we can handle before a
/// message send with a previous version of a section is no longer trusted.
/// With low churn rate, a ad hoc 10 should be big enough to avoid losing messages.
pub const MAX_THEIR_RECENT_KEYS: usize = 10;

/// The prefix-affecting change (split or merge) to our own section that is currently in progress.
#[derive(Clone, Copy, Debug, PartialEq, Eq, Structural)]
pub enum PrefixChange {
    NoChange,
    Splitting,
    Merging,
}

/// Section state that is shared among all elders of a section via consensus.
pub struct SharedState {
    /// Indicate whether nodes are shared state because genesis event was seen
    pub handled_genesis_event: bool,
    /// The new self elders info, that doesn't necessarily have a full set of signatures yet.
    pub new_info: EldersInfo,
    /// The latest few fully signed infos of our own sections, in the sequence of pushes.
    pub our_infos: NonEmptyList<EldersInfo>,
    /// Info about all members of our section - elders, adults and infants.
    pub our_members: OrderedMap<PublicId, MemberInfo>,
    /// Maps our neighbours' prefixes to their latest signed elders infos.
    /// Note that after a split, the neighbour's latest section info could be the one from the
    /// pre-split parent section, so the value's prefix doesn't always match the key.
    pub neighbour_infos: OrderedMap<Prefix, EldersInfo>,
    /// Any change (split or merge) to the section that is currently in progress.
    pub change: PrefixChange,
    /// The accumulated `EldersInfo`(self or sibling) and proofs during a split pfx change.
    pub split_cache: Option<(EldersInfo, AccumulatingProof)>,
    /// The set of section info hashes that are currently merging.
    pub merging: OrderedSet<Digest256>,
    /// Our section's key history for Secure Message Delivery
    pub our_history: SectionProofChain,
    /// BLS public keys of other sections
    pub their_keys: OrderedMap<Prefix, SectionKeyInfo>,
    /// Other sections' knowledge of us
    pub their_knowledge: OrderedMap<Prefix, u64>,
    /// Recent keys removed from their_keys
    pub their_recent_keys: VecDeque<(Prefix, SectionKeyInfo)>,
    /// Backlog of completed events that need to be processed when churn completes.
    pub churn_event_backlog: VecDeque<AccumulatingEvent>,
}

impl View for SharedState {
    type V = SharedStateView;

    open spec fn view(&self) -> SharedStateView {
        SharedStateView {
            handled_genesis_event: self.handled_genesis_event,
            new_info: self.new_info@,
            our_infos: value::views(self.our_infos@),
            our_members: self.our_members@,
            neighbour_infos: self.neighbour_infos@,
            change: self.change,
            split_cache: match self.split_cache {
                Some(cache) => Some((cache.0@, cache.1@)),
                None => None,
            },
            merging: self.merging@,
            our_history: self.our_history@,
            their_keys: self.their_keys@,
            their_knowledge: self.their_knowledge@,
            their_recent_keys: value::views(self.their_recent_keys@),
            churn_event_backlog: value::views(self.churn_event_backlog@),
        }
    }
}

/// A part of the shared state that the genesis info is compared with.
#[derive(Clone, Copy, Debug, PartialEq, Eq, Structural)]
pub enum GenesisPart {
    HandledGenesisEvent,
    OurInfos,
    OurHistory,
    OurMembers,
    NeighbourInfos,
    TheirKeys,
    TheirKnowledge,
    TheirRecentKeys,
    ChurnEventBacklog,
}

impl SharedState {
    /// The state of a section that has just come up with the given elders, of the given ages.
    pub fn new(elders_info: EldersInfo, ages: OrderedMap<PublicId, AgeCounter>) -> (r: Self)
        ensures
            r@ == state_view::initial_state(elders_info@, ages@),
    {
        let pk_info = SectionKeyInfo::from_elders_info(&elders_info);
        let our_history = SectionProofChain::from_genesis(pk_info);
        let their_key_info = our_history.last_public_key_info();
        let mut their_keys: OrderedMap<Prefix, SectionKeyInfo> = OrderedMap::new();
        their_keys.insert(their_key_info.prefix().duplicate(), their_key_info.duplicate());

        let mut our_members: OrderedMap<PublicId, MemberInfo> = OrderedMap::new();
        let nodes = elders_info.member_nodes();
        let ghost node_views = elders_info@.member_nodes();
        let ghost list = state_view::initial_member_list(elders_info@, ages@);
        for i in 0..nodes.len()
            invariant
                nodes@.len() == node_views.len(),
                forall|j: int| 0 <= j < nodes@.len() ==> (#[trigger] nodes@[j])@ == node_views[j],
                node_views == elders_info@.member_nodes(),
                list == state_view::initial_member_list(elders_info@, ages@),
                our_members@ == ordered_map::map_of(list.take(i as int)),
        {
            let p2p_node = nodes[i];
            let age_counter = match ages.get(p2p_node.public_id()) {
                Some(age_counter) => *age_counter,
                None => AgeCounter(MIN_AGE_COUNTER),
            };
            let info = MemberInfo {
                age_counter,
                state: MemberState::Joined,
                connection_info: p2p_node.connection_info().duplicate(),
            };
            proof {
                assert(list.take(i + 1).drop_last() =~= list.take(i as int));
                assert(list.take(i + 1).last() == list[i as int]);
                assert(list[i as int] == (p2p_node@.public_id, info@));
            }
            our_members.insert(*p2p_node.public_id(), info);
        }
        assert(list.take(nodes@.len() as int) =~= list);

        let r = SharedState {
            handled_genesis_event: false,
            new_info: elders_info.duplicate(),
            our_infos: NonEmptyList::new(elders_info),
            neighbour_infos: OrderedMap::new(),
            our_members,
            change: PrefixChange::NoChange,
            split_cache: None,
            merging: OrderedSet::new(),
            our_history,
            their_keys,
            their_knowledge: OrderedMap::new(),
            their_recent_keys: VecDeque::new(),
            churn_event_backlog: VecDeque::new(),
        };
        assert(r@ =~= state_view::initial_state(elders_info@, ages@));
        r
    }

    /// The parts in which a node with a history before genesis differs from the genesis info.
    fn genesis_differences<F: Fn(&BlsPublicKey, &BlsSignature, &Vec<u8>) -> bool>(
        &self,
        info: &GenesisInfo,
        verify: &F,
    ) -> (r: Vec<GenesisPart>)
        requires
            bls_emu::checkable(*verify),
        ensures
            state_view::genesis_report(self@.genesis_info(), info@, *verify, r@),
    {
        let mut differing: Vec<GenesisPart> = Vec::new();
        if self.our_infos.head().len() == 0 {
            return differing;
        }
        let same_history = self.our_history.eq(&info.our_history, verify);
        let ghost parts = state_view::differing_parts(self@.genesis_info(), info@, same_history);
        update_with_genesis_related_info_check_same(
            GenesisPart::OurInfos,
            self.our_infos.same(&info.our_infos),
            &mut differing,
        );
        assert(differing@ =~= state_view::part_unless(
            GenesisPart::OurInfos,
            self@.our_infos == info@.our_infos,
        ));
        update_with_genesis_related_info_check_same(
            GenesisPart::OurHistory,
            same_history,
            &mut differing,
        );
        update_with_genesis_related_info_check_same(
            GenesisPart::OurMembers,
            self.our_members.same(&info.our_members),
            &mut differing,
        );
        update_with_genesis_related_info_check_same(
            GenesisPart::NeighbourInfos,
            self.neighbour_infos.same(&info.neighbour_infos),
            &mut differing,
        );
        update_with_genesis_related_info_check_same(
            GenesisPart::TheirKeys,
            self.their_keys.same(&info.their_keys),
            &mut differing,
        );
        update_with_genesis_related_info_check_same(
            GenesisPart::TheirKnowledge,
            self.their_knowledge.same(&info.their_knowledge),
            &mut differing,
        );
        update_with_genesis_related_info_check_same(
            GenesisPart::TheirRecentKeys,
            same_queue(&self.their_recent_keys, &info.their_recent_keys),
            &mut differing,
        );
        update_with_genesis_related_info_check_same(
            GenesisPart::ChurnEventBacklog,
            same_queue(&self.churn_event_backlog, &info.churn_event_backlog),
            &mut differing,
        );
        assert(differing@ == parts);
        differing
    }

    /// Takes over a genesis info. The parts in which a node with a history before genesis differs
    /// from it are noted in `differing`. `verify` is the signature check.
    pub fn update_with_genesis_info<F: Fn(&BlsPublicKey, &BlsSignature, &Vec<u8>) -> bool>(
        &mut self,
        info: GenesisInfo,
        verify: &F,
        differing: &mut Vec<GenesisPart>,
    )
        requires
            bls_emu::checkable(*verify),
        ensures
            final(self)@ == old(self)@.with_genesis_info(info@),
            old(differing)@.is_prefix_of(final(differing)@),
            state_view::genesis_report(
                old(self)@.genesis_info(),
                info@,
                *verify,
                final(differing)@.skip(old(differing)@.len() as int),
            ),
    {
        let mut parts = self.genesis_differences(&info, verify);
        let ghost before = differing@;
        let ghost added = parts@;
        differing.append(&mut parts);
        assert(before =~= differing@.subrange(0, before.len() as int));
        assert(differing@.skip(before.len() as int) =~= added);
        self.our_infos = info.our_infos;
        self.our_history = info.our_history;
        self.our_members = info.our_members;
        self.neighbour_infos = info.neighbour_infos;
        self.their_keys = info.their_keys;
        self.their_knowledge = info.their_knowledge;
        self.their_recent_keys = info.their_recent_keys;
        self.churn_event_backlog = info.churn_event_backlog;
    }

    /// Handles the genesis event: marks it as handled and takes over the genesis info in the bytes,
    /// if there are any. What does not match is noted in `differing`. `verify` is the signature
    /// check.
    pub fn update_with_genesis_related_info<
        F: Fn(&BlsPublicKey, &BlsSignature, &Vec<u8>) -> bool,
    >(
        &mut self,
        related_info: &[u8],
        verify: &F,
        differing: &mut Vec<GenesisPart>,
    ) -> (r: Result<(), RoutingError>)
        requires
            bls_emu::checkable(*verify),
        ensures
            final(self)@ == old(self)@.after_genesis_event(related_info@),
            r == (if related_info@.len() > 0 && state_view::genesis_info_in(related_info@) is None {
                Err::<(), RoutingError>(RoutingError::SerialisationError)
            } else {
                Ok::<(), RoutingError>(())
            }),
            state_view::genesis_event_report(
                old(self)@,
                related_info@,
                *verify,
                old(differing)@,
                final(differing)@,
            ),
    {
        update_with_genesis_related_info_check_same(
            GenesisPart::HandledGenesisEvent,
            !self.handled_genesis_event,
            differing,
        );
        self.handled_genesis_event = true;

        if related_info.len() == 0 {
            return Ok(());
        }
        match deserialise_genesis_info(related_info) {
            Ok(plain) => {
                let info = GenesisInfo::from_plain(&plain);
                self.update_with_genesis_info(info, verify, differing);
                Ok(())
            },
            Err(_) => Err(RoutingError::SerialisationError),
        }
    }

    /// The bytes that bring a node without a history up to date.
    pub fn get_genesis_related_info(&self) -> (r: Result<Vec<u8>, RoutingError>)
        ensures
            r is Ok,
            r->Ok_0@ == wire::genesis_bytes(self@.genesis_info().encode()),
            r->Ok_0@.len() > 0,
            state_view::genesis_info_in(r->Ok_0@) == Some(self@.genesis_info()),
    {
        let head = self.our_infos.head();
        let last = self.our_infos.last();
        let ghost infos = self@.our_infos;
        assert(value::views(head@) =~= infos.drop_last());
        assert(last@ == infos.last());
        let plain: PlainGenesisInfo = (
            (list_to_plain(head), last.to_plain()),
            self.our_history.to_plain(),
            self.our_members.to_plain(),
            self.neighbour_infos.to_plain(),
            self.their_keys.to_plain(),
            self.their_knowledge.to_plain(),
            queue_to_plain(&self.their_recent_keys),
            queue_to_plain(&self.churn_event_backlog),
        );
        proof {
            assert forall|i: int| 0 <= i < infos.len() implies EldersInfo::representable(
                #[trigger] infos[i],
            ) by {
                if i < infos.len() - 1 {
                    assert(EldersInfo::representable(infos.drop_last()[i]));
                }
            }
            assert(plain.deep_view() == self@.genesis_info().encode());
            genesis::law_decode_encode_genesis_info(self@.genesis_info());
        }
        match serialise_genesis_info(&plain) {
            Ok(bytes) => Ok(bytes),
            Err(_) => Err(RoutingError::SerialisationError),
        }
    }

    /// Updates the entry in `their_keys` for `prefix` to the latest known key; if a split
    /// occurred in the meantime, the keys for sections covering the rest of the address space are
    /// initialised to the old key that was stored for their common ancestor
    /// NOTE: the function as it is currently is not merge-safe.
    pub fn update_their_keys(&mut self, key_info: &SectionKeyInfo)
        ensures
            final(self)@ == old(self)@.with_their_key(key_info@),
    {
        match find_compatible(&self.their_keys, key_info.prefix()) {
            Some((old_pfx, old_key_info)) => {
                if *old_key_info.version() >= *key_info.version() || old_pfx.is_extension_of(
                    key_info.prefix(),
                ) {
                    // Do not overwrite newer version or prefix extensions
                    return;
                }
                let ghost recent = value::views(self.their_recent_keys@);
                self.their_recent_keys.push_front((old_pfx.duplicate(), old_key_info.duplicate()));
                assert(value::views(self.their_recent_keys@) =~= seq![
                    (old_pfx@, old_key_info@),
                ] + recent);
                if self.their_recent_keys.len() > MAX_THEIR_RECENT_KEYS {
                    let ghost keys = self.their_recent_keys@;
                    let _ = self.their_recent_keys.pop_back();
                    assert(value::views(self.their_recent_keys@) =~= value::views(
                        keys,
                    ).drop_last());
                }
                assert(value::views(self.their_recent_keys@) == state_view::with_recent_key(
                    recent,
                    old_pfx@,
                    old_key_info@,
                ));
                assert(old_pfx@.is_prefix_of(key_info@.prefix())) by {
                    if key_info@.prefix().is_prefix_of(old_pfx@) {
                        assert(old_pfx@ =~= key_info@.prefix());
                    }
                }
                replace_and_split(
                    &mut self.their_keys,
                    &old_pfx,
                    &old_key_info,
                    key_info.prefix(),
                    key_info.duplicate(),
                );
            },
            None => {
                self.their_keys.insert(key_info.prefix().duplicate(), key_info.duplicate());
            },
        }
    }

    /// Updates the entry in `their_knowledge` for `prefix` to the `version`; if a split
    /// occurred in the meantime, the versions for sections covering the rest of the address space
    /// are initialised to the old version that was stored for their common ancestor
    /// NOTE: the function as it is currently is not merge-safe.
    pub fn update_their_knowledge(&mut self, prefix: Prefix, version: u64)
        ensures
            final(self)@ == old(self)@.with_their_knowledge(prefix@, version),
    {
        match find_compatible(&self.their_knowledge, &prefix) {
            Some((old_pfx, old_version)) => {
                if old_version >= version || old_pfx.is_extension_of(&prefix) {
                    // Do not overwrite newer version or prefix extensions
                    return;
                }
                assert(old_pfx@.is_prefix_of(prefix@)) by {
                    if prefix@.is_prefix_of(old_pfx@) {
                        assert(old_pfx@ =~= prefix@);
                    }
                }
                replace_and_split(
                    &mut self.their_knowledge,
                    &old_pfx,
                    &old_version,
                    &prefix,
                    version,
                );
            },
            None => {
                self.their_knowledge.insert(prefix, version);
            },
        }
    }

    /// Adds a new info of our own section, if `combine` makes a signature for it of the key set and
    /// the elders' signature shares.
    pub fn push_our_new_info<
        F: FnOnce(
            &BlsPublicKeySet,
            &Vec<(BlsPublicKeyShare, BlsSignatureShare)>,
        ) -> Option<BlsSignature>,
    >(
        &mut self,
        elders_info: EldersInfo,
        proofs: AccumulatingProof,
        pk_set: &BlsPublicKeySet,
        combine: F,
    ) -> (r: Result<(), RoutingError>)
        requires
            forall|shares: &Vec<(BlsPublicKeyShare, BlsSignatureShare)>|
                call_requires(combine, (pk_set, shares)),
        ensures
            exists|block: Option<SectionProofBlock>|
                {
                    &&& #[trigger] proof_chain::block_from_shares(
                        elders_info@,
                        proofs@,
                        pk_set,
                        combine,
                        block,
                    )
                    &&& match block {
                        Some(b) => r == Ok::<(), RoutingError>(()) && final(self)@ == old(
                            self,
                        )@.with_our_new_info(elders_info@, b@),
                        None => r == Err::<(), RoutingError>(RoutingError::InvalidNewSectionInfo)
                            && final(self)@ == old(self)@,
                    }
                },
    {
        match SectionProofBlock::from_elders_info_with_proofs(
            &elders_info,
            proofs,
            pk_set,
            combine,
        ) {
            Some(proof_block) => {
                self.push_our_proven_info(elders_info, proof_block);
                Ok(())
            },
            None => Err(RoutingError::InvalidNewSectionInfo),
        }
    }

    /// Adds a new info of our own section with the block that vouches for its key.
    pub fn push_our_proven_info(&mut self, elders_info: EldersInfo, proof_block: SectionProofBlock)
        ensures
            final(self)@ == old(self)@.with_our_new_info(elders_info@, proof_block@),
    {
        let ghost infos = self@.our_infos;
        self.our_history.push(proof_block);
        self.our_infos.push(elders_info);
        assert(self@.our_infos =~= infos.push(elders_info@));
        let key_info = self.our_history.last_public_key_info().duplicate();
        self.update_their_keys(&key_info);
    }

    /// Whether the states are equal. The histories are compared as chains are, with `verify` as the
    /// signature check.
    pub fn eq<F: Fn(&BlsPublicKey, &BlsSignature, &Vec<u8>) -> bool>(
        &self,
        other: &Self,
        verify: &F,
    ) -> (r: bool)
        requires
            bls_emu::checkable(*verify),
        ensures
            self@.eq_says(other@, *verify, r),
    {
        let same_else = self.same_but_history(other);
        same_else && self.our_history.eq(&other.our_history, verify)
    }

    /// Whether all but the histories of the states is the same.
    fn same_but_history(&self, other: &Self) -> (r: bool)
        ensures
            r == (SharedStateView { our_history: other@.our_history, ..self@ } == other@),
    {
        let same_split_cache = match (&self.split_cache, &other.split_cache) {
            (Some(a), Some(b)) => a.same(b),
            (None, None) => true,
            _ => false,
        };
        assert(same_split_cache == (self@.split_cache == other@.split_cache));
        self.handled_genesis_event == other.handled_genesis_event && self.new_info.same(
            &other.new_info,
        ) && self.our_infos.same(&other.our_infos) && self.our_members.same(&other.our_members)
            && self.neighbour_infos.same(&other.neighbour_infos) && self.change == other.change
            && same_split_cache && self.merging.same(&other.merging) && self.their_keys.same(
            &other.their_keys,
        ) && self.their_knowledge.same(&other.their_knowledge) && same_queue(
            &self.their_recent_keys,
            &other.their_recent_keys,
        ) && same_queue(&self.churn_event_backlog, &other.churn_event_backlog)
    }

    /// Our own section's infos, from the earliest to the current one.
    pub fn our_infos(&self) -> (r: Vec<&EldersInfo>)
        ensures
            r@.len() == self@.our_infos.len(),
            forall|i: int| 0 <= i < r@.len() ==> (#[trigger] r@[i])@ == self@.our_infos[i],
    {
        self.our_infos.iter()
    }

    /// Returns our own current section info.
    pub fn our_info(&self) -> (r: &EldersInfo)
        ensures
            r@ == self@.our_info(),
    {
        self.our_infos.last()
    }

    /// Our section's prefix.
    pub fn our_prefix(&self) -> (r: &Prefix)
        ensures
            r@ == self@.our_info().prefix,
    {
        self.our_info().prefix()
    }

    /// Our section's version.
    pub fn our_version(&self) -> (r: u64)
        ensures
            r == self@.our_info().version,
    {
        *self.our_info().version()
    }

    /// Returns our section info with the given hash, if it exists.
    pub fn our_info_by_hash(&self, hash: &Digest256) -> (r: Option<&EldersInfo>)
        ensures
            match r {
                Some(info) => exists|i: int|
                    {
                        &&& 0 <= i < self@.our_infos.len()
                        &&& info@ == #[trigger] self@.our_infos[i]
                        &&& info@.hash == hash@
                        &&& forall|j: int|
                            0 <= j < i ==> (#[trigger] self@.our_infos[j]).hash != hash@
                    },
                None => forall|i: int|
                    0 <= i < self@.our_infos.len() ==> (#[trigger] self@.our_infos[i]).hash
                        != hash@,
            },
    {
        let infos = self.our_infos();
        for i in 0..infos.len()
            invariant
                infos@.len() == self@.our_infos.len(),
                forall|j: int|
                    0 <= j < infos@.len() ==> (#[trigger] infos@[j])@ == self@.our_infos[j],
                forall|j: int| 0 <= j < i ==> (#[trigger] self@.our_infos[j]).hash != hash@,
        {
            let info = infos[i];
            assert(info@ == self@.our_infos[i as int]);
            if info.hash().same(hash) {
                return Some(info);
            }
        }
        None
    }

    /// Returns our member infos.
    pub fn our_members(&self) -> (r: &OrderedMap<PublicId, MemberInfo>)
        ensures
            r@ == self@.our_members,
    {
        &self.our_members
    }

    /// Returns the members that have state == `Joined`.
    pub fn our_joined_members(&self) -> (r: Vec<(&PublicId, &MemberInfo)>)
        ensures
            r@.len() == self@.joined_members().len(),
            forall|i: int|
                0 <= i < r@.len() ==> ((#[trigger] r@[i]).0@, r@[i].1@)
                    == self@.joined_members()[i],
    {
        let mut r: Vec<(&PublicId, &MemberInfo)> = Vec::new();
        let len = self.our_members.len();
        let ghost list = ordered_map::listing::<PublicId, MemberInfoView>(self.our_members@);
        let ghost joined = |member: (Seq<u8>, MemberInfoView)|
            member.1.state == MemberState::Joined;
        proof {
            reveal(Seq::filter);
        }
        for i in 0..len
            invariant
                list == ordered_map::listing::<PublicId, MemberInfoView>(self.our_members@),
                len == list.len(),
                joined == (|member: (Seq<u8>, MemberInfoView)|
                    member.1.state == MemberState::Joined),
                r@.len() == list.take(i as int).filter(joined).len(),
                forall|j: int|
                    0 <= j < r@.len() ==> ((#[trigger] r@[j]).0@, r@[j].1@) == list.take(
                        i as int,
                    ).filter(joined)[j],
        {
            let (id, member) = self.our_members.entry_at(i);
            proof {
                reveal(Seq::filter);
                assert(list.take(i + 1).drop_last() =~= list.take(i as int));
                assert(list.take(i + 1).last() == list[i as int]);
            }
            if member.state == MemberState::Joined {
                r.push((id, member));
            }
        }
        assert(list.take(len as int) =~= list);
        r
    }

    /// Returns the current persona corresponding to the given PublicId or `None` if such a member
    /// doesn't exist
    pub fn get_persona(&self, pub_id: &PublicId) -> (r: Option<MemberPersona>)
        ensures
            r == self@.persona(pub_id@),
    {
        if self.our_info().members().contains_key(pub_id) {
            Some(MemberPersona::Elder)
        } else {
            match self.our_members.get(pub_id) {
                Some(member) => if member.is_mature() {
                    Some(MemberPersona::Adult)
                } else {
                    Some(MemberPersona::Infant)
                },
                None => None,
            }
        }
    }

    /// Remove all entries from `our_members` whose name does not match `prefix`.
    pub fn remove_our_members_not_matching_prefix(&mut self, prefix: &Prefix)
        ensures
            final(self)@ == old(self)@.with_members_matching(prefix@),
    {
        let mut members: OrderedMap<PublicId, MemberInfo> = OrderedMap::new();
        let len = self.our_members.len();
        let ghost all = self.our_members@;
        let ghost list = ordered_map::listing::<PublicId, MemberInfoView>(all);
        proof {
            ordered_map::lemma_listing::<PublicId, MemberInfoView>(all);
        }
        for i in 0..len
            invariant
                all == self.our_members@,
                list == ordered_map::listing::<PublicId, MemberInfoView>(all),
                ordered_map::is_listing::<PublicId, MemberInfoView>(list, all),
                len == list.len(),
                forall|id: Seq<u8>| #[trigger]
                    members@.contains_key(id) ==> all.contains_pair(id, members@[id])
                        && prefix::covers(prefix@, id),
                forall|j: int|
                    0 <= j < i && prefix::covers(prefix@, (#[trigger] list[j]).0)
                        ==> members@.contains_key(list[j].0),
        {
            let (pub_id, member) = self.our_members.entry_at(i);
            if prefix.matches(pub_id.name()) {
                members.insert(*pub_id, member.duplicate());
            }
        }
        proof {
            assert forall|id: Seq<u8>|
                all.contains_key(id) && prefix::covers(prefix@, id) implies #[trigger]
            members@.contains_key(id) by {
                let j = choose|j: int| 0 <= j < list.len() && #[trigger] list[j].0 == id;
                assert(prefix::covers(prefix@, list[j].0));
            }
            assert(members@ =~= state_view::members_matching(all, prefix@));
        }
        self.our_members = members;
    }

    /// Returns `true` if our section has signalled for merging.
    pub fn is_self_merge_ready(&self) -> (r: bool)
        ensures
            r == self@.merging.contains(self@.our_info().hash),
    {
        self.merging.contains(self.our_info().hash())
    }

    /// Returns the next section info if both we and our sibling have signalled for merging. `merge`
    /// makes the info of the merged section of ours and the sibling's.
    pub fn try_merge<F: FnOnce(&EldersInfo, &EldersInfo) -> Result<EldersInfo, RoutingError>>(
        &mut self,
        merge: F,
    ) -> (r: Result<Option<EldersInfo>, RoutingError>)
        requires
            forall|ours: &EldersInfo, theirs: &EldersInfo| call_requires(merge, (ours, theirs)),
        ensures
            if old(self)@.both_merging() {
                exists|ours: &EldersInfo, theirs: &EldersInfo, merged|
                    {
                        &&& ours@ == old(self)@.our_info()
                        &&& theirs@ == old(self)@.neighbour_infos[prefix::sibling(
                            old(self)@.our_info().prefix,
                        )]
                        &&& #[trigger] call_ensures(merge, (ours, theirs), merged)
                        &&& old(self)@.merge_result(merged, r, final(self)@)
                    }
            } else {
                r == Ok::<Option<EldersInfo>, RoutingError>(None) && final(self)@ == old(self)@
            },
    {
        let their_info = match self.neighbour_infos.get(&self.our_prefix().sibling()) {
            Some(info) => info.duplicate(),
            None => return Ok(None),
        };
        let our_hash = *self.our_info().hash();
        let their_hash = *their_info.hash();

        if self.merging.contains(&their_hash) && self.merging.contains(&our_hash) {
            let merged = merge(self.our_info(), &their_info);
            let _ = self.merging.remove(&their_hash);
            let _ = self.merging.remove(&our_hash);
            match merged {
                Ok(info) => {
                    self.new_info = info.duplicate();
                    Ok(Some(info))
                },
                Err(error) => Err(error),
            }
        } else {
            Ok(None)
        }
    }

    /// Returns `true` if we should merge.
    pub fn should_vote_for_merge(
        &self,
        min_section_size: usize,
        neighbour_infos: &Vec<&EldersInfo>,
    ) -> (r: bool)
        ensures
            r == self@.should_merge(
                min_section_size as int,
                Seq::new(neighbour_infos@.len(), |i: int| neighbour_infos@[i]@),
            ),
    {
        let ghost neighbours = Seq::new(neighbour_infos@.len(), |i: int| neighbour_infos@[i]@);
        let pfx = self.our_prefix();
        if pfx.is_empty() || self.change == PrefixChange::Splitting {
            return false;
        }
        if self.our_info().members().len() < min_section_size {
            return true;
        }
        for i in 0..neighbour_infos.len()
            invariant
                pfx@ == self@.our_info().prefix,
                pfx@.len() > 0,
                self.change != PrefixChange::Splitting,
                neighbours == Seq::new(neighbour_infos@.len(), |i: int| neighbour_infos@[i]@),
                forall|j: int|
                    0 <= j < i ==> !self@.needs_merge(
                        min_section_size as int,
                        #[trigger] neighbours[j],
                    ),
        {
            let info = neighbour_infos[i];
            assert(info@ == neighbours[i as int]);
            if pfx.is_compatible(&info.prefix().sibling()) && (info.members().len()
                < min_section_size || self.merging.contains(info.hash())) {
                return true;
            }
        }
        false
    }

    /// Returns their_keys and any recent keys we still hold.
    pub fn get_their_keys_info(&self) -> (r: Vec<(&Prefix, &SectionKeyInfo)>)
        ensures
            r@.len() == self@.their_keys_info().len(),
            forall|i: int|
                0 <= i < r@.len() ==> ((#[trigger] r@[i]).0@, r@[i].1@)
                    == self@.their_keys_info()[i],
    {
        let mut r: Vec<(&Prefix, &SectionKeyInfo)> = Vec::new();
        let len = self.their_keys.len();
        let ghost all = self@.their_keys_info();
        for i in 0..len
            invariant
                all == self@.their_keys_info(),
                len == ordered_map::listing::<Prefix, SectionKeyInfoView>(self.their_keys@).len(),
                r@.len() == i,
                forall|j: int| 0 <= j < i ==> ((#[trigger] r@[j]).0@, r@[j].1@) == all[j],
        {
            let (pfx, key_info) = self.their_keys.entry_at(i);
            r.push((pfx, key_info));
        }
        for i in 0..self.their_recent_keys.len()
            invariant
                all == self@.their_keys_info(),
                len == ordered_map::listing::<Prefix, SectionKeyInfoView>(self.their_keys@).len(),
                r@.len() == len + i,
                forall|j: int| 0 <= j < len + i ==> ((#[trigger] r@[j]).0@, r@[j].1@) == all[j],
        {
            let entry = &self.their_recent_keys[i];
            assert(entry@ == self@.their_recent_keys[i as int]);
            r.push((&entry.0, &entry.1));
        }
        r
    }

    /// Returns their_knowledge
    pub fn get_their_knowledge(&self) -> (r: &OrderedMap<Prefix, u64>)
        ensures
            r@ == self@.their_knowledge,
    {
        &self.their_knowledge
    }
}

/// Notes the part in `differing` unless it is the same on both sides.
fn update_with_genesis_related_info_check_same(
    part: GenesisPart,
    same: bool,
    differing: &mut Vec<GenesisPart>,
)
    ensures
        final(differing)@ == old(differing)@ + state_view::part_unless(part, same),
{
    if !same {
        differing.push(part);
    }
    assert(differing@ =~= old(differing)@ + state_view::part_unless(part, same));
}

} // verus!
