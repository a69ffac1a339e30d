//! The shared state as a mathematical value, and what its operations make of it.

use vstd::prelude::*;

use crate::chain::accumulating::EventSigPayloadView;
use crate::chain::bls_emu::{BlsPublicKey, BlsSignature};
use crate::chain::elders_info::{EldersInfo, EldersInfoView};
use crate::chain::genesis::GenesisInfoView;
use crate::chain::member_info::{
    AgeCounter, MemberInfoView, MemberPersona, MemberState, MIN_AGE_COUNTER,
};
use crate::chain::proof_chain::{
    self, SectionKeyInfoView, SectionProofBlockView, SectionProofChainView,
};
use crate::chain::shared_state::{GenesisPart, PrefixChange, MAX_THEIR_RECENT_KEYS};
use crate::error::RoutingError;
use crate::id::{P2pNodeView, PublicId};
use crate::ordered_map;
use crate::prefix::{self, Prefix};
use crate::prefix_map;
use crate::wire;

verus! {

/// What the shared state is made of.
#[verifier::ext_equal]
pub struct SharedStateView {
    pub handled_genesis_event: bool,
    pub new_info: EldersInfoView,
    pub our_infos: Seq<EldersInfoView>,
    pub our_members: Map<Seq<u8>, MemberInfoView>,
    pub neighbour_infos: Map<Seq<bool>, EldersInfoView>,
    pub change: PrefixChange,
    pub split_cache: Option<(EldersInfoView, Map<Seq<u8>, EventSigPayloadView>)>,
    pub merging: Set<Seq<u8>>,
    pub our_history: SectionProofChainView,
    pub their_keys: Map<Seq<bool>, SectionKeyInfoView>,
    pub their_knowledge: Map<Seq<bool>, u64>,
    pub their_recent_keys: Seq<(Seq<bool>, SectionKeyInfoView)>,
    pub churn_event_backlog: Seq<Seq<u8>>,
}

/// The member info of an elder of a new section: it has joined, at the given age or else at the
/// minimum.
pub open spec fn initial_member(
    node: P2pNodeView,
    ages: Map<Seq<u8>, AgeCounter>,
) -> MemberInfoView {
    MemberInfoView {
        age_counter: if ages.contains_key(node.public_id) {
            ages[node.public_id]
        } else {
            AgeCounter(MIN_AGE_COUNTER)
        },
        state: MemberState::Joined,
        connection_info: node.connection_info,
    }
}

/// The elders of a new section with their member infos.
pub open spec fn initial_member_list(
    info: EldersInfoView,
    ages: Map<Seq<u8>, AgeCounter>,
) -> Seq<(Seq<u8>, MemberInfoView)> {
    let nodes = info.member_nodes();
    Seq::new(nodes.len(), |i: int| (nodes[i].public_id, initial_member(nodes[i], ages)))
}

/// The members of a new section: its elders.
pub open spec fn initial_members(
    info: EldersInfoView,
    ages: Map<Seq<u8>, AgeCounter>,
) -> Map<Seq<u8>, MemberInfoView> {
    ordered_map::map_of(initial_member_list(info, ages))
}

/// The state of a section that has just come up with the given elders.
pub open spec fn initial_state(
    info: EldersInfoView,
    ages: Map<Seq<u8>, AgeCounter>,
) -> SharedStateView {
    let key_info = proof_chain::key_info_of(info);
    SharedStateView {
        handled_genesis_event: false,
        new_info: info,
        our_infos: seq![info],
        our_members: initial_members(info, ages),
        neighbour_infos: Map::empty(),
        change: PrefixChange::NoChange,
        split_cache: None,
        merging: Set::empty(),
        our_history: SectionProofChainView {
            genesis_key_info: key_info,
            blocks: Seq::empty(),
        },
        their_keys: Map::empty().insert(info.prefix, key_info),
        their_knowledge: Map::empty(),
        their_recent_keys: Seq::empty(),
        churn_event_backlog: Seq::empty(),
    }
}

/// The genesis info that the bytes hold, if they hold one.
pub open spec fn genesis_info_in(related_info: Seq<u8>) -> Option<GenesisInfoView> {
    match wire::genesis_decoded(related_info) {
        Some(plain) => Some(GenesisInfoView::decode(plain)),
        None => None,
    }
}

/// The report of one comparison: the part, unless it is the same on both sides.
pub open spec fn part_unless(part: GenesisPart, same: bool) -> Seq<GenesisPart> {
    if same {
        Seq::empty()
    } else {
        seq![part]
    }
}

/// The parts in which two genesis infos differ, given whether comparing the histories has found
/// them to be the same.
pub open spec fn differing_parts(
    ours: GenesisInfoView,
    theirs: GenesisInfoView,
    same_history: bool,
) -> Seq<GenesisPart> {
    part_unless(GenesisPart::OurInfos, ours.our_infos == theirs.our_infos)
        + part_unless(GenesisPart::OurHistory, same_history)
        + part_unless(GenesisPart::OurMembers, ours.our_members == theirs.our_members)
        + part_unless(GenesisPart::NeighbourInfos, ours.neighbour_infos == theirs.neighbour_infos)
        + part_unless(GenesisPart::TheirKeys, ours.their_keys == theirs.their_keys)
        + part_unless(GenesisPart::TheirKnowledge, ours.their_knowledge == theirs.their_knowledge)
        + part_unless(
        GenesisPart::TheirRecentKeys,
        ours.their_recent_keys == theirs.their_recent_keys,
    ) + part_unless(
        GenesisPart::ChurnEventBacklog,
        ours.churn_event_backlog == theirs.churn_event_backlog,
    )
}

/// `parts` is what is reported when a node takes over a genesis info: nothing if it has only one
/// info of its own section, else the parts in which what it has differs from the genesis info.
pub open spec fn genesis_report<F: Fn(&BlsPublicKey, &BlsSignature, &Vec<u8>) -> bool>(
    ours: GenesisInfoView,
    theirs: GenesisInfoView,
    verify: F,
    parts: Seq<GenesisPart>,
) -> bool {
    if ours.our_infos.len() == 1 {
        parts == Seq::<GenesisPart>::empty()
    } else {
        exists|same_history: bool|
            ours.our_history.eq_says(theirs.our_history, verify, same_history) && parts
                == #[trigger] differing_parts(ours, theirs, same_history)
    }
}

/// What handling a genesis event notes: whether one was handled before, and then the report on the
/// genesis info in the bytes, if there is one.
pub open spec fn genesis_event_report<F: Fn(&BlsPublicKey, &BlsSignature, &Vec<u8>) -> bool>(
    state: SharedStateView,
    related_info: Seq<u8>,
    verify: F,
    before: Seq<GenesisPart>,
    after: Seq<GenesisPart>,
) -> bool {
    let marked = before + part_unless(
        GenesisPart::HandledGenesisEvent,
        !state.handled_genesis_event,
    );
    if related_info.len() == 0 {
        after == marked
    } else {
        match genesis_info_in(related_info) {
            Some(info) => marked.is_prefix_of(after) && genesis_report(
                state.genesis_info(),
                info,
                verify,
                after.skip(marked.len() as int),
            ),
            None => after == marked,
        }
    }
}

/// The recent keys after one more was put in front: the oldest one goes if there are too many.
pub open spec fn with_recent_key(
    recent: Seq<(Seq<bool>, SectionKeyInfoView)>,
    old_pfx: Seq<bool>,
    old_key: SectionKeyInfoView,
) -> Seq<(Seq<bool>, SectionKeyInfoView)> {
    let keys = seq![(old_pfx, old_key)] + recent;
    if keys.len() > MAX_THEIR_RECENT_KEYS {
        keys.drop_last()
    } else {
        keys
    }
}

/// Keys that are not older than `key_info`.
pub open spec fn not_older(key_info: SectionKeyInfoView) -> spec_fn(SectionKeyInfoView) -> bool {
    |old_key: SectionKeyInfoView| old_key.version() >= key_info.version()
}

/// Versions that are not lower than `version`.
pub open spec fn at_least(version: u64) -> spec_fn(u64) -> bool {
    |old_version: u64| old_version >= version
}

/// The members whose names start with the prefix.
pub open spec fn members_matching(
    members: Map<Seq<u8>, MemberInfoView>,
    prefix: Seq<bool>,
) -> Map<Seq<u8>, MemberInfoView> {
    Map::new(
        |id: Seq<u8>| members.contains_key(id) && prefix::covers(prefix, id),
        |id: Seq<u8>| members[id],
    )
}

impl SharedStateView {
    /// What the state hands to nodes without a history.
    pub open spec fn genesis_info(self) -> GenesisInfoView {
        GenesisInfoView {
            our_infos: self.our_infos,
            our_history: self.our_history,
            our_members: self.our_members,
            neighbour_infos: self.neighbour_infos,
            their_keys: self.their_keys,
            their_knowledge: self.their_knowledge,
            their_recent_keys: self.their_recent_keys,
            churn_event_backlog: self.churn_event_backlog,
        }
    }

    /// The state with what another node has handed over.
    pub open spec fn with_genesis_info(self, info: GenesisInfoView) -> SharedStateView {
        SharedStateView {
            our_infos: info.our_infos,
            our_history: info.our_history,
            our_members: info.our_members,
            neighbour_infos: info.neighbour_infos,
            their_keys: info.their_keys,
            their_knowledge: info.their_knowledge,
            their_recent_keys: info.their_recent_keys,
            churn_event_backlog: info.churn_event_backlog,
            ..self
        }
    }

    /// The state after a genesis event with the given bytes: it is marked, and unless the bytes
    /// are empty or no genesis info, what they hold is taken over.
    pub open spec fn after_genesis_event(self, related_info: Seq<u8>) -> SharedStateView {
        let marked = SharedStateView { handled_genesis_event: true, ..self };
        if related_info.len() == 0 {
            marked
        } else {
            match genesis_info_in(related_info) {
                Some(info) => marked.with_genesis_info(info),
                None => marked,
            }
        }
    }

    /// The state after news of a section's key. The first known key of a compatible section stays
    /// if it is not older or belongs to a part of the section. Otherwise the new key replaces it,
    /// also for the parts of its section that the new one leaves over, where the old key stays, and
    /// the old key is remembered among the recent ones.
    pub open spec fn with_their_key(self, key_info: SectionKeyInfoView) -> SharedStateView {
        let p = key_info.prefix();
        let first = prefix_map::first_compatible(self.their_keys, p);
        SharedStateView {
            their_keys: prefix_map::updated(self.their_keys, p, key_info, not_older(key_info)),
            their_recent_keys: if first is Some && prefix_map::takes_over(
                self.their_keys,
                p,
                not_older(key_info),
            ) {
                with_recent_key(self.their_recent_keys, first->0, self.their_keys[first->0])
            } else {
                self.their_recent_keys
            },
            ..self
        }
    }

    /// The state after news of what a section knows of us.
    pub open spec fn with_their_knowledge(
        self,
        prefix: Seq<bool>,
        version: u64,
    ) -> SharedStateView {
        SharedStateView {
            their_knowledge: prefix_map::updated(
                self.their_knowledge,
                prefix,
                version,
                at_least(version),
            ),
            ..self
        }
    }

    /// The state with a new info of our own section and the block that vouches for its key.
    pub open spec fn with_our_new_info(
        self,
        info: EldersInfoView,
        block: SectionProofBlockView,
    ) -> SharedStateView {
        SharedStateView {
            our_history: self.our_history.pushed(block),
            our_infos: self.our_infos.push(info),
            ..self
        }.with_their_key(block.key_info)
    }

    /// Comparing the states can give `answer`: they are equal if the histories are found to be
    /// equal and all else is the same.
    pub open spec fn eq_says<F: Fn(&BlsPublicKey, &BlsSignature, &Vec<u8>) -> bool>(
        self,
        other: SharedStateView,
        verify: F,
        answer: bool,
    ) -> bool {
        let same_else = SharedStateView { our_history: other.our_history, ..self } == other;
        if answer {
            same_else && self.our_history.eq_says(other.our_history, verify, true)
        } else {
            !same_else || self.our_history.eq_says(other.our_history, verify, false)
        }
    }

    /// Our own current section info.
    pub open spec fn our_info(self) -> EldersInfoView {
        self.our_infos.last()
    }

    /// The persona of the node: elders are elders whatever else is known of them, other members
    /// are adults or infants according to their age.
    pub open spec fn persona(self, id: Seq<u8>) -> Option<MemberPersona> {
        if self.our_info().members.contains_key(id) {
            Some(MemberPersona::Elder)
        } else if !self.our_members.contains_key(id) {
            None
        } else if self.our_members[id].is_mature() {
            Some(MemberPersona::Adult)
        } else {
            Some(MemberPersona::Infant)
        }
    }

    /// The members that have joined, in ascending order of their ids.
    pub open spec fn joined_members(self) -> Seq<(Seq<u8>, MemberInfoView)> {
        ordered_map::listing::<PublicId, MemberInfoView>(self.our_members).filter(
            |member: (Seq<u8>, MemberInfoView)| member.1.state == MemberState::Joined,
        )
    }

    /// The state without the members whose names do not start with the prefix.
    pub open spec fn with_members_matching(self, prefix: Seq<bool>) -> SharedStateView {
        SharedStateView {
            our_members: members_matching(self.our_members, prefix),
            ..self
        }
    }

    /// Both our section and the section next to it have signalled for merging.
    pub open spec fn both_merging(self) -> bool {
        let sibling = prefix::sibling(self.our_info().prefix);
        &&& self.neighbour_infos.contains_key(sibling)
        &&& self.merging.contains(self.neighbour_infos[sibling].hash)
        &&& self.merging.contains(self.our_info().hash)
    }

    /// The signals for merging without those of our section and the section next to it.
    pub open spec fn merging_done(self) -> Set<Seq<u8>> {
        let sibling = prefix::sibling(self.our_info().prefix);
        self.merging.remove(self.neighbour_infos[sibling].hash).remove(self.our_info().hash)
    }

    /// The section with the given info would merge into ours or into a part of what ours merges
    /// into, and it has too few elders or has signalled for merging.
    pub open spec fn needs_merge(self, min_section_size: int, info: EldersInfoView) -> bool {
        &&& prefix::compatible(self.our_info().prefix, prefix::sibling(info.prefix))
        &&& info.members.dom().len() < min_section_size || self.merging.contains(info.hash)
    }

    /// Our section should merge: it is not the only one and is not splitting, and it has too few
    /// elders, or a section that would have to merge with it needs to.
    pub open spec fn should_merge(
        self,
        min_section_size: int,
        neighbours: Seq<EldersInfoView>,
    ) -> bool {
        &&& self.our_info().prefix.len() > 0
        &&& self.change != PrefixChange::Splitting
        &&& {
            ||| self.our_info().members.dom().len() < min_section_size
            ||| exists|i: int|
                0 <= i < neighbours.len() && self.needs_merge(
                    min_section_size,
                    #[trigger] neighbours[i],
                )
        }
    }

    /// The keys of other sections in the order of their prefixes, then the recent keys, the latest
    /// first.
    pub open spec fn their_keys_info(self) -> Seq<(Seq<bool>, SectionKeyInfoView)> {
        ordered_map::listing::<Prefix, SectionKeyInfoView>(self.their_keys)
            + self.their_recent_keys
    }

    /// What comes of a merge that gave `merged`: both signals are used up, and if there is an info
    /// of the merged section, it is the new one and is returned; else the error is.
    pub open spec fn merge_result(
        self,
        merged: Result<EldersInfo, RoutingError>,
        r: Result<Option<EldersInfo>, RoutingError>,
        after: SharedStateView,
    ) -> bool {
        match merged {
            Ok(info) => {
                &&& r matches Ok(Some(i)) && i@ == info@
                &&& after == SharedStateView {
                    merging: self.merging_done(),
                    new_info: info@,
                    ..self
                }
            },
            Err(error) => {
                &&& r == Err::<Option<EldersInfo>, RoutingError>(error)
                &&& after == SharedStateView { merging: self.merging_done(), ..self }
            },
        }
    }
}

} // verus!
