//! What the shared state tells of our section: its members, its infos, merges and the genesis
//! event.

use vstd::prelude::*;

use crate::chain::bls_emu::{BlsPublicKey, BlsSignature};
use crate::chain::elders_info::{EldersInfo, EldersInfoView};
use crate::chain::genesis::GenesisInfoView;
use crate::chain::laws;
use crate::chain::member_info::{
    AgeCounter, MemberInfoView, MemberPersona, MemberState, MIN_AGE_COUNTER,
};
use crate::chain::proof_chain::{SectionKeyInfoView, SectionProofBlockView};
use crate::chain::shared_state::{GenesisPart, PrefixChange, SharedState};
use crate::chain::state_view::{self, SharedStateView};
use crate::error::RoutingError;
use crate::id::PublicId;
use crate::ordered_map::{self, OrderedKey};
use crate::prefix::{self, Prefix};
use crate::xor_name::{self, Digest256};

verus! {

/// The members of a new section are its elders and no others. Each has joined and is reached as the
/// elder is; its age is the given one, or the minimum if none is given.
pub proof fn law_members_of_new_section(
    info: EldersInfoView,
    ages: Map<Seq<u8>, AgeCounter>,
    id: Seq<u8>,
)
    requires
        info.members.dom().finite(),
        info.well_keyed(),
    ensures
        ({
            let members = state_view::initial_state(info, ages).our_members;
            &&& members.contains_key(id) <==> info.members.contains_key(id)
            &&& info.members.contains_key(id) ==> {
                &&& members[id].state == MemberState::Joined
                &&& members[id].connection_info == info.members[id].connection_info
                &&& ages.contains_key(id) ==> members[id].age_counter == ages[id]
                &&& !ages.contains_key(id) ==> members[id].age_counter == AgeCounter(
                    MIN_AGE_COUNTER,
                )
            }
        }),
{
    laws::law_new_state_has_elders_as_members(info, ages);
}

/// A new section has its elders' info as the only one, its key as the only one of its history and
/// of the keys that are known, and nothing else.
pub proof fn law_new_section_knows_only_itself(
    info: EldersInfoView,
    ages: Map<Seq<u8>, AgeCounter>,
    p: Seq<bool>,
    id: Seq<u8>,
)
    requires
        info.members.dom().finite(),
    ensures
        ({
            let s = state_view::initial_state(info, ages);
            &&& !s.handled_genesis_event
            &&& s.new_info == info
            &&& s.our_infos.len() == 1
            &&& s.our_infos[0] == info
            &&& s.change == PrefixChange::NoChange
            &&& s.split_cache is None
            &&& s.our_history.blocks.len() == 0
            &&& s.our_history.genesis_key_info.elders_info == info
            &&& s.our_history.genesis_key_info.key.contains(id) <==> info.members.contains_key(id)
            &&& s.their_keys.contains_key(p) <==> p == info.prefix
            &&& s.their_keys[info.prefix] == s.our_history.genesis_key_info
            &&& !s.neighbour_infos.contains_key(p)
            &&& !s.their_knowledge.contains_key(p)
            &&& !s.merging.contains(id)
            &&& s.their_recent_keys.len() == 0
            &&& s.churn_event_backlog.len() == 0
        }),
{
    crate::chain::elders_info::law_members_in_ascending_order(info);
    assert(info.member_ids().to_set().contains(id) == info.members.dom().contains(id));
}

/// A node is an elder exactly if it is one of the info that was pushed last, whatever it was
/// before.
pub proof fn law_elders_are_those_of_the_last_info(
    s: SharedStateView,
    info: EldersInfoView,
    block: SectionProofBlockView,
    id: Seq<u8>,
)
    ensures
        s.with_our_new_info(info, block).persona(id) == Some(MemberPersona::Elder)
            <==> info.members.contains_key(id),
        s.persona(id) == Some(MemberPersona::Elder) <==> s.our_infos[s.our_infos.len()
            - 1].members.contains_key(id),
{
    assert(s.with_our_new_info(info, block).our_infos == s.our_infos.push(info));
}

/// A member that is no elder is an infant if it is not older than the minimum, and an adult if it
/// is. A node that is neither an elder nor a member has no persona.
pub proof fn law_personas_of_others(s: SharedStateView, id: Seq<u8>)
    requires
        !s.our_infos[s.our_infos.len() - 1].members.contains_key(id),
    ensures
        s.our_members.contains_key(id) && s.our_members[id].age_counter.0 <= MIN_AGE_COUNTER
            ==> s.persona(id) == Some(MemberPersona::Infant),
        s.our_members.contains_key(id) && s.our_members[id].age_counter.0 > MIN_AGE_COUNTER
            ==> s.persona(id) == Some(MemberPersona::Adult),
        !s.our_members.contains_key(id) ==> s.persona(id) is None,
{
}

/// The current info is the one that was pushed last; pushing an info keeps those before it and the
/// history before its key, and changes nothing else but the keys of other sections.
pub proof fn law_new_info_is_appended(
    s: SharedStateView,
    info: EldersInfoView,
    block: SectionProofBlockView,
)
    ensures
        ({
            let after = s.with_our_new_info(info, block);
            let n = s.our_infos.len() as int;
            let m = s.our_history.blocks.len() as int;
            &&& after.our_info() == info
            &&& n > 0 ==> s.our_info() == s.our_infos[n - 1]
            &&& after.our_infos.len() == n + 1
            &&& after.our_infos[n] == info
            &&& forall|i: int| 0 <= i < n ==> #[trigger] after.our_infos[i] == s.our_infos[i]
            &&& after.our_history.genesis_key_info == s.our_history.genesis_key_info
            &&& after.our_history.blocks.len() == m + 1
            &&& after.our_history.blocks[m] == block
            &&& forall|i: int|
                0 <= i < m ==> #[trigger] after.our_history.blocks[i] == s.our_history.blocks[i]
            &&& after.their_keys == s.with_their_key(block.key_info).their_keys
            &&& after.their_recent_keys == s.with_their_key(block.key_info).their_recent_keys
            &&& after.handled_genesis_event == s.handled_genesis_event
            &&& after.new_info == s.new_info
            &&& after.our_members == s.our_members
            &&& after.neighbour_infos == s.neighbour_infos
            &&& after.change == s.change
            &&& after.split_cache == s.split_cache
            &&& after.merging == s.merging
            &&& after.their_knowledge == s.their_knowledge
            &&& after.churn_event_backlog == s.churn_event_backlog
        }),
{
}

proof fn lemma_filter_contains<T>(s: Seq<T>, keep: spec_fn(T) -> bool, x: T)
    ensures
        s.filter(keep).contains(x) <==> s.contains(x) && keep(x),
    decreases s.len(),
{
    reveal(Seq::filter);
    if s.len() > 0 {
        let rest = s.drop_last();
        lemma_filter_contains(rest, keep, x);
        let f = rest.filter(keep);
        if s.contains(x) {
            let i = choose|i: int| 0 <= i < s.len() && s[i] == x;
            if i < rest.len() {
                assert(rest[i] == x);
            }
        }
        if rest.contains(x) {
            let i = choose|i: int| 0 <= i < rest.len() && rest[i] == x;
            assert(s[i] == x);
        }
        assert(s[s.len() - 1] == s.last());
        if keep(s.last()) {
            let g = f.push(s.last());
            assert(s.filter(keep) =~= g);
            assert(g[f.len() as int] == s.last());
            if f.contains(x) {
                let i = choose|i: int| 0 <= i < f.len() && f[i] == x;
                assert(g[i] == x);
            }
            if g.contains(x) && x != s.last() {
                let i = choose|i: int| 0 <= i < g.len() && g[i] == x;
                assert(f[i] == x);
            }
        }
    }
}

/// Where every item comes before the later ones, so it does among those that are kept.
proof fn lemma_filter_ascending(
    s: Seq<(Seq<u8>, MemberInfoView)>,
    keep: spec_fn((Seq<u8>, MemberInfoView)) -> bool,
)
    requires
        forall|i: int, j: int|
            0 <= i < j < s.len() ==> xor_name::bytes_before(
                #[trigger] s[i].0,
                #[trigger] s[j].0,
            ),
    ensures
        forall|i: int, j: int|
            0 <= i < j < s.filter(keep).len() ==> xor_name::bytes_before(
                #[trigger] s.filter(keep)[i].0,
                #[trigger] s.filter(keep)[j].0,
            ),
    decreases s.len(),
{
    reveal(Seq::filter);
    if s.len() > 0 {
        let rest = s.drop_last();
        assert forall|i: int, j: int| 0 <= i < j < rest.len() implies xor_name::bytes_before(
            #[trigger] rest[i].0,
            #[trigger] rest[j].0,
        ) by {
            assert(xor_name::bytes_before(s[i].0, s[j].0));
        }
        lemma_filter_ascending(rest, keep);
        let f = rest.filter(keep);
        if keep(s.last()) {
            let g = f.push(s.last());
            assert(s.filter(keep) =~= g);
            assert forall|i: int, j: int| 0 <= i < j < g.len() implies xor_name::bytes_before(
                #[trigger] g[i].0,
                #[trigger] g[j].0,
            ) by {
                if j == f.len() {
                    assert(f.contains(f[i]));
                    lemma_filter_contains(rest, keep, f[i]);
                    let k = choose|k: int| 0 <= k < rest.len() && rest[k] == f[i];
                    assert(xor_name::bytes_before(s[k].0, s[s.len() - 1].0));
                } else {
                    assert(xor_name::bytes_before(f[i].0, f[j].0));
                }
            }
        }
    }
}

/// The joined members are exactly the members whose state is that they have joined, with what is
/// known of them, each once and in ascending order of their ids.
pub proof fn law_joined_members_have_joined(
    s: SharedStateView,
    id: Seq<u8>,
    member: MemberInfoView,
)
    requires
        s.our_members.dom().finite(),
    ensures
        s.joined_members().contains((id, member)) <==> s.our_members.contains_key(id)
            && s.our_members[id] == member && member.state == MemberState::Joined,
        forall|i: int, j: int|
            0 <= i < j < s.joined_members().len() ==> xor_name::bytes_before(
                #[trigger] s.joined_members()[i].0,
                #[trigger] s.joined_members()[j].0,
            ),
{
    let list = ordered_map::listing::<PublicId, MemberInfoView>(s.our_members);
    ordered_map::law_listing_has_every_entry_once::<PublicId, MemberInfoView>(s.our_members);
    let joined = |m: (Seq<u8>, MemberInfoView)| m.1.state == MemberState::Joined;
    lemma_filter_contains(list, joined, (id, member));
    assert forall|i: int, j: int| 0 <= i < j < list.len() implies xor_name::bytes_before(
        #[trigger] list[i].0,
        #[trigger] list[j].0,
    ) by {
        assert(PublicId::before(list[i].0, list[j].0));
    }
    lemma_filter_ascending(list, joined);
    if list.contains((id, member)) {
        let i = choose|i: int| 0 <= i < list.len() && list[i] == (id, member);
        assert(s.our_members.contains_key(list[i].0));
    }
    if s.our_members.contains_key(id) && s.our_members[id] == member {
        let i = choose|i: int| 0 <= i < list.len() && #[trigger] list[i].0 == id;
        assert(list[i] == (id, member));
    }
}

/// Dropping members keeps exactly those whose names have the bits of the prefix in front, with what
/// is known of them, and changes nothing else.
pub proof fn law_members_kept_have_the_bits(s: SharedStateView, p: Seq<bool>, id: Seq<u8>)
    ensures
        ({
            let after = s.with_members_matching(p);
            let bits = xor_name::name_bits(id);
            &&& after.our_members.contains_key(id) <==> s.our_members.contains_key(id) && p.len()
                <= bits.len() && forall|i: int| 0 <= i < p.len() ==> p[i] == bits[i]
            &&& after.our_members.contains_key(id) ==> after.our_members[id] == s.our_members[id]
            &&& after == SharedStateView { our_members: after.our_members, ..s }
        }),
{
    prefix::law_covered_names_start_with_the_bits(p, id);
}

/// Two sections merge exactly if the one next to ours, whose prefix differs from ours in the last
/// bit only, is known and both have signalled for it.
pub proof fn law_merge_is_with_the_other_half(s: SharedStateView, q: Seq<bool>, bit: bool)
    requires
        s.our_infos[s.our_infos.len() - 1].prefix == q.push(bit),
    ensures
        s.both_merging() <==> s.neighbour_infos.contains_key(q.push(!bit)) && s.merging.contains(
            s.neighbour_infos[q.push(!bit)].hash,
        ) && s.merging.contains(s.our_infos[s.our_infos.len() - 1].hash),
{
    prefix::law_siblings_are_the_halves_of_a_section(q, bit);
}

/// What comes of a merge. The signals of both sections are gone and no others. If there is an info
/// of the merged section, it is the new one and is returned; else the error is, and the new info
/// stays. Nothing else changes.
pub proof fn law_merge_outcome(
    s: SharedStateView,
    q: Seq<bool>,
    bit: bool,
    merged: Result<EldersInfo, RoutingError>,
    r: Result<Option<EldersInfo>, RoutingError>,
    after: SharedStateView,
    hash: Seq<u8>,
)
    requires
        s.our_infos[s.our_infos.len() - 1].prefix == q.push(bit),
        s.merge_result(merged, r, after),
    ensures
        after.merging.contains(hash) <==> s.merging.contains(hash) && hash
            != s.neighbour_infos[q.push(!bit)].hash && hash != s.our_infos[s.our_infos.len()
            - 1].hash,
        merged matches Ok(info) ==> after.new_info == info@ && (r matches Ok(Some(i)) && i@
            == info@),
        merged matches Err(error) ==> after.new_info == s.new_info && r == Err::<
            Option<EldersInfo>,
            RoutingError,
        >(error),
        after == (SharedStateView { merging: after.merging, new_info: after.new_info, ..s }),
{
    prefix::law_siblings_are_the_halves_of_a_section(q, bit);
}

/// Our section never votes for a merge if it is the only one or while it splits. Otherwise it does
/// exactly if it has too few elders, or one of the sections around it has too few or has signalled
/// for merging and would merge into ours or into a section that ours is part of: without the last
/// bit its prefix and ours agree, and in its last bit, if ours is that long, they differ.
pub proof fn law_vote_for_merge(
    s: SharedStateView,
    min_section_size: int,
    neighbours: Seq<EldersInfoView>,
)
    requires
        forall|i: int| 0 <= i < neighbours.len() ==> (#[trigger] neighbours[i]).prefix.len() > 0,
    ensures
        ({
            let ours = s.our_infos[s.our_infos.len() - 1];
            s.should_merge(min_section_size, neighbours) <==> {
                &&& ours.prefix.len() > 0
                &&& s.change != PrefixChange::Splitting
                &&& {
                    ||| ours.members.dom().len() < min_section_size
                    ||| exists|i: int|
                        {
                            &&& 0 <= i < neighbours.len()
                            &&& other_half_meets(ours.prefix, #[trigger] neighbours[i].prefix)
                            &&& neighbours[i].members.dom().len() < min_section_size
                                || s.merging.contains(neighbours[i].hash)
                        }
                }
            }
        }),
{
    let ours = s.our_infos[s.our_infos.len() - 1];
    assert forall|i: int| 0 <= i < neighbours.len() implies s.needs_merge(
        min_section_size,
        #[trigger] neighbours[i],
    ) == (other_half_meets(ours.prefix, neighbours[i].prefix) && (
    neighbours[i].members.dom().len() < min_section_size || s.merging.contains(
        neighbours[i].hash,
    ))) by {
        lemma_other_half_meets(ours.prefix, neighbours[i].prefix);
    }
    if s.should_merge(min_section_size, neighbours) && !(ours.members.dom().len()
        < min_section_size) {
        let i = choose|i: int|
            0 <= i < neighbours.len() && s.needs_merge(min_section_size, #[trigger] neighbours[i]);
        assert(other_half_meets(ours.prefix, neighbours[i].prefix));
    }
}

/// The prefixes agree in all bits that both have, except for the last bit of the other one, in
/// which they differ if the first one is that long.
pub open spec fn other_half_meets(ours: Seq<bool>, other: Seq<bool>) -> bool {
    &&& forall|j: int| 0 <= j < ours.len() && j < other.len() - 1 ==> ours[j] == other[j]
    &&& ours.len() >= other.len() ==> ours[other.len() - 1] != other[other.len() - 1]
}

proof fn lemma_other_half_meets(ours: Seq<bool>, other: Seq<bool>)
    requires
        other.len() > 0,
    ensures
        prefix::compatible(ours, prefix::sibling(other)) <==> other_half_meets(ours, other),
{
    let q = other.drop_last();
    let bit = other.last();
    assert(other =~= q.push(bit));
    prefix::law_siblings_are_the_halves_of_a_section(q, bit);
    let half = q.push(!bit);
    prefix::law_compatible_prefixes_agree(ours, half);
    assert(forall|j: int| 0 <= j < q.len() ==> half[j] == other[j]);
    if forall|i: int| 0 <= i < ours.len() && i < half.len() ==> ours[i] == half[i] {
        assert forall|j: int| 0 <= j < ours.len() && j < other.len() - 1 implies ours[j]
            == other[j] by {
            assert(ours[j] == half[j]);
        }
        if ours.len() >= other.len() {
            assert(ours[other.len() - 1] == half[other.len() - 1]);
        }
    }
    if other_half_meets(ours, other) {
        assert forall|i: int| 0 <= i < ours.len() && i < half.len() implies ours[i]
            == half[i] by {
            if i < other.len() - 1 {
                assert(ours[i] == other[i]);
            }
        }
    }
}

/// All keys are told of: first those of the sections, each once and in the order of the prefixes,
/// then the recent ones as they are held.
pub proof fn law_all_keys_are_told(s: SharedStateView)
    requires
        s.their_keys.dom().finite(),
    ensures
        ({
            let all = s.their_keys_info();
            let n = s.their_keys.dom().len() as int;
            &&& all.len() == n + s.their_recent_keys.len()
            &&& forall|i: int|
                0 <= i < n ==> s.their_keys.contains_key((#[trigger] all[i]).0) && all[i].1
                    == s.their_keys[all[i].0]
            &&& forall|i: int, j: int|
                0 <= i < j < n ==> Prefix::before(#[trigger] all[i].0, #[trigger] all[j].0)
            &&& forall|i: int|
                0 <= i < s.their_recent_keys.len() ==> all[n + i]
                    == #[trigger] s.their_recent_keys[i]
        }),
{
    let list = ordered_map::listing::<Prefix, SectionKeyInfoView>(s.their_keys);
    ordered_map::law_listing_has_every_entry_once::<Prefix, SectionKeyInfoView>(s.their_keys);
    let all = s.their_keys_info();
    assert forall|i: int| 0 <= i < list.len() implies s.their_keys.contains_key(
        (#[trigger] all[i]).0,
    ) && all[i].1 == s.their_keys[all[i].0] by {
        assert(all[i] == list[i]);
    }
    assert forall|i: int, j: int| 0 <= i < j < list.len() implies Prefix::before(
        #[trigger] all[i].0,
        #[trigger] all[j].0,
    ) by {
        assert(all[i] == list[i] && all[j] == list[j]);
    }
}

/// After the genesis event with the bytes that another node has made, every part that the elders
/// share is the other node's, and every other part is the node's own; the event is marked.
pub proof fn law_genesis_event_hands_over_every_part(
    s: SharedStateView,
    source: SharedStateView,
    bytes: Seq<u8>,
)
    requires
        bytes.len() > 0,
        state_view::genesis_info_in(bytes) == Some(source.genesis_info()),
    ensures
        ({
            let after = s.after_genesis_event(bytes);
            &&& after.handled_genesis_event
            &&& after.our_infos == source.our_infos
            &&& after.our_history == source.our_history
            &&& after.our_members == source.our_members
            &&& after.neighbour_infos == source.neighbour_infos
            &&& after.their_keys == source.their_keys
            &&& after.their_knowledge == source.their_knowledge
            &&& after.their_recent_keys == source.their_recent_keys
            &&& after.churn_event_backlog == source.churn_event_backlog
            &&& after.new_info == s.new_info
            &&& after.change == s.change
            &&& after.split_cache == s.split_cache
            &&& after.merging == s.merging
        }),
{
}

/// A genesis event without bytes, or with bytes that are no genesis info, is marked and changes
/// nothing else.
pub proof fn law_genesis_event_without_info(s: SharedStateView, bytes: Seq<u8>)
    requires
        bytes.len() == 0 || state_view::genesis_info_in(bytes) is None,
    ensures
        s.after_genesis_event(bytes) == (SharedStateView { handled_genesis_event: true, ..s }),
{
}

/// A part is reported exactly if it differs; of the histories, exactly if comparing them has found
/// them to differ. No part is reported twice.
pub proof fn law_differing_parts_are_reported(
    ours: GenesisInfoView,
    theirs: GenesisInfoView,
    same_history: bool,
)
    ensures
        ({
            let parts = state_view::differing_parts(ours, theirs, same_history);
            &&& parts.contains(GenesisPart::OurInfos) <==> ours.our_infos != theirs.our_infos
            &&& parts.contains(GenesisPart::OurHistory) <==> !same_history
            &&& parts.contains(GenesisPart::OurMembers) <==> ours.our_members
                != theirs.our_members
            &&& parts.contains(GenesisPart::NeighbourInfos) <==> ours.neighbour_infos
                != theirs.neighbour_infos
            &&& parts.contains(GenesisPart::TheirKeys) <==> ours.their_keys != theirs.their_keys
            &&& parts.contains(GenesisPart::TheirKnowledge) <==> ours.their_knowledge
                != theirs.their_knowledge
            &&& parts.contains(GenesisPart::TheirRecentKeys) <==> ours.their_recent_keys
                != theirs.their_recent_keys
            &&& parts.contains(GenesisPart::ChurnEventBacklog) <==> ours.churn_event_backlog
                != theirs.churn_event_backlog
            &&& !parts.contains(GenesisPart::HandledGenesisEvent)
            &&& parts.no_duplicates()
        }),
{
    let p1 = state_view::part_unless(
        GenesisPart::OurInfos,
        ours.our_infos == theirs.our_infos,
    );
    lemma_report_of_one(Seq::empty(), GenesisPart::OurInfos, ours.our_infos == theirs.our_infos);
    assert(Seq::<GenesisPart>::empty() + p1 =~= p1);
    let p2 = p1 + state_view::part_unless(GenesisPart::OurHistory, same_history);
    lemma_report_of_one(p1, GenesisPart::OurHistory, same_history);
    let p3 = p2 + state_view::part_unless(
        GenesisPart::OurMembers,
        ours.our_members == theirs.our_members,
    );
    lemma_report_of_one(p2, GenesisPart::OurMembers, ours.our_members == theirs.our_members);
    let p4 = p3 + state_view::part_unless(
        GenesisPart::NeighbourInfos,
        ours.neighbour_infos == theirs.neighbour_infos,
    );
    lemma_report_of_one(
        p3,
        GenesisPart::NeighbourInfos,
        ours.neighbour_infos == theirs.neighbour_infos,
    );
    let p5 = p4 + state_view::part_unless(
        GenesisPart::TheirKeys,
        ours.their_keys == theirs.their_keys,
    );
    lemma_report_of_one(p4, GenesisPart::TheirKeys, ours.their_keys == theirs.their_keys);
    let p6 = p5 + state_view::part_unless(
        GenesisPart::TheirKnowledge,
        ours.their_knowledge == theirs.their_knowledge,
    );
    lemma_report_of_one(
        p5,
        GenesisPart::TheirKnowledge,
        ours.their_knowledge == theirs.their_knowledge,
    );
    let p7 = p6 + state_view::part_unless(
        GenesisPart::TheirRecentKeys,
        ours.their_recent_keys == theirs.their_recent_keys,
    );
    lemma_report_of_one(
        p6,
        GenesisPart::TheirRecentKeys,
        ours.their_recent_keys == theirs.their_recent_keys,
    );
    lemma_report_of_one(
        p7,
        GenesisPart::ChurnEventBacklog,
        ours.churn_event_backlog == theirs.churn_event_backlog,
    );
}

proof fn lemma_report_of_one(before: Seq<GenesisPart>, part: GenesisPart, same: bool)
    requires
        before.no_duplicates(),
        !before.contains(part),
    ensures
        ({
            let after = before + state_view::part_unless(part, same);
            &&& after.no_duplicates()
            &&& after.contains(part) <==> !same
            &&& forall|other: GenesisPart|
                other != part ==> (#[trigger] after.contains(other) <==> before.contains(other))
        }),
{
    let after = before + state_view::part_unless(part, same);
    if same {
        assert(after =~= before);
    } else {
        assert(after =~= before.push(part));
        assert(after[before.len() as int] == part);
        assert forall|other: GenesisPart| other != part implies (#[trigger] after.contains(other)
            <==> before.contains(other)) by {
            if before.contains(other) {
                let i = choose|i: int| 0 <= i < before.len() && before[i] == other;
                assert(after[i] == other);
            }
            if after.contains(other) {
                let i = choose|i: int| 0 <= i < after.len() && after[i] == other;
                assert(before[i] == other);
            }
        }
        assert forall|i: int, j: int| 0 <= i < after.len() && 0 <= j < after.len() && i
            != j implies after[i] != after[j] by {
            if i < before.len() && j < before.len() {
                assert(before[i] != before[j]);
            } else if i < before.len() {
                assert(before.contains(before[i]));
            } else {
                assert(before.contains(before[j]));
            }
        }
    }
}

/// A node with only one info of its section reports nothing on a genesis info. Any other node
/// reports a part exactly if it differs, the histories as comparing them has told.
pub proof fn law_genesis_report<F: Fn(&BlsPublicKey, &BlsSignature, &Vec<u8>) -> bool>(
    ours: GenesisInfoView,
    theirs: GenesisInfoView,
    verify: F,
    parts: Seq<GenesisPart>,
)
    requires
        state_view::genesis_report(ours, theirs, verify, parts),
    ensures
        ours.our_infos.len() == 1 ==> parts.len() == 0,
        ours.our_infos.len() != 1 ==> {
            &&& ours.our_history.eq_says(
                theirs.our_history,
                verify,
                !parts.contains(GenesisPart::OurHistory),
            )
            &&& parts.contains(GenesisPart::OurInfos) <==> ours.our_infos != theirs.our_infos
            &&& parts.contains(GenesisPart::OurMembers) <==> ours.our_members
                != theirs.our_members
            &&& parts.contains(GenesisPart::NeighbourInfos) <==> ours.neighbour_infos
                != theirs.neighbour_infos
            &&& parts.contains(GenesisPart::TheirKeys) <==> ours.their_keys != theirs.their_keys
            &&& parts.contains(GenesisPart::TheirKnowledge) <==> ours.their_knowledge
                != theirs.their_knowledge
            &&& parts.contains(GenesisPart::TheirRecentKeys) <==> ours.their_recent_keys
                != theirs.their_recent_keys
            &&& parts.contains(GenesisPart::ChurnEventBacklog) <==> ours.churn_event_backlog
                != theirs.churn_event_backlog
        },
{
    if ours.our_infos.len() != 1 {
        let same_history = choose|same_history: bool|
            ours.our_history.eq_says(theirs.our_history, verify, same_history) && parts
                == #[trigger] state_view::differing_parts(ours, theirs, same_history);
        law_differing_parts_are_reported(ours, theirs, same_history);
    }
}

/// Handling a genesis event keeps what was noted before. It notes that an event was handled before
/// exactly if one was, and then what a genesis info in the bytes differs in.
pub proof fn law_genesis_event_report<F: Fn(&BlsPublicKey, &BlsSignature, &Vec<u8>) -> bool>(
    s: SharedStateView,
    bytes: Seq<u8>,
    verify: F,
    before: Seq<GenesisPart>,
    after: Seq<GenesisPart>,
)
    requires
        state_view::genesis_event_report(s, bytes, verify, before, after),
    ensures
        ({
            let n = before.len() as int;
            let m = if s.handled_genesis_event {
                n + 1
            } else {
                n
            };
            &&& after.len() >= m
            &&& forall|i: int| 0 <= i < n ==> after[i] == before[i]
            &&& s.handled_genesis_event ==> after[n] == GenesisPart::HandledGenesisEvent
            &&& bytes.len() == 0 || state_view::genesis_info_in(bytes) is None ==> after.len() == m
            &&& bytes.len() > 0 && state_view::genesis_info_in(bytes) is Some
                ==> state_view::genesis_report(
                s.genesis_info(),
                state_view::genesis_info_in(bytes)->0,
                verify,
                after.skip(m),
            )
        }),
{
    let marked = before + state_view::part_unless(
        GenesisPart::HandledGenesisEvent,
        !s.handled_genesis_event,
    );
    if bytes.len() > 0 && state_view::genesis_info_in(bytes) is Some {
        assert forall|i: int| 0 <= i < marked.len() implies after[i] == marked[i] by {
            assert(marked[i] == after.subrange(0, marked.len() as int)[i]);
        }
    }
    assert(forall|i: int| 0 <= i < before.len() ==> marked[i] == before[i]);
}

/// Two states are found equal exactly if every part of them is the same but for the histories, and
/// these are found equal.
pub proof fn law_equal_states<F: Fn(&BlsPublicKey, &BlsSignature, &Vec<u8>) -> bool>(
    s: SharedStateView,
    other: SharedStateView,
    verify: F,
)
    ensures
        s.eq_says(other, verify, true) <==> {
            &&& s.handled_genesis_event == other.handled_genesis_event
            &&& s.new_info == other.new_info
            &&& s.our_infos == other.our_infos
            &&& s.our_members == other.our_members
            &&& s.neighbour_infos == other.neighbour_infos
            &&& s.change == other.change
            &&& s.split_cache == other.split_cache
            &&& s.merging == other.merging
            &&& s.our_history.eq_says(other.our_history, verify, true)
            &&& s.their_keys == other.their_keys
            &&& s.their_knowledge == other.their_knowledge
            &&& s.their_recent_keys == other.their_recent_keys
            &&& s.churn_event_backlog == other.churn_event_backlog
        },
        s.eq_says(other, verify, false) ==> s.our_history.eq_says(
            other.our_history,
            verify,
            false,
        ) || s.handled_genesis_event != other.handled_genesis_event || s.new_info
            != other.new_info || s.our_infos != other.our_infos || s.our_members
            != other.our_members || s.neighbour_infos != other.neighbour_infos || s.change
            != other.change || s.split_cache != other.split_cache || s.merging != other.merging
            || s.their_keys != other.their_keys || s.their_knowledge != other.their_knowledge
            || s.their_recent_keys != other.their_recent_keys || s.churn_event_backlog
            != other.churn_event_backlog,
{
}

/// What the state tells of our own section is what its last info says.
pub proof fn law_answers_about_our_section(
    state: &SharedState,
    info: &EldersInfo,
    prefix: &Prefix,
    version: u64,
)
    requires
        call_ensures(SharedState::our_info, (state,), info),
        call_ensures(SharedState::our_prefix, (state,), prefix),
        call_ensures(SharedState::our_version, (state,), version),
    ensures
        info@ == state@.our_infos[state@.our_infos.len() - 1],
        prefix@ == info@.prefix,
        version == info@.version,
{
}

/// An info of our own section is found by its hash exactly if there is one with it, and it is the
/// oldest of those.
pub proof fn law_info_is_found_by_its_hash(
    state: &SharedState,
    hash: &Digest256,
    found: Option<&EldersInfo>,
    i: int,
)
    requires
        call_ensures(SharedState::our_info_by_hash, (state, hash), found),
        0 <= i < state@.our_infos.len(),
        state@.our_infos[i].hash == hash@,
        forall|j: int| 0 <= j < i ==> (#[trigger] state@.our_infos[j]).hash != hash@,
    ensures
        found matches Some(info) && info@ == state@.our_infos[i],
{
}

/// The persona of a node is that of an elder exactly if our last info names it, whatever else is
/// known of it; a node that is neither an elder nor a member has none.
pub proof fn law_persona_is_told(
    state: &SharedState,
    id: &PublicId,
    persona: Option<MemberPersona>,
)
    requires
        call_ensures(SharedState::get_persona, (state, id), persona),
    ensures
        ({
            let ours = state@.our_infos[state@.our_infos.len() - 1];
            let members = state@.our_members;
            &&& persona == Some(MemberPersona::Elder) <==> ours.members.contains_key(id@)
            &&& persona is None <==> !ours.members.contains_key(id@) && !members.contains_key(id@)
            &&& persona == Some(MemberPersona::Adult) <==> !ours.members.contains_key(id@)
                && members.contains_key(id@) && members[id@].age_counter.0 > MIN_AGE_COUNTER
        }),
{
}

} // verus!
