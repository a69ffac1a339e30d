//! What holds of the shared state across its operations.

use vstd::prelude::*;

use crate::chain::bls_emu::{self, BlsPublicKey, BlsSignature};
use crate::chain::elders_info::EldersInfoView;
use crate::chain::member_info::{AgeCounter, MemberInfoView};
use crate::chain::proof_chain::{self, SectionKeyInfoView, SectionProofBlockView};
use crate::chain::shared_state::MAX_THEIR_RECENT_KEYS;
use crate::chain::state_view::{self, SharedStateView};
use crate::id::{P2pNodeView, PublicId};
use crate::ordered_map::{self, OrderedKey};
use crate::prefix::{self, Prefix};
use crate::prefix_map;

verus! {

impl SharedStateView {
    /// There is one info of our own section for every key in its history, and it is the info that
    /// the key belongs to.
    pub open spec fn history_matches_infos(self) -> bool {
        &&& self.our_infos.len() == self.our_history.key_infos().len()
        &&& forall|i: int|
            0 <= i < self.our_infos.len() ==> self.our_history.key_infos()[i]
                == proof_chain::key_info_of(#[trigger] self.our_infos[i])
    }

    /// The sections whose keys are known do not overlap, every key was issued for the section it
    /// is registered for or for one that has been split since, and no more than the allowed number
    /// of recent keys are held.
    pub open spec fn keys_consistent(self) -> bool {
        &&& self.their_keys.dom().finite()
        &&& prefix_map::disjoint_sections(self.their_keys)
        &&& forall|p: Seq<bool>| #[trigger]
            self.their_keys.contains_key(p) ==> self.their_keys[p].prefix().is_prefix_of(p)
        &&& self.their_recent_keys.len() <= MAX_THEIR_RECENT_KEYS
    }

    /// The sections whose knowledge of us is known do not overlap.
    pub open spec fn knowledge_consistent(self) -> bool {
        &&& self.their_knowledge.dom().finite()
        &&& prefix_map::disjoint_sections(self.their_knowledge)
    }

    /// What every operation of the shared state keeps.
    pub open spec fn consistent(self) -> bool {
        self.history_matches_infos() && self.keys_consistent() && self.knowledge_consistent()
    }
}

/// The state of a new section is consistent.
pub proof fn law_new_state_is_consistent(info: EldersInfoView, ages: Map<Seq<u8>, AgeCounter>)
    ensures
        state_view::initial_state(info, ages).consistent(),
{
    let s = state_view::initial_state(info, ages);
    assert(s.their_keys[info.prefix].prefix() =~= info.prefix.subrange(
        0,
        info.prefix.len() as int,
    ));
}

/// The members of a new section are exactly its elders, each with the age that is given for it.
pub proof fn law_new_state_has_elders_as_members(
    info: EldersInfoView,
    ages: Map<Seq<u8>, AgeCounter>,
)
    requires
        info.members.dom().finite(),
        info.well_keyed(),
    ensures
        state_view::initial_members(info, ages) == Map::new(
            |id: Seq<u8>| info.members.contains_key(id),
            |id: Seq<u8>| state_view::initial_member(info.members[id], ages),
        ),
{
    let list = ordered_map::listing::<PublicId, P2pNodeView>(info.members);
    ordered_map::lemma_listing::<PublicId, P2pNodeView>(info.members);
    let members = state_view::initial_member_list(info, ages);
    let expected = Map::new(
        |id: Seq<u8>| info.members.contains_key(id),
        |id: Seq<u8>| state_view::initial_member(info.members[id], ages),
    );
    assert forall|i: int| 0 <= i < list.len() implies (#[trigger] members[i]).0 == list[i].0
        && members[i].1 == expected[list[i].0] by {
        assert(info.members.contains_pair(list[i].0, list[i].1));
    }
    assert(ordered_map::is_listing::<PublicId, MemberInfoView>(members, expected)) by {
        assert forall|i: int| 0 <= i < members.len() implies #[trigger] expected.contains_pair(
            members[i].0,
            members[i].1,
        ) by {
            assert(info.members.contains_pair(list[i].0, list[i].1));
        }
        assert forall|id: Seq<u8>| #[trigger] expected.contains_key(id) implies exists|i: int|
            0 <= i < members.len() && #[trigger] members[i].0 == id by {
            let i = choose|i: int| 0 <= i < list.len() && #[trigger] list[i].0 == id;
            assert(members[i].0 == id);
        }
    }
    ordered_map::lemma_map_of_listing::<PublicId, MemberInfoView>(members, expected);
}

/// News of a key keep the state consistent.
pub proof fn law_their_key_keeps_consistent(s: SharedStateView, key_info: SectionKeyInfoView)
    requires
        s.consistent(),
    ensures
        s.with_their_key(key_info).consistent(),
{
    lemma_their_key_keeps_keys(s, key_info);
    let after = s.with_their_key(key_info);
    assert(after.our_history == s.our_history && after.our_infos == s.our_infos);
}

proof fn lemma_their_key_keeps_keys(s: SharedStateView, key_info: SectionKeyInfoView)
    requires
        s.keys_consistent(),
    ensures
        s.with_their_key(key_info).keys_consistent(),
{
    let after = s.with_their_key(key_info);
    let p = key_info.prefix();
    let stale = state_view::not_older(key_info);
    prefix_map::lemma_updated_disjoint(s.their_keys, p, key_info, stale);
    prefix_map::lemma_updated_finite(s.their_keys, p, key_info, stale);
    assert forall|k: Seq<bool>| #[trigger]
        after.their_keys.contains_key(k) implies after.their_keys[k].prefix().is_prefix_of(k) by {
        prefix_map::lemma_updated_entry(s.their_keys, p, key_info, stale, k);
        if k == p && after.their_keys[k] == key_info {
            assert(p =~= p.subrange(0, p.len() as int));
        } else {
            let source = prefix_map::source_of(s.their_keys, p, k);
            assert(s.their_keys.contains_key(source));
            prefix::lemma_prefix_of_prefix(s.their_keys[source].prefix(), source, k);
        }
    }
}

/// News of what a section knows of us keep the state consistent.
pub proof fn law_their_knowledge_keeps_consistent(
    s: SharedStateView,
    prefix: Seq<bool>,
    version: u64,
)
    requires
        s.consistent(),
    ensures
        s.with_their_knowledge(prefix, version).consistent(),
{
    let stale = state_view::at_least(version);
    prefix_map::lemma_updated_disjoint(s.their_knowledge, prefix, version, stale);
    prefix_map::lemma_updated_finite(s.their_knowledge, prefix, version, stale);
    let after = s.with_their_knowledge(prefix, version);
    assert(after.our_history == s.our_history && after.our_infos == s.our_infos);
}

/// A new info of our own section becomes the current one, and the key of its block the latest.
pub proof fn law_our_new_info_is_current(
    s: SharedStateView,
    info: EldersInfoView,
    block: SectionProofBlockView,
)
    ensures
        s.with_our_new_info(info, block).our_info() == info,
        s.with_our_new_info(info, block).our_history.key_infos().last() == block.key_info,
{
}

/// A new info of our own section, with a block for its key, keeps one info for every key in the
/// section's history.
pub proof fn law_our_new_info_keeps_history(
    s: SharedStateView,
    info: EldersInfoView,
    block: SectionProofBlockView,
)
    requires
        s.history_matches_infos(),
        block.key_info == proof_chain::key_info_of(info),
    ensures
        s.with_our_new_info(info, block).history_matches_infos(),
{
    let after = s.with_our_new_info(info, block);
    let keys = s.our_history.key_infos();
    assert(after.our_infos == s.our_infos.push(info));
    assert(after.our_history.key_infos() =~= keys.push(block.key_info));
    assert forall|i: int| 0 <= i < after.our_infos.len() implies after.our_history.key_infos()[i]
        == proof_chain::key_info_of(#[trigger] after.our_infos[i]) by {
        if i < s.our_infos.len() {
            assert(after.our_infos[i] == s.our_infos[i]);
        }
    }
}

/// A new info of our own section, with a block for its key, keeps the state consistent.
pub proof fn law_our_new_info_keeps_consistent(
    s: SharedStateView,
    info: EldersInfoView,
    block: SectionProofBlockView,
)
    requires
        s.consistent(),
        block.key_info == proof_chain::key_info_of(info),
    ensures
        s.with_our_new_info(info, block).consistent(),
{
    let pushed = SharedStateView {
        our_history: s.our_history.pushed(block),
        our_infos: s.our_infos.push(info),
        ..s
    };
    law_our_new_info_keeps_history(s, info, block);
    lemma_their_key_keeps_keys(pushed, block.key_info);
}

/// Dropping members keeps the state consistent.
pub proof fn law_dropping_members_keeps_consistent(s: SharedStateView, prefix: Seq<bool>)
    requires
        s.consistent(),
    ensures
        s.with_members_matching(prefix).consistent(),
{
    let after = s.with_members_matching(prefix);
    assert(after.our_history == s.our_history && after.our_infos == s.our_infos);
}

/// A merge, successful or not, keeps the state consistent.
pub proof fn law_merge_keeps_consistent(s: SharedStateView, new_info: EldersInfoView)
    requires
        s.consistent(),
    ensures
        (SharedStateView { merging: s.merging_done(), new_info, ..s }).consistent(),
{
    let after = SharedStateView { merging: s.merging_done(), new_info, ..s };
    assert(after.our_history == s.our_history && after.our_infos == s.our_infos);
}

/// Taking over the genesis info of a consistent state keeps the state consistent.
pub proof fn law_genesis_info_keeps_consistent(s: SharedStateView, source: SharedStateView)
    requires
        source.consistent(),
    ensures
        s.with_genesis_info(source.genesis_info()).consistent(),
{
    let after = s.with_genesis_info(source.genesis_info());
    assert(after.our_history == source.our_history && after.our_infos == source.our_infos);
}

/// A node that handles the genesis event with the bytes that another node has made ends up with
/// what that node has in common with all elders, and keeps the rest of its own state. The bytes
/// that a node makes are never empty and hold its genesis info.
pub proof fn law_genesis_round_trip(s: SharedStateView, source: SharedStateView, bytes: Seq<u8>)
    requires
        bytes.len() > 0,
        state_view::genesis_info_in(bytes) == Some(source.genesis_info()),
    ensures
        s.after_genesis_event(bytes).genesis_info() == source.genesis_info(),
        s.after_genesis_event(bytes).handled_genesis_event,
        s.after_genesis_event(bytes).new_info == s.new_info,
        s.after_genesis_event(bytes).change == s.change,
        s.after_genesis_event(bytes).split_cache == s.split_cache,
        s.after_genesis_event(bytes).merging == s.merging,
{
}

/// After news of a key that is taken over, the key for the addresses of that section is the new
/// one. The key for every other address is the one that it was, and if the news are not taken over,
/// that holds of all addresses.
pub proof fn law_their_key_at_address(
    s: SharedStateView,
    key_info: SectionKeyInfoView,
    address: Seq<bool>,
)
    requires
        s.their_keys.dom().finite(),
        prefix_map::disjoint_sections(s.their_keys),
        key_info.prefix().len() <= address.len(),
    ensures
        prefix_map::value_at(s.with_their_key(key_info).their_keys, address) == (
        if prefix_map::takes_over(
            s.their_keys,
            key_info.prefix(),
            state_view::not_older(key_info),
        ) && key_info.prefix().is_prefix_of(address) {
            Some(key_info)
        } else {
            prefix_map::value_at(s.their_keys, address)
        }),
{
    prefix_map::lemma_updated_value_at(
        s.their_keys,
        key_info.prefix(),
        key_info,
        state_view::not_older(key_info),
        address,
    );
}

/// What is known of the key for an address is never replaced by an older key, and never lost.
pub proof fn law_their_key_versions_never_go_back(
    s: SharedStateView,
    key_info: SectionKeyInfoView,
    address: Seq<bool>,
)
    requires
        s.their_keys.dom().finite(),
        prefix_map::disjoint_sections(s.their_keys),
        key_info.prefix().len() <= address.len(),
        prefix_map::value_at(s.their_keys, address) is Some,
    ensures
        prefix_map::value_at(s.with_their_key(key_info).their_keys, address) matches Some(key)
            && key.version() >= prefix_map::value_at(s.their_keys, address)->0.version(),
{
    law_their_key_at_address(s, key_info, address);
    let stale = state_view::not_older(key_info);
    let p = key_info.prefix();
    if prefix_map::takes_over(s.their_keys, p, stale) && p.is_prefix_of(address) {
        prefix_map::lemma_taken_over_was_first(s.their_keys, p, stale, address);
    }
}

/// After news of what a section knows of us that are taken over, the version for the addresses of
/// that section is the new one. The version for every other address is the one that it was, and if
/// the news are not taken over, that holds of all addresses.
pub proof fn law_their_knowledge_at_address(
    s: SharedStateView,
    prefix: Seq<bool>,
    version: u64,
    address: Seq<bool>,
)
    requires
        s.knowledge_consistent(),
        prefix.len() <= address.len(),
    ensures
        prefix_map::value_at(s.with_their_knowledge(prefix, version).their_knowledge, address) == (
        if prefix_map::takes_over(
            s.their_knowledge,
            prefix,
            state_view::at_least(version),
        ) && prefix.is_prefix_of(address) {
            Some(version)
        } else {
            prefix_map::value_at(s.their_knowledge, address)
        }),
{
    prefix_map::lemma_updated_value_at(
        s.their_knowledge,
        prefix,
        version,
        state_view::at_least(version),
        address,
    );
}

/// The version that the section of an address knows of us never goes back and is never lost.
pub proof fn law_their_knowledge_versions_never_go_back(
    s: SharedStateView,
    prefix: Seq<bool>,
    version: u64,
    address: Seq<bool>,
)
    requires
        s.knowledge_consistent(),
        prefix.len() <= address.len(),
        prefix_map::value_at(s.their_knowledge, address) is Some,
    ensures
        prefix_map::value_at(s.with_their_knowledge(prefix, version).their_knowledge, address)
            matches Some(known) && known >= prefix_map::value_at(s.their_knowledge, address)->0,
{
    law_their_knowledge_at_address(s, prefix, version, address);
    let stale = state_view::at_least(version);
    if prefix_map::takes_over(s.their_knowledge, prefix, stale) && prefix.is_prefix_of(address) {
        prefix_map::lemma_taken_over_was_first(s.their_knowledge, prefix, stale, address);
    }
}

/// A key that is known for a section is not replaced by one for the same section that is not newer,
/// whatever the order in which they arrive; in particular, hearing of a key twice is the same as
/// hearing of it once.
pub proof fn law_late_key_ignored(
    s: SharedStateView,
    key_info: SectionKeyInfoView,
    late: SectionKeyInfoView,
)
    requires
        s.their_keys.dom().finite(),
        prefix_map::disjoint_sections(s.their_keys),
        late.prefix() == key_info.prefix(),
        late.version() <= key_info.version(),
    ensures
        s.with_their_key(key_info).with_their_key(late) == s.with_their_key(key_info),
{
    prefix_map::lemma_updated_settles(
        s.their_keys,
        key_info.prefix(),
        key_info,
        state_view::not_older(key_info),
        state_view::not_older(late),
    );
    assert(s.with_their_key(key_info).with_their_key(late) =~= s.with_their_key(key_info));
}

/// The same of the versions that sections know of us.
pub proof fn law_late_knowledge_ignored(
    s: SharedStateView,
    prefix: Seq<bool>,
    version: u64,
    late: u64,
)
    requires
        s.knowledge_consistent(),
        late <= version,
    ensures
        s.with_their_knowledge(prefix, version).with_their_knowledge(prefix, late)
            == s.with_their_knowledge(prefix, version),
{
    prefix_map::lemma_updated_settles(
        s.their_knowledge,
        prefix,
        version,
        state_view::at_least(version),
        state_view::at_least(late),
    );
    assert(s.with_their_knowledge(prefix, version).with_their_knowledge(prefix, late)
        =~= s.with_their_knowledge(prefix, version));
}

/// A key that is replaced becomes the latest of the recent keys; the others move back by one place,
/// and only the last of a full list is dropped.
pub proof fn law_replaced_key_is_recent(
    recent: Seq<(Seq<bool>, SectionKeyInfoView)>,
    old_pfx: Seq<bool>,
    old_key: SectionKeyInfoView,
)
    ensures
        ({
            let after = state_view::with_recent_key(recent, old_pfx, old_key);
            &&& after[0] == (old_pfx, old_key)
            &&& forall|i: int| 1 <= i < after.len() ==> #[trigger] after[i] == recent[i - 1]
            &&& recent.len() < MAX_THEIR_RECENT_KEYS ==> after.len() == recent.len() + 1
            &&& recent.len() == MAX_THEIR_RECENT_KEYS ==> after.len() == MAX_THEIR_RECENT_KEYS
        }),
{
}

/// When news change the key for an address, the key that was known for it becomes the latest of the
/// recent keys, so that messages signed with it can still be trusted.
pub proof fn law_changed_key_stays_trusted(
    s: SharedStateView,
    key_info: SectionKeyInfoView,
    address: Seq<bool>,
)
    requires
        s.their_keys.dom().finite(),
        prefix_map::disjoint_sections(s.their_keys),
        key_info.prefix().len() <= address.len(),
        prefix_map::value_at(s.their_keys, address) is Some,
    ensures
        ({
            let after = s.with_their_key(key_info);
            let known = prefix_map::value_at(s.their_keys, address);
            ||| prefix_map::value_at(after.their_keys, address) == known
            ||| after.their_recent_keys.len() > 0 && Some(after.their_recent_keys[0].1) == known
        }),
{
    let p = key_info.prefix();
    let stale = state_view::not_older(key_info);
    law_their_key_at_address(s, key_info, address);
    if prefix_map::takes_over(s.their_keys, p, stale) && p.is_prefix_of(address) {
        prefix_map::lemma_taken_over_was_first(s.their_keys, p, stale, address);
        let old_pfx = prefix_map::first_compatible(s.their_keys, p)->0;
        law_replaced_key_is_recent(s.their_recent_keys, old_pfx, s.their_keys[old_pfx]);
    }
}

/// Dropping the members outside a prefix twice is the same as doing it once, and no member inside
/// the prefix is dropped or changed.
pub proof fn law_dropping_members_settles(s: SharedStateView, prefix: Seq<bool>, id: Seq<u8>)
    ensures
        s.with_members_matching(prefix).with_members_matching(prefix)
            == s.with_members_matching(prefix),
        prefix::covers(prefix, id) && s.our_members.contains_key(id)
            ==> s.with_members_matching(prefix).our_members.contains_pair(id, s.our_members[id]),
        !prefix::covers(prefix, id) ==> !s.with_members_matching(
            prefix,
        ).our_members.contains_key(id),
{
    let once = s.with_members_matching(prefix);
    assert(once.with_members_matching(prefix).our_members =~= once.our_members);
}

/// The signals for a merge are used up by it: without new ones no second merge follows.
pub proof fn law_merge_signals_used_up(s: SharedStateView, new_info: EldersInfoView)
    ensures
        !(SharedStateView { merging: s.merging_done(), new_info, ..s }).both_merging(),
        !s.merging_done().contains(s.our_info().hash),
{
}

/// With a signature check that never gives two answers to one question, comparing two states always
/// gives the same answer.
pub proof fn law_state_equality_has_one_answer<
    F: Fn(&BlsPublicKey, &BlsSignature, &Vec<u8>) -> bool,
>(s: SharedStateView, other: SharedStateView, verify: F)
    requires
        bls_emu::one_answer(verify),
    ensures
        !(s.eq_says(other, verify, true) && s.eq_says(other, verify, false)),
{
    proof_chain::law_validity_has_one_answer(s.our_history, verify);
    proof_chain::law_validity_has_one_answer(other.our_history, verify);
}

impl SharedStateView {
    /// The two states differ at most in the keys of other sections.
    pub open spec fn same_but_keys(self, other: SharedStateView) -> bool {
        &&& self.handled_genesis_event == other.handled_genesis_event
        &&& self.new_info == other.new_info
        &&& self.our_infos == other.our_infos
        &&& self.our_members == other.our_members
        &&& self.neighbour_infos == other.neighbour_infos
        &&& self.change == other.change
        &&& self.split_cache == other.split_cache
        &&& self.merging == other.merging
        &&& self.our_history == other.our_history
        &&& self.their_knowledge == other.their_knowledge
        &&& self.churn_event_backlog == other.churn_event_backlog
    }
}

/// News of a key of a higher version than the one that is known of the section, or of a larger
/// section that it was part of. Every address of the section gets the new key, every other address
/// of the larger section keeps the old one, and all other sections keep theirs. Nothing else
/// changes but the recent keys.
pub proof fn law_key_of_higher_version_replaces(
    s: SharedStateView,
    key_info: SectionKeyInfoView,
    old_pfx: Seq<bool>,
    address: Seq<bool>,
)
    requires
        s.their_keys.dom().finite(),
        prefix_map::none_inside_another(s.their_keys),
        s.their_keys.contains_key(old_pfx),
        old_pfx.is_prefix_of(key_info.elders_info.prefix),
        s.their_keys[old_pfx].elders_info.version < key_info.elders_info.version,
        old_pfx.is_prefix_of(address),
        key_info.elders_info.prefix.len() <= address.len(),
    ensures
        ({
            let p = key_info.elders_info.prefix;
            let old_key = s.their_keys[old_pfx];
            let after = s.with_their_key(key_info);
            let expected = if p.is_prefix_of(address) {
                key_info
            } else {
                old_key
            };
            &&& after.their_keys.contains_pair(p, key_info)
            &&& old_pfx != p ==> !after.their_keys.contains_key(old_pfx)
            &&& prefix_map::known_at(after.their_keys, address, expected)
            &&& forall|k: Seq<bool>| #[trigger]
                s.their_keys.contains_key(k) && k != old_pfx ==> after.their_keys.contains_pair(
                    k,
                    s.their_keys[k],
                )
            &&& forall|k: Seq<bool>| #[trigger]
                after.their_keys.contains_key(k) && k != p && !s.their_keys.contains_key(k) ==> {
                    &&& after.their_keys[k] == old_key
                    &&& old_pfx.is_prefix_of(k)
                    &&& k.len() > 0
                    &&& k.drop_last().is_prefix_of(p)
                    &&& !k.is_prefix_of(p)
                }
            &&& after.same_but_keys(s)
        }),
{
    let p = key_info.elders_info.prefix;
    let stale = state_view::not_older(key_info);
    assert(p == key_info.prefix());
    assert(!stale(s.their_keys[old_pfx]));
    prefix_map::law_newer_news_replace(s.their_keys, p, key_info, stale, old_pfx);
    prefix_map::law_newer_news_lose_no_address(
        s.their_keys,
        p,
        key_info,
        stale,
        old_pfx,
        address,
    );
}

/// Then the old key becomes the latest of the recent ones, and the others move back by one place;
/// the last one goes if there are too many.
pub proof fn law_key_of_lower_version_becomes_recent(
    s: SharedStateView,
    key_info: SectionKeyInfoView,
    old_pfx: Seq<bool>,
)
    requires
        prefix_map::none_inside_another(s.their_keys),
        s.their_keys.contains_key(old_pfx),
        old_pfx.is_prefix_of(key_info.elders_info.prefix),
        s.their_keys[old_pfx].elders_info.version < key_info.elders_info.version,
    ensures
        ({
            let recent = s.with_their_key(key_info).their_recent_keys;
            &&& recent.len() == if s.their_recent_keys.len() < MAX_THEIR_RECENT_KEYS {
                s.their_recent_keys.len() + 1
            } else {
                s.their_recent_keys.len()
            }
            &&& recent[0] == (old_pfx, s.their_keys[old_pfx])
            &&& forall|i: int| 1 <= i < recent.len() ==> #[trigger] recent[i]
                == s.their_recent_keys[i - 1]
        }),
{
    let p = key_info.elders_info.prefix;
    let stale = state_view::not_older(key_info);
    assert(p == key_info.prefix());
    assert(!stale(s.their_keys[old_pfx]));
    prefix_map::lemma_replaced_entry_is_first(s.their_keys, p, stale, old_pfx);
}

/// The same where sections overlap: if the first entry that is compatible with the section of the
/// news, in the order of the prefixes, has a lower version and its prefix is not longer, the
/// section gets the new key, and the key of that entry becomes the latest of the recent ones.
pub proof fn law_first_compatible_key_of_lower_version_is_replaced(
    s: SharedStateView,
    key_info: SectionKeyInfoView,
    old_pfx: Seq<bool>,
)
    requires
        s.their_keys.contains_key(old_pfx),
        old_pfx.is_prefix_of(key_info.elders_info.prefix),
        forall|k: Seq<bool>| #[trigger]
            s.their_keys.contains_key(k) && k != old_pfx && (k.is_prefix_of(
                key_info.elders_info.prefix,
            ) || key_info.elders_info.prefix.is_prefix_of(k)) ==> Prefix::before(old_pfx, k),
        s.their_keys[old_pfx].elders_info.version < key_info.elders_info.version,
    ensures
        ({
            let after = s.with_their_key(key_info);
            &&& after.their_keys.contains_pair(key_info.elders_info.prefix, key_info)
            &&& after.their_recent_keys.len() > 0
            &&& after.their_recent_keys[0] == (old_pfx, s.their_keys[old_pfx])
            &&& after.same_but_keys(s)
        }),
{
    let p = key_info.elders_info.prefix;
    assert(p == key_info.prefix());
    assert(prefix_map::is_first_compatible(s.their_keys, p, old_pfx));
    prefix_map::lemma_first_compatible(s.their_keys, p, old_pfx);
    assert(!prefix::extends(old_pfx, p));
}

/// News of a key of a section of which nothing is known add it; nothing else changes.
pub proof fn law_key_of_unknown_section_is_added(s: SharedStateView, key_info: SectionKeyInfoView)
    requires
        forall|k: Seq<bool>| #[trigger]
            s.their_keys.contains_key(k) ==> !k.is_prefix_of(key_info.elders_info.prefix)
                && !key_info.elders_info.prefix.is_prefix_of(k),
    ensures
        ({
            let after = s.with_their_key(key_info);
            &&& after.their_keys == s.their_keys.insert(key_info.elders_info.prefix, key_info)
            &&& after.their_recent_keys == s.their_recent_keys
            &&& after.same_but_keys(s)
        }),
{
    assert(key_info.prefix() == key_info.elders_info.prefix);
    prefix_map::law_news_of_unknown_section_add_it(
        s.their_keys,
        key_info.prefix(),
        key_info,
        state_view::not_older(key_info),
    );
}

/// News of a key change nothing if the version that is known of the section, or of a larger section
/// that it was part of, is not lower, or if something is known of a part of the section.
pub proof fn law_key_of_lower_version_changes_nothing(
    s: SharedStateView,
    key_info: SectionKeyInfoView,
    k: Seq<bool>,
)
    requires
        s.their_keys.dom().finite(),
        prefix_map::none_inside_another(s.their_keys),
        s.their_keys.contains_key(k),
        (k.is_prefix_of(key_info.elders_info.prefix) && s.their_keys[k].elders_info.version
            >= key_info.elders_info.version) || (key_info.elders_info.prefix.is_prefix_of(k)
            && key_info.elders_info.prefix.len() < k.len()),
    ensures
        s.with_their_key(key_info) == s,
{
    assert(key_info.prefix() == key_info.elders_info.prefix);
    prefix_map::law_outdated_news_change_nothing(
        s.their_keys,
        key_info.prefix(),
        key_info,
        state_view::not_older(key_info),
        k,
    );
    assert(s.with_their_key(key_info) =~= s);
}

/// News of a higher version than the one that the section, or a larger section that it was part of,
/// knew of us. Every address of the section gets the new version, every other address of the larger
/// section keeps the old one, and all other sections keep theirs. Nothing else changes.
pub proof fn law_higher_version_replaces_knowledge(
    s: SharedStateView,
    p: Seq<bool>,
    version: u64,
    old_pfx: Seq<bool>,
    address: Seq<bool>,
)
    requires
        s.their_knowledge.dom().finite(),
        prefix_map::none_inside_another(s.their_knowledge),
        s.their_knowledge.contains_key(old_pfx),
        old_pfx.is_prefix_of(p),
        s.their_knowledge[old_pfx] < version,
        old_pfx.is_prefix_of(address),
        p.len() <= address.len(),
    ensures
        ({
            let old_version = s.their_knowledge[old_pfx];
            let after = s.with_their_knowledge(p, version);
            let expected = if p.is_prefix_of(address) {
                version
            } else {
                old_version
            };
            &&& after.their_knowledge.contains_pair(p, version)
            &&& old_pfx != p ==> !after.their_knowledge.contains_key(old_pfx)
            &&& prefix_map::known_at(after.their_knowledge, address, expected)
            &&& forall|k: Seq<bool>| #[trigger]
                s.their_knowledge.contains_key(k) && k != old_pfx
                    ==> after.their_knowledge.contains_pair(k, s.their_knowledge[k])
            &&& forall|k: Seq<bool>| #[trigger]
                after.their_knowledge.contains_key(k) && k != p && !s.their_knowledge.contains_key(
                    k,
                ) ==> {
                    &&& after.their_knowledge[k] == old_version
                    &&& old_pfx.is_prefix_of(k)
                    &&& k.len() > 0
                    &&& k.drop_last().is_prefix_of(p)
                    &&& !k.is_prefix_of(p)
                }
            &&& after == SharedStateView { their_knowledge: after.their_knowledge, ..s }
        }),
{
    let stale = state_view::at_least(version);
    assert(!stale(s.their_knowledge[old_pfx]));
    prefix_map::law_newer_news_replace(s.their_knowledge, p, version, stale, old_pfx);
    prefix_map::law_newer_news_lose_no_address(
        s.their_knowledge,
        p,
        version,
        stale,
        old_pfx,
        address,
    );
}

/// News of what a section knows of us, of which nothing is known, add it; news of a version that is
/// not higher, and news of a section of which a part is known, change nothing.
pub proof fn law_other_news_of_knowledge(
    s: SharedStateView,
    p: Seq<bool>,
    version: u64,
    k: Seq<bool>,
)
    requires
        s.their_knowledge.dom().finite(),
        prefix_map::none_inside_another(s.their_knowledge),
    ensures
        (forall|other: Seq<bool>| #[trigger]
            s.their_knowledge.contains_key(other) ==> !other.is_prefix_of(p)
                && !p.is_prefix_of(other)) ==> s.with_their_knowledge(p, version) == (
        SharedStateView { their_knowledge: s.their_knowledge.insert(p, version), ..s }),
        s.their_knowledge.contains_key(k) && ((k.is_prefix_of(p) && s.their_knowledge[k]
            >= version) || (p.is_prefix_of(k) && p.len() < k.len()))
            ==> s.with_their_knowledge(p, version) == s,
{
    let stale = state_view::at_least(version);
    if forall|other: Seq<bool>| #[trigger]
        s.their_knowledge.contains_key(other) ==> !other.is_prefix_of(p) && !p.is_prefix_of(other) {
        prefix_map::law_news_of_unknown_section_add_it(s.their_knowledge, p, version, stale);
    }
    if s.their_knowledge.contains_key(k) && ((k.is_prefix_of(p) && s.their_knowledge[k] >= version)
        || (p.is_prefix_of(k) && p.len() < k.len())) {
        prefix_map::law_outdated_news_change_nothing(s.their_knowledge, p, version, stale, k);
        assert(s.with_their_knowledge(p, version) =~= s);
    }
}

/// Where sections overlap, the first entry that is compatible with the section of the news decides
/// as well: if its version is not lower, or its prefix is longer, nothing changes.
pub proof fn law_first_compatible_key_stays(
    s: SharedStateView,
    key_info: SectionKeyInfoView,
    first: Seq<bool>,
)
    requires
        s.their_keys.contains_key(first),
        first.is_prefix_of(key_info.elders_info.prefix)
            || key_info.elders_info.prefix.is_prefix_of(first),
        forall|k: Seq<bool>| #[trigger]
            s.their_keys.contains_key(k) && k != first && (k.is_prefix_of(
                key_info.elders_info.prefix,
            ) || key_info.elders_info.prefix.is_prefix_of(k)) ==> Prefix::before(first, k),
        s.their_keys[first].elders_info.version >= key_info.elders_info.version || first.len()
            > key_info.elders_info.prefix.len(),
    ensures
        s.with_their_key(key_info) == s,
{
    let p = key_info.elders_info.prefix;
    assert(p == key_info.prefix());
    assert(prefix_map::is_first_compatible(s.their_keys, p, first));
    prefix_map::lemma_first_compatible(s.their_keys, p, first);
    assert(s.with_their_key(key_info) =~= s);
}

/// The same of what sections know of us: the first entry that is compatible with the section of the
/// news decides. If its version is lower and its prefix is not longer, the section gets the new
/// version; otherwise nothing changes.
pub proof fn law_first_compatible_knowledge_decides(
    s: SharedStateView,
    p: Seq<bool>,
    version: u64,
    first: Seq<bool>,
)
    requires
        s.their_knowledge.contains_key(first),
        first.is_prefix_of(p) || p.is_prefix_of(first),
        forall|k: Seq<bool>| #[trigger]
            s.their_knowledge.contains_key(k) && k != first && (k.is_prefix_of(p)
                || p.is_prefix_of(k)) ==> Prefix::before(first, k),
    ensures
        ({
            let after = s.with_their_knowledge(p, version);
            if s.their_knowledge[first] < version && first.len() <= p.len() {
                &&& after.their_knowledge.contains_pair(p, version)
                &&& first != p ==> !after.their_knowledge.contains_key(first)
                &&& after == SharedStateView { their_knowledge: after.their_knowledge, ..s }
            } else {
                after == s
            }
        }),
{
    let after = s.with_their_knowledge(p, version);
    assert(prefix_map::is_first_compatible(s.their_knowledge, p, first));
    prefix_map::lemma_first_compatible(s.their_knowledge, p, first);
    if s.their_knowledge[first] < version && first.len() <= p.len() {
        assert(!prefix::extends(first, p));
    } else {
        assert(after =~= s);
    }
}

} // verus!
