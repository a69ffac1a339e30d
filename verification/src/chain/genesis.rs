//! What the elders of a section hand to nodes that have no history of their own yet.

use std::collections::VecDeque;

use vstd::prelude::*;

use crate::chain::accumulating::AccumulatingEvent;
use crate::chain::elders_info::{EldersInfo, EldersInfoView, PlainEldersInfo, PlainEldersInfoView};
use crate::chain::member_info::{
    MemberInfo, MemberInfoView, PlainMemberInfo, PlainMemberInfoView,
};
use crate::chain::non_empty_list::NonEmptyList;
use crate::chain::proof_chain::{
    PlainSectionKeyInfo, PlainSectionKeyInfoView, PlainSectionProofChain,
    PlainSectionProofChainView, SectionKeyInfo, SectionKeyInfoView, SectionProofChain,
    SectionProofChainView,
};
use crate::encoding::{self, list_from_plain, queue_from_plain, Encoded};
use crate::id::PublicId;
use crate::ordered_map::{self, OrderedMap};
use crate::prefix::Prefix;
use crate::value;

verus! {

/// The parts of the shared state that all elders have in common from the genesis event on.
pub struct GenesisInfo {
    pub our_infos: NonEmptyList<EldersInfo>,
    pub our_history: SectionProofChain,
    pub our_members: OrderedMap<PublicId, MemberInfo>,
    pub neighbour_infos: OrderedMap<Prefix, EldersInfo>,
    pub their_keys: OrderedMap<Prefix, SectionKeyInfo>,
    pub their_knowledge: OrderedMap<Prefix, u64>,
    pub their_recent_keys: VecDeque<(Prefix, SectionKeyInfo)>,
    pub churn_event_backlog: VecDeque<AccumulatingEvent>,
}

#[verifier::ext_equal]
pub struct GenesisInfoView {
    pub our_infos: Seq<EldersInfoView>,
    pub our_history: SectionProofChainView,
    pub our_members: Map<Seq<u8>, MemberInfoView>,
    pub neighbour_infos: Map<Seq<bool>, EldersInfoView>,
    pub their_keys: Map<Seq<bool>, SectionKeyInfoView>,
    pub their_knowledge: Map<Seq<bool>, u64>,
    pub their_recent_keys: Seq<(Seq<bool>, SectionKeyInfoView)>,
    pub churn_event_backlog: Seq<Seq<u8>>,
}

impl View for GenesisInfo {
    type V = GenesisInfoView;

    open spec fn view(&self) -> GenesisInfoView {
        GenesisInfoView {
            our_infos: value::views(self.our_infos@),
            our_history: self.our_history@,
            our_members: self.our_members@,
            neighbour_infos: self.neighbour_infos@,
            their_keys: self.their_keys@,
            their_knowledge: self.their_knowledge@,
            their_recent_keys: value::views(self.their_recent_keys@),
            churn_event_backlog: value::views(self.churn_event_backlog@),
        }
    }
}

/// The plain form of a genesis info.
pub type PlainGenesisInfo = (
    (Vec<PlainEldersInfo>, PlainEldersInfo),
    PlainSectionProofChain,
    Vec<([u8; 32], PlainMemberInfo)>,
    Vec<(Vec<bool>, PlainEldersInfo)>,
    Vec<(Vec<bool>, PlainSectionKeyInfo)>,
    Vec<(Vec<bool>, u64)>,
    Vec<(Vec<bool>, PlainSectionKeyInfo)>,
    Vec<Vec<u8>>,
);

/// The view of the plain form of a genesis info.
pub type PlainGenesisInfoView = (
    (Seq<PlainEldersInfoView>, PlainEldersInfoView),
    PlainSectionProofChainView,
    Seq<(Seq<u8>, PlainMemberInfoView)>,
    Seq<(Seq<bool>, PlainEldersInfoView)>,
    Seq<(Seq<bool>, PlainSectionKeyInfoView)>,
    Seq<(Seq<bool>, u64)>,
    Seq<(Seq<bool>, PlainSectionKeyInfoView)>,
    Seq<Seq<u8>>,
);

impl GenesisInfoView {
    /// The plain form of the info.
    pub open spec fn encode(self) -> PlainGenesisInfoView {
        (
            (
                encoding::encode_list::<EldersInfo>(self.our_infos.drop_last()),
                EldersInfo::encode(self.our_infos.last()),
            ),
            SectionProofChain::encode(self.our_history),
            <OrderedMap<PublicId, MemberInfo> as Encoded>::encode(self.our_members),
            <OrderedMap<Prefix, EldersInfo> as Encoded>::encode(self.neighbour_infos),
            <OrderedMap<Prefix, SectionKeyInfo> as Encoded>::encode(self.their_keys),
            <OrderedMap<Prefix, u64> as Encoded>::encode(self.their_knowledge),
            encoding::encode_list::<(Prefix, SectionKeyInfo)>(self.their_recent_keys),
            encoding::encode_list::<AccumulatingEvent>(self.churn_event_backlog),
        )
    }

    /// The info that a plain form stands for.
    pub open spec fn decode(p: PlainGenesisInfoView) -> GenesisInfoView {
        GenesisInfoView {
            our_infos: encoding::decode_list::<EldersInfo>(p.0.0).push(EldersInfo::decode(p.0.1)),
            our_history: SectionProofChain::decode(p.1),
            our_members: <OrderedMap<PublicId, MemberInfo> as Encoded>::decode(p.2),
            neighbour_infos: <OrderedMap<Prefix, EldersInfo> as Encoded>::decode(p.3),
            their_keys: <OrderedMap<Prefix, SectionKeyInfo> as Encoded>::decode(p.4),
            their_knowledge: <OrderedMap<Prefix, u64> as Encoded>::decode(p.5),
            their_recent_keys: encoding::decode_list::<(Prefix, SectionKeyInfo)>(p.6),
            churn_event_backlog: encoding::decode_list::<AccumulatingEvent>(p.7),
        }
    }

    /// There is an info of our own section, and all collections are finite.
    pub open spec fn representable(self) -> bool {
        &&& self.our_infos.len() > 0
        &&& encoding::representable_list::<EldersInfo>(self.our_infos)
        &&& SectionProofChain::representable(self.our_history)
        &&& <OrderedMap<PublicId, MemberInfo> as Encoded>::representable(self.our_members)
        &&& <OrderedMap<Prefix, EldersInfo> as Encoded>::representable(self.neighbour_infos)
        &&& <OrderedMap<Prefix, SectionKeyInfo> as Encoded>::representable(self.their_keys)
        &&& <OrderedMap<Prefix, u64> as Encoded>::representable(self.their_knowledge)
        &&& encoding::representable_list::<(Prefix, SectionKeyInfo)>(self.their_recent_keys)
        &&& encoding::representable_list::<AccumulatingEvent>(self.churn_event_backlog)
    }
}

/// Decoding the plain form of a genesis info gives the info back.
pub proof fn law_decode_encode_genesis_info(info: GenesisInfoView)
    requires
        info.representable(),
    ensures
        GenesisInfoView::decode(info.encode()) == info,
{
    let head = info.our_infos.drop_last();
    assert forall|i: int| 0 <= i < head.len() implies EldersInfo::representable(
        #[trigger] head[i],
    ) by {
        assert(EldersInfo::representable(info.our_infos[i]));
    }
    encoding::lemma_decode_encode_list::<EldersInfo>(head);
    assert(EldersInfo::representable(info.our_infos[info.our_infos.len() - 1]));
    EldersInfo::decode_encode(info.our_infos.last());
    assert(head.push(info.our_infos.last()) =~= info.our_infos);
    SectionProofChain::decode_encode(info.our_history);
    <OrderedMap<PublicId, MemberInfo> as Encoded>::decode_encode(info.our_members);
    <OrderedMap<Prefix, EldersInfo> as Encoded>::decode_encode(info.neighbour_infos);
    <OrderedMap<Prefix, SectionKeyInfo> as Encoded>::decode_encode(info.their_keys);
    <OrderedMap<Prefix, u64> as Encoded>::decode_encode(info.their_knowledge);
    encoding::lemma_decode_encode_list::<(Prefix, SectionKeyInfo)>(info.their_recent_keys);
    encoding::lemma_decode_encode_list::<AccumulatingEvent>(info.churn_event_backlog);
}

impl GenesisInfo {
    /// The info that a plain form stands for.
    pub fn from_plain(p: &PlainGenesisInfo) -> (r: Self)
        ensures
            r@ == GenesisInfoView::decode(p.deep_view()),
    {
        let head: Vec<EldersInfo> = list_from_plain(&p.0.0);
        let last = EldersInfo::from_plain(&p.0.1);
        let our_infos = NonEmptyList::from_parts(head, last);
        assert(value::views(our_infos@) =~= value::views(head@).push(last@));
        GenesisInfo {
            our_infos,
            our_history: SectionProofChain::from_plain(&p.1),
            our_members: OrderedMap::from_plain(&p.2),
            neighbour_infos: OrderedMap::from_plain(&p.3),
            their_keys: OrderedMap::from_plain(&p.4),
            their_knowledge: OrderedMap::from_plain(&p.5),
            their_recent_keys: queue_from_plain(&p.6),
            churn_event_backlog: queue_from_plain(&p.7),
        }
    }
}

/// The lists of a genesis info have the plain forms of their entries at the same places, and its
/// maps an entry for each of their keys.
pub proof fn law_plain_form_of_genesis_info(info: GenesisInfoView, i: int)
    requires
        info.representable(),
    ensures
        ({
            let p = info.encode();
            let n = info.our_infos.len() as int;
            &&& p.0.0.len() == n - 1
            &&& 0 <= i < n - 1 ==> p.0.0[i] == EldersInfo::encode(info.our_infos[i])
            &&& p.0.1 == EldersInfo::encode(info.our_infos[n - 1])
            &&& p.1 == SectionProofChain::encode(info.our_history)
            &&& p.2.len() == info.our_members.dom().len()
            &&& 0 <= i < p.2.len() ==> info.our_members.contains_key(p.2[i].0) && p.2[i].1
                == MemberInfo::encode(info.our_members[p.2[i].0])
            &&& p.3.len() == info.neighbour_infos.dom().len()
            &&& 0 <= i < p.3.len() ==> info.neighbour_infos.contains_key(p.3[i].0) && p.3[i].1
                == EldersInfo::encode(info.neighbour_infos[p.3[i].0])
            &&& p.4.len() == info.their_keys.dom().len()
            &&& 0 <= i < p.4.len() ==> info.their_keys.contains_key(p.4[i].0) && p.4[i].1
                == SectionKeyInfo::encode(info.their_keys[p.4[i].0])
            &&& p.5.len() == info.their_knowledge.dom().len()
            &&& 0 <= i < p.5.len() ==> info.their_knowledge.contains_key(p.5[i].0) && p.5[i].1
                == info.their_knowledge[p.5[i].0]
            &&& p.6.len() == info.their_recent_keys.len()
            &&& 0 <= i < p.6.len() ==> p.6[i].0 == info.their_recent_keys[i].0 && p.6[i].1
                == SectionKeyInfo::encode(info.their_recent_keys[i].1)
            &&& p.7 == info.churn_event_backlog
        }),
{
    ordered_map::law_listing_has_every_entry_once::<PublicId, MemberInfoView>(info.our_members);
    ordered_map::law_listing_has_every_entry_once::<Prefix, EldersInfoView>(info.neighbour_infos);
    ordered_map::law_listing_has_every_entry_once::<Prefix, SectionKeyInfoView>(info.their_keys);
    ordered_map::law_listing_has_every_entry_once::<Prefix, u64>(info.their_knowledge);
    let members = ordered_map::listing::<PublicId, MemberInfoView>(info.our_members);
    let neighbours = ordered_map::listing::<Prefix, EldersInfoView>(info.neighbour_infos);
    let keys = ordered_map::listing::<Prefix, SectionKeyInfoView>(info.their_keys);
    let knowledge = ordered_map::listing::<Prefix, u64>(info.their_knowledge);
    if 0 <= i < members.len() {
        assert(info.our_members.contains_key(members[i].0));
    }
    if 0 <= i < neighbours.len() {
        assert(info.neighbour_infos.contains_key(neighbours[i].0));
    }
    if 0 <= i < keys.len() {
        assert(info.their_keys.contains_key(keys[i].0));
    }
    if 0 <= i < knowledge.len() {
        assert(info.their_knowledge.contains_key(knowledge[i].0));
    }
}

} // verus!
