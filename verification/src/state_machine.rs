//! The states of a node and the steps between them.

use vstd::prelude::*;

use crate::chain::chain::{self, Chain, ChainView};
use crate::id::{ConnectionInfoView, PublicId};
use crate::messages::{Authority, AuthorityView, GenesisPfxInfo, GenesisPfxInfoView};
use crate::states::adult::Adult;
use crate::states::bootstrapping_peer::BootstrappingPeer;
use crate::states::elder::Elder;
use crate::states::joining_peer::JoiningPeer;
use crate::xor_name::{self, XorName};

verus! {

/// The state of a node.
pub enum State {
    BootstrappingPeer(BootstrappingPeer),
    JoiningPeer(JoiningPeer),
    Adult(Adult),
    Elder(Elder),
    Terminated,
}

/// What is to become of the state of a node.
pub enum Transition {
    /// It stays as it is.
    Stay,
    /// The node looks for the network again.
    Rebootstrap,
    /// The node becomes an adult of the section that has approved it.
    IntoAdult { gen_pfx_info: GenesisPfxInfo },
}

#[verifier::ext_equal]
pub enum TransitionView {
    Stay,
    Rebootstrap,
    IntoAdult { gen_pfx_info: GenesisPfxInfoView },
}

impl View for Transition {
    type V = TransitionView;

    open spec fn view(&self) -> TransitionView {
        match *self {
            Transition::Stay => TransitionView::Stay,
            Transition::Rebootstrap => TransitionView::Rebootstrap,
            Transition::IntoAdult { gen_pfx_info } => TransitionView::IntoAdult {
                gen_pfx_info: gen_pfx_info@,
            },
        }
    }
}

impl State {
    /// The id of the node, unless it has terminated.
    pub open spec fn spec_id(self) -> Option<Seq<u8>> {
        match self {
            State::BootstrappingPeer(peer) => Some(peer@.full_id.public_id),
            State::JoiningPeer(peer) => Some(peer@.full_id.public_id),
            State::Adult(adult) => Some(adult.details@.full_id.public_id),
            State::Elder(elder) => Some(elder@.full_id.public_id),
            State::Terminated => None,
        }
    }

    /// What the node knows of its section, if it is a member of one.
    pub open spec fn spec_chain(self) -> Option<ChainView> {
        match self {
            State::Adult(adult) => Some(adult.chain@),
            State::Elder(elder) => Some(elder@.chain),
            _ => None,
        }
    }

    /// The peers that the node knows how to reach.
    pub open spec fn spec_peers(self) -> Map<Seq<u8>, ConnectionInfoView> {
        match self {
            State::JoiningPeer(peer) => peer@.peer_map,
            State::Adult(adult) => adult.details@.peer_map,
            State::Elder(elder) => elder@.peer_map,
            _ => Map::empty(),
        }
    }

    /// The authority represents the node: itself, or its section if it is an elder.
    pub open spec fn spec_in_authority(self, authority: AuthorityView) -> bool {
        match self {
            State::Elder(elder) => elder@.chain.in_authority(authority),
            _ => self.spec_id() is Some && authority.is_node(self.spec_id()->0),
        }
    }

    /// The id of the node, unless it has terminated.
    pub fn id(&self) -> (r: Option<PublicId>)
        ensures
            match r {
                Some(id) => self.spec_id() == Some(id@),
                None => self.spec_id() is None,
            },
    {
        match self {
            State::BootstrappingPeer(peer) => Some(*peer.full_id().public_id()),
            State::JoiningPeer(peer) => Some(*peer.full_id().public_id()),
            State::Adult(adult) => Some(*adult.details.full_id.public_id()),
            State::Elder(elder) => Some(*elder.full_id.public_id()),
            State::Terminated => None,
        }
    }

    /// What the node knows of its section, if it is a member of one.
    pub fn chain(&self) -> (r: Option<&Chain>)
        ensures
            match r {
                Some(chain) => self.spec_chain() == Some(chain@),
                None => self.spec_chain() is None,
            },
    {
        match self {
            State::Adult(adult) => Some(&adult.chain),
            State::Elder(elder) => Some(&elder.chain),
            _ => None,
        }
    }

    /// The state of an elder, if the node is one.
    pub fn elder_state(&self) -> (r: Option<&Elder>)
        ensures
            r == (match *self {
                State::Elder(elder) => Some(&elder),
                _ => None,
            }),
    {
        match self {
            State::Elder(elder) => Some(elder),
            _ => None,
        }
    }

    /// The state of an elder, if the node is one, to be changed.
    pub fn elder_state_mut(&mut self) -> (r: Option<&mut Elder>)
        ensures
            match r {
                Some(elder) => *old(self) == State::Elder(*elder) && *final(self) == State::Elder(
                    *final(elder),
                ),
                None => !(*old(self) is Elder) && *final(self) == *old(self),
            },
    {
        match self {
            State::Elder(elder) => Some(elder),
            _ => None,
        }
    }

    /// Whether the node has the connection info of the peer with the given name.
    pub fn is_connected(&self, name: &XorName) -> (r: bool)
        ensures
            r == self.spec_peers().contains_key(name@),
    {
        let id = PublicId::new(*name);
        match self {
            State::JoiningPeer(peer) => peer.peer_map().get_connection_info(&id).is_some(),
            State::Adult(adult) => adult.details.peer_map.get_connection_info(&id).is_some(),
            State::Elder(elder) => elder.peer_map.get_connection_info(&id).is_some(),
            _ => false,
        }
    }

    /// Whether the authority represents the node.
    pub fn in_authority(&self, authority: &Authority) -> (r: bool)
        ensures
            r == self.spec_in_authority(authority@),
    {
        match self {
            State::Elder(elder) => elder.chain.in_authority(authority),
            _ => match self.id() {
                Some(id) => authority.is_node(id.name()),
                None => false,
            },
        }
    }
}

/// Holds the state of a node.
pub struct StateMachine {
    state: State,
}

impl StateMachine {
    /// The state that the node is in.
    pub closed spec fn spec_current(self) -> State {
        self.state
    }

    /// A machine in the given state.
    pub fn new(state: State) -> (r: Self)
        ensures
            r.spec_current() == state,
    {
        StateMachine { state }
    }

    /// The state that the node is in.
    pub fn current(&self) -> (r: &State)
        ensures
            *r == self.spec_current(),
    {
        &self.state
    }

    /// The state that the node is in, to be changed.
    pub fn current_mut(&mut self) -> (r: &mut State)
        ensures
            *r == old(self).spec_current(),
            final(self).spec_current() == *final(r),
    {
        &mut self.state
    }
}

/// A node that has terminated has no id, no section and no peers, and no authority represents it.
pub proof fn law_terminated_node(authority: AuthorityView, id: Seq<u8>)
    ensures
        State::Terminated.spec_id() is None,
        State::Terminated.spec_chain() is None,
        !State::Terminated.spec_peers().contains_key(id),
        !State::Terminated.spec_in_authority(authority),
{
}

/// A node that is no member of a section yet has the id that it was given, no section, and the
/// peers that it has met while it joins.
pub proof fn law_node_without_section(
    bootstrapping: BootstrappingPeer,
    joining: JoiningPeer,
    id: Seq<u8>,
)
    ensures
        ({
            let first = State::BootstrappingPeer(bootstrapping);
            let second = State::JoiningPeer(joining);
            &&& first.spec_id() == Some(bootstrapping@.full_id.public_id)
            &&& first.spec_chain() is None
            &&& !first.spec_peers().contains_key(id)
            &&& second.spec_id() == Some(joining@.full_id.public_id)
            &&& second.spec_chain() is None
            &&& second.spec_peers().contains_key(id) <==> joining@.peer_map.contains_key(id)
        }),
{
}

/// A joining peer that becomes an adult stays reachable under its id and keeps its peers, and from
/// then on knows its section.
pub proof fn law_adult_keeps_id_and_peers(
    peer: JoiningPeer,
    adult: Adult,
    gen_pfx_info: GenesisPfxInfoView,
)
    requires
        adult.details@ == peer@.adult_details(gen_pfx_info),
    ensures
        State::Adult(adult).spec_id() == State::JoiningPeer(peer).spec_id(),
        State::Adult(adult).spec_peers() == State::JoiningPeer(peer).spec_peers(),
        State::Adult(adult).spec_chain() == Some(adult.chain@),
{
}

/// An elder has its own id, section and peers.
pub proof fn law_elder_has_its_own(elder: Elder, id: Seq<u8>)
    ensures
        State::Elder(elder).spec_id() == Some(elder@.full_id.public_id),
        State::Elder(elder).spec_chain() == Some(elder@.chain),
        State::Elder(elder).spec_peers().contains_key(id) <==> elder@.peer_map.contains_key(id),
{
}

/// A node that is no elder is represented by no section, and by a node exactly if that is itself.
/// An elder is represented by the sections whose names its own prefix covers, by the prefixes that
/// agree with its own, and by the node of its id.
pub proof fn law_authorities_of_a_node(state: State, name: Seq<u8>, p: Seq<bool>)
    ensures
        !(state is Elder) ==> {
            &&& !state.spec_in_authority(AuthorityView::Section(name))
            &&& !state.spec_in_authority(AuthorityView::PrefixSection(p))
            &&& state.spec_in_authority(AuthorityView::Node(name)) <==> state.spec_id() == Some(
                name,
            )
        },
        state matches State::Elder(elder) ==> {
            let ours = elder@.chain.state.our_infos[elder@.chain.state.our_infos.len() - 1].prefix;
            let bits = xor_name::name_bits(name);
            &&& state.spec_in_authority(AuthorityView::Section(name)) <==> ours.len() <= bits.len()
                && forall|i: int| 0 <= i < ours.len() ==> ours[i] == bits[i]
            &&& state.spec_in_authority(AuthorityView::PrefixSection(p)) <==> forall|i: int|
                0 <= i < ours.len() && i < p.len() ==> ours[i] == p[i]
            &&& state.spec_in_authority(AuthorityView::Node(name)) <==> name == elder@.chain.our_id
        },
{
    if let State::Elder(elder) = state {
        chain::law_authorities_of_an_elder(elder@.chain, name, p);
    }
}

} // verus!
