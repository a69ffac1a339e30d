//! The members of a section.

use vstd::prelude::*;

use crate::encoding::{Encoded, PlainConnectionInfo};
use crate::id::{ConnectionInfo, ConnectionInfoView};
use crate::value::Value;

verus! {

/// Counts how long a node has been in the network.
#[derive(Clone, Copy, Debug, PartialEq, Eq, Structural)]
pub struct AgeCounter(pub u32);

/// The age counter that a node starts with.
pub const MIN_AGE_COUNTER: u32 = 16;

impl View for AgeCounter {
    type V = AgeCounter;

    open spec fn view(&self) -> AgeCounter {
        *self
    }
}

impl Value for AgeCounter {
    fn same(&self, other: &Self) -> (r: bool) {
        *self == *other
    }

    fn duplicate(&self) -> (r: Self) {
        *self
    }
}

/// Whether a member takes part in the section.
#[derive(Clone, Copy, Debug, PartialEq, Eq, Structural)]
pub enum MemberState {
    Joined,
    Left,
}

/// The role of a member.
#[derive(Clone, Copy, Debug, PartialEq, Eq, Structural)]
pub enum MemberPersona {
    Infant,
    Adult,
    Elder,
}

/// What a section knows of one of its members.
#[derive(Debug, PartialEq, Eq)]
pub struct MemberInfo {
    pub age_counter: AgeCounter,
    pub state: MemberState,
    pub connection_info: ConnectionInfo,
}

#[verifier::ext_equal]
pub struct MemberInfoView {
    pub age_counter: AgeCounter,
    pub state: MemberState,
    pub connection_info: ConnectionInfoView,
}

impl View for MemberInfo {
    type V = MemberInfoView;

    open spec fn view(&self) -> MemberInfoView {
        MemberInfoView {
            age_counter: self.age_counter,
            state: self.state,
            connection_info: self.connection_info@,
        }
    }
}

impl MemberInfoView {
    /// The member is older than a node that has just started.
    pub open spec fn is_mature(self) -> bool {
        self.age_counter.0 > MIN_AGE_COUNTER
    }
}

impl MemberInfo {
    /// Whether the member is older than a node that has just started.
    pub fn is_mature(&self) -> (r: bool)
        ensures
            r == self@.is_mature(),
    {
        self.age_counter.0 > MIN_AGE_COUNTER
    }
}

impl Value for MemberInfo {
    fn same(&self, other: &Self) -> (r: bool) {
        self.age_counter == other.age_counter && self.state == other.state
            && self.connection_info.same(&other.connection_info)
    }

    fn duplicate(&self) -> (r: Self) {
        MemberInfo {
            age_counter: self.age_counter,
            state: self.state,
            connection_info: self.connection_info.duplicate(),
        }
    }
}

/// The plain form of a member info: the age counter, whether the member has joined, and how to
/// reach it.
pub type PlainMemberInfo = (u32, bool, PlainConnectionInfo);

/// The view of the plain form of a member info.
pub type PlainMemberInfoView = (u32, bool, ((bool, u64, u64, u16), Seq<u8>));

impl Encoded for MemberInfo {
    type Plain = PlainMemberInfo;

    open spec fn encode(v: MemberInfoView) -> PlainMemberInfoView {
        (v.age_counter.0, v.state is Joined, ConnectionInfo::encode(v.connection_info))
    }

    open spec fn decode(p: PlainMemberInfoView) -> MemberInfoView {
        MemberInfoView {
            age_counter: AgeCounter(p.0),
            state: if p.1 {
                MemberState::Joined
            } else {
                MemberState::Left
            },
            connection_info: ConnectionInfo::decode(p.2),
        }
    }

    open spec fn representable(v: MemberInfoView) -> bool {
        true
    }

    proof fn decode_encode(v: MemberInfoView) {
    }

    fn to_plain(&self) -> (r: PlainMemberInfo) {
        let joined = self.state == MemberState::Joined;
        (self.age_counter.0, joined, self.connection_info.to_plain())
    }

    fn from_plain(p: &PlainMemberInfo) -> (r: Self) {
        MemberInfo {
            age_counter: AgeCounter(p.0),
            state: if p.1 {
                MemberState::Joined
            } else {
                MemberState::Left
            },
            connection_info: ConnectionInfo::from_plain(&p.2),
        }
    }
}

/// The plain form of a member's info has its age, whether it has joined, and where it is reached,
/// as they are.
pub proof fn law_plain_form_of_member(info: MemberInfoView)
    ensures
        ({
            let (age, joined, reached) = MemberInfo::encode(info);
            let addr = info.connection_info.peer_addr;
            &&& age == info.age_counter.0
            &&& joined <==> info.state == MemberState::Joined
            &&& reached.0 == (addr.is_v6, addr.ip_high, addr.ip_low, addr.port)
            &&& reached.1 == info.connection_info.peer_cert_der
        }),
{
}

} // verus!
