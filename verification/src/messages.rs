//! Messages between nodes.

use vstd::prelude::*;

use crate::chain::elders_info::{EldersInfo, EldersInfoView};
use crate::chain::member_info::AgeCounter;
use crate::id::{ConnectionInfo, ConnectionInfoView, PublicId};
use crate::ordered_map::OrderedMap;
use crate::prefix::Prefix;
use crate::value::{duplicate_bytes, same_bytes, Value};
use crate::xor_name::XorName;

verus! {

/// Who a message is from or for.
pub enum Authority {
    /// The section closest to a name.
    Section(XorName),
    /// The sections with a prefix compatible to the given one.
    PrefixSection(Prefix),
    /// A single node.
    Node(XorName),
}

#[verifier::ext_equal]
pub enum AuthorityView {
    Section(Seq<u8>),
    PrefixSection(Seq<bool>),
    Node(Seq<u8>),
}

impl View for Authority {
    type V = AuthorityView;

    open spec fn view(&self) -> AuthorityView {
        match *self {
            Authority::Section(name) => AuthorityView::Section(name@),
            Authority::PrefixSection(prefix) => AuthorityView::PrefixSection(prefix@),
            Authority::Node(name) => AuthorityView::Node(name@),
        }
    }
}

impl AuthorityView {
    /// The authority is the single node of that name.
    pub open spec fn is_node(self, name: Seq<u8>) -> bool {
        self == AuthorityView::Node(name)
    }
}

impl Authority {
    /// Returns `true` if the authority is a single node.
    pub fn is_single(&self) -> (r: bool)
        ensures
            r == self@ is Node,
    {
        match self {
            Authority::Node(_) => true,
            _ => false,
        }
    }

    /// Returns `true` if the authority is the single node of the given name.
    pub fn is_node(&self, name: &XorName) -> (r: bool)
        ensures
            r == self@.is_node(name@),
    {
        match self {
            Authority::Node(own) => own.same(name),
            _ => false,
        }
    }
}

impl Value for Authority {
    fn same(&self, other: &Self) -> (r: bool) {
        match (self, other) {
            (Authority::Section(a), Authority::Section(b)) => a.same(b),
            (Authority::PrefixSection(a), Authority::PrefixSection(b)) => a.same(b),
            (Authority::Node(a), Authority::Node(b)) => a.same(b),
            _ => false,
        }
    }

    fn duplicate(&self) -> (r: Self) {
        match self {
            Authority::Section(name) => Authority::Section(*name),
            Authority::PrefixSection(prefix) => Authority::PrefixSection(prefix.duplicate()),
            Authority::Node(name) => Authority::Node(*name),
        }
    }
}

/// What a new member of a section needs to know of it.
pub struct GenesisPfxInfo {
    pub first_info: EldersInfo,
    pub first_state_serialized: Vec<u8>,
    pub first_ages: OrderedMap<PublicId, AgeCounter>,
    pub latest_info: EldersInfo,
}

#[verifier::ext_equal]
pub struct GenesisPfxInfoView {
    pub first_info: EldersInfoView,
    pub first_state_serialized: Seq<u8>,
    pub first_ages: Map<Seq<u8>, AgeCounter>,
    pub latest_info: EldersInfoView,
}

impl View for GenesisPfxInfo {
    type V = GenesisPfxInfoView;

    open spec fn view(&self) -> GenesisPfxInfoView {
        GenesisPfxInfoView {
            first_info: self.first_info@,
            first_state_serialized: self.first_state_serialized@,
            first_ages: self.first_ages@,
            latest_info: self.latest_info@,
        }
    }
}

impl Value for GenesisPfxInfo {
    fn same(&self, other: &Self) -> (r: bool) {
        self.first_info.same(&other.first_info) && same_bytes(
            &self.first_state_serialized,
            &other.first_state_serialized,
        ) && self.first_ages.same(&other.first_ages) && self.latest_info.same(&other.latest_info)
    }

    fn duplicate(&self) -> (r: Self) {
        GenesisPfxInfo {
            first_info: self.first_info.duplicate(),
            first_state_serialized: duplicate_bytes(&self.first_state_serialized),
            first_ages: self.first_ages.duplicate(),
            latest_info: self.latest_info.duplicate(),
        }
    }
}

/// What a routing message says.
pub enum MessageContent {
    /// The node is approved to join the section.
    NodeApproval(GenesisPfxInfo),
    /// The sender asks the recipient to connect.
    ConnectionRequest { conn_info: ConnectionInfo, pub_id: PublicId, msg_id: u64 },
    /// Anything else, in its serialised form.
    Other(Vec<u8>),
}

#[verifier::ext_equal]
pub enum MessageContentView {
    NodeApproval(GenesisPfxInfoView),
    ConnectionRequest { conn_info: ConnectionInfoView, pub_id: Seq<u8>, msg_id: u64 },
    Other(Seq<u8>),
}

impl View for MessageContent {
    type V = MessageContentView;

    open spec fn view(&self) -> MessageContentView {
        match *self {
            MessageContent::NodeApproval(info) => MessageContentView::NodeApproval(info@),
            MessageContent::ConnectionRequest { conn_info, pub_id, msg_id } =>
                MessageContentView::ConnectionRequest {
                conn_info: conn_info@,
                pub_id: pub_id@,
                msg_id,
            },
            MessageContent::Other(bytes) => MessageContentView::Other(bytes@),
        }
    }
}

impl Value for MessageContent {
    fn same(&self, other: &Self) -> (r: bool) {
        match (self, other) {
            (MessageContent::NodeApproval(a), MessageContent::NodeApproval(b)) => a.same(b),
            (
                MessageContent::ConnectionRequest { conn_info, pub_id, msg_id },
                MessageContent::ConnectionRequest {
                    conn_info: other_info,
                    pub_id: other_id,
                    msg_id: other_msg_id,
                },
            ) => conn_info.same(other_info) && pub_id.same(other_id) && *msg_id == *other_msg_id,
            (MessageContent::Other(a), MessageContent::Other(b)) => same_bytes(a, b),
            _ => false,
        }
    }

    fn duplicate(&self) -> (r: Self) {
        match self {
            MessageContent::NodeApproval(info) => MessageContent::NodeApproval(info.duplicate()),
            MessageContent::ConnectionRequest { conn_info, pub_id, msg_id } =>
                MessageContent::ConnectionRequest {
                conn_info: conn_info.duplicate(),
                pub_id: *pub_id,
                msg_id: *msg_id,
            },
            MessageContent::Other(bytes) => MessageContent::Other(duplicate_bytes(bytes)),
        }
    }
}

/// A message that is routed through the network.
pub struct RoutingMessage {
    pub src: Authority,
    pub dst: Authority,
    pub content: MessageContent,
}

#[verifier::ext_equal]
pub struct RoutingMessageView {
    pub src: AuthorityView,
    pub dst: AuthorityView,
    pub content: MessageContentView,
}

impl View for RoutingMessage {
    type V = RoutingMessageView;

    open spec fn view(&self) -> RoutingMessageView {
        RoutingMessageView { src: self.src@, dst: self.dst@, content: self.content@ }
    }
}

impl Value for RoutingMessage {
    fn same(&self, other: &Self) -> (r: bool) {
        self.src.same(&other.src) && self.dst.same(&other.dst) && self.content.same(&other.content)
    }

    fn duplicate(&self) -> (r: Self) {
        RoutingMessage {
            src: self.src.duplicate(),
            dst: self.dst.duplicate(),
            content: self.content.duplicate(),
        }
    }
}

/// The proofs that come with a routing message, in the form in which they are exchanged.
pub struct SecurityMetadata {
    pub bytes: Vec<u8>,
}

impl View for SecurityMetadata {
    type V = Seq<u8>;

    open spec fn view(&self) -> Seq<u8> {
        self.bytes@
    }
}

/// A routing message with the proofs that it is from its source.
pub struct SignedRoutingMessage {
    content: RoutingMessage,
    security_metadata: SecurityMetadata,
}

#[verifier::ext_equal]
pub struct SignedRoutingMessageView {
    pub content: RoutingMessageView,
    pub security_metadata: Seq<u8>,
}

impl View for SignedRoutingMessage {
    type V = SignedRoutingMessageView;

    closed spec fn view(&self) -> SignedRoutingMessageView {
        SignedRoutingMessageView {
            content: self.content@,
            security_metadata: self.security_metadata@,
        }
    }
}

impl SignedRoutingMessage {
    /// The message made of the given parts.
    pub fn from_parts(content: RoutingMessage, security_metadata: SecurityMetadata) -> (r: Self)
        ensures
            r@ == (SignedRoutingMessageView {
                content: content@,
                security_metadata: security_metadata@,
            }),
    {
        SignedRoutingMessage { content, security_metadata }
    }

    /// The parts that the message is made of.
    pub fn into_parts(self) -> (r: (RoutingMessage, SecurityMetadata))
        ensures
            r.0@ == self@.content,
            r.1@ == self@.security_metadata,
    {
        (self.content, self.security_metadata)
    }

    /// The message without the proofs.
    pub fn routing_message(&self) -> (r: &RoutingMessage)
        ensures
            r@ == self@.content,
    {
        &self.content
    }
}

/// A message on its way from one node to the next.
pub struct HopMessage {
    pub content: SignedRoutingMessage,
}

/// The reason why a node joins a section other than the one it was in.
pub struct RelocatePayload {
    pub bytes: Vec<u8>,
}

impl View for RelocatePayload {
    type V = Seq<u8>;

    open spec fn view(&self) -> Seq<u8> {
        self.bytes@
    }
}

/// The view of what a node that is relocated hands in.
pub open spec fn payload_view(payload: Option<RelocatePayload>) -> Option<Seq<u8>> {
    match payload {
        Some(p) => Some(p@),
        None => None,
    }
}

/// A copy of what a node that is relocated hands in.
pub fn duplicate_payload(payload: &Option<RelocatePayload>) -> (r: Option<RelocatePayload>)
    ensures
        payload_view(r) == payload_view(*payload),
{
    match payload {
        Some(p) => Some(RelocatePayload { bytes: duplicate_bytes(&p.bytes) }),
        None => None,
    }
}

/// A message from a node to a node that it is connected to.
pub enum DirectMessage {
    /// The sender asks to join the section of the recipient.
    JoinRequest(Option<RelocatePayload>),
    /// The answer to a connection request.
    ConnectionResponse,
    /// Anything else, in its serialised form.
    Other(Vec<u8>),
}

#[verifier::ext_equal]
pub enum DirectMessageView {
    JoinRequest(Option<Seq<u8>>),
    ConnectionResponse,
    Other(Seq<u8>),
}

impl View for DirectMessage {
    type V = DirectMessageView;

    open spec fn view(&self) -> DirectMessageView {
        match *self {
            DirectMessage::JoinRequest(payload) => DirectMessageView::JoinRequest(
                payload_view(payload),
            ),
            DirectMessage::ConnectionResponse => DirectMessageView::ConnectionResponse,
            DirectMessage::Other(bytes) => DirectMessageView::Other(bytes@),
        }
    }
}

/// An authority is the node of a name exactly if it is a single node and has that name.
pub proof fn law_authority_of_a_node(authority: AuthorityView, name: Seq<u8>)
    ensures
        authority.is_node(name) <==> authority is Node && authority->Node_0 == name,
{
}

} // verus!
