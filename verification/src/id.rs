//! Identities of nodes and how to reach them.

use vstd::prelude::*;

use crate::ordered_map::{KeyOrder, OrderedKey};
use crate::value::{duplicate_bytes, same_bytes, Value};
use crate::xor_name::{self, XorName};

verus! {

/// The network address of a peer. An address of the fourth version of the protocol stands in the
/// low 32 bits.
#[derive(Clone, Copy, Debug, PartialEq, Eq, Structural)]
pub struct PeerAddr {
    pub is_v6: bool,
    pub ip_high: u64,
    pub ip_low: u64,
    pub port: u16,
}

impl View for PeerAddr {
    type V = PeerAddr;

    open spec fn view(&self) -> PeerAddr {
        *self
    }
}

impl Value for PeerAddr {
    fn same(&self, other: &Self) -> (r: bool) {
        *self == *other
    }

    fn duplicate(&self) -> (r: Self) {
        *self
    }
}

/// What is needed to connect to a peer.
#[derive(Debug, PartialEq, Eq)]
pub struct ConnectionInfo {
    pub peer_addr: PeerAddr,
    pub peer_cert_der: Vec<u8>,
}

#[verifier::ext_equal]
pub struct ConnectionInfoView {
    pub peer_addr: PeerAddr,
    pub peer_cert_der: Seq<u8>,
}

impl View for ConnectionInfo {
    type V = ConnectionInfoView;

    open spec fn view(&self) -> ConnectionInfoView {
        ConnectionInfoView { peer_addr: self.peer_addr, peer_cert_der: self.peer_cert_der@ }
    }
}

impl Value for ConnectionInfo {
    fn same(&self, other: &Self) -> (r: bool) {
        self.peer_addr == other.peer_addr && same_bytes(&self.peer_cert_der, &other.peer_cert_der)
    }

    fn duplicate(&self) -> (r: Self) {
        ConnectionInfo {
            peer_addr: self.peer_addr,
            peer_cert_der: duplicate_bytes(&self.peer_cert_der),
        }
    }
}

/// The public identity of a node, told apart by its name.
#[derive(Clone, Copy, Debug, PartialEq, Eq)]
pub struct PublicId {
    name: XorName,
}

impl View for PublicId {
    type V = Seq<u8>;

    closed spec fn view(&self) -> Seq<u8> {
        self.name@
    }
}

impl PublicId {
    /// The identity with the given name.
    pub fn new(name: XorName) -> (r: Self)
        ensures
            r@ == name@,
    {
        PublicId { name }
    }

    /// The node's name.
    pub fn name(&self) -> (r: &XorName)
        ensures
            r@ == self@,
    {
        &self.name
    }
}

impl Value for PublicId {
    fn same(&self, other: &Self) -> (r: bool) {
        self.name.same(&other.name)
    }

    fn duplicate(&self) -> (r: Self) {
        *self
    }
}

impl OrderedKey for PublicId {
    open spec fn before(a: Seq<u8>, b: Seq<u8>) -> bool {
        xor_name::bytes_before(a, b)
    }

    proof fn before_irreflexive(a: Seq<u8>) {
        xor_name::lemma_bytes_before_irreflexive(a);
    }

    proof fn before_transitive(a: Seq<u8>, b: Seq<u8>, c: Seq<u8>) {
        xor_name::lemma_bytes_before_transitive(a, b, c);
    }

    proof fn before_total(a: Seq<u8>, b: Seq<u8>) {
        xor_name::lemma_bytes_before_total(a, b);
    }

    fn compare(&self, other: &Self) -> (r: KeyOrder) {
        xor_name::compare_bytes(&self.name.0, &other.name.0)
    }
}

/// A node's own identity: the public one and the secret keys that belong to it.
#[derive(Debug, PartialEq, Eq)]
pub struct FullId {
    public_id: PublicId,
    secret_keys: Vec<u8>,
}

#[verifier::ext_equal]
pub struct FullIdView {
    pub public_id: Seq<u8>,
    pub secret_keys: Seq<u8>,
}

impl View for FullId {
    type V = FullIdView;

    closed spec fn view(&self) -> FullIdView {
        FullIdView { public_id: self.public_id@, secret_keys: self.secret_keys@ }
    }
}

impl FullId {
    /// The identity made of the given parts.
    pub fn new(public_id: PublicId, secret_keys: Vec<u8>) -> (r: Self)
        ensures
            r@ == (FullIdView { public_id: public_id@, secret_keys: secret_keys@ }),
    {
        FullId { public_id, secret_keys }
    }

    /// The public part.
    pub fn public_id(&self) -> (r: &PublicId)
        ensures
            r@ == self@.public_id,
    {
        &self.public_id
    }
}

/// A node together with how to reach it.
#[derive(Debug, PartialEq, Eq)]
pub struct P2pNode {
    public_id: PublicId,
    connection_info: ConnectionInfo,
}

#[verifier::ext_equal]
pub struct P2pNodeView {
    pub public_id: Seq<u8>,
    pub connection_info: ConnectionInfoView,
}

impl View for P2pNode {
    type V = P2pNodeView;

    closed spec fn view(&self) -> P2pNodeView {
        P2pNodeView { public_id: self.public_id@, connection_info: self.connection_info@ }
    }
}

impl P2pNode {
    /// The node made of the given parts.
    pub fn new(public_id: PublicId, connection_info: ConnectionInfo) -> (r: Self)
        ensures
            r@ == (P2pNodeView { public_id: public_id@, connection_info: connection_info@ }),
    {
        P2pNode { public_id, connection_info }
    }

    /// The node's identity.
    pub fn public_id(&self) -> (r: &PublicId)
        ensures
            r@ == self@.public_id,
    {
        &self.public_id
    }

    /// How to reach the node.
    pub fn connection_info(&self) -> (r: &ConnectionInfo)
        ensures
            r@ == self@.connection_info,
    {
        &self.connection_info
    }
}

impl Value for P2pNode {
    fn same(&self, other: &Self) -> (r: bool) {
        self.public_id.same(&other.public_id) && self.connection_info.same(&other.connection_info)
    }

    fn duplicate(&self) -> (r: Self) {
        P2pNode {
            public_id: self.public_id,
            connection_info: self.connection_info.duplicate(),
        }
    }
}

} // verus!
