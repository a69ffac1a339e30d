//! Plain forms of the library's values: tuples, lists, numbers and byte arrays, ready to be turned
//! into bytes.

use std::collections::VecDeque;

use vstd::prelude::*;

use crate::id::{ConnectionInfo, ConnectionInfoView, P2pNode, P2pNodeView, PeerAddr, PublicId};
use crate::ordered_map::{self, OrderedKey, OrderedMap, OrderedSet};
use crate::prefix::Prefix;
use crate::value::{self, duplicate_bytes, Value};
use crate::xor_name::{Digest256, XorName};

verus! {

/// A value with a plain form. Decoding undoes encoding.
pub trait Encoded: Value {
    /// The type of the plain form.
    type Plain: DeepView;

    /// The plain form of a value.
    spec fn encode(v: Self::V) -> <Self::Plain as DeepView>::V;

    /// The value that a plain form stands for.
    spec fn decode(p: <Self::Plain as DeepView>::V) -> Self::V;

    /// The collections in the value are finite, as those of every value in memory are.
    spec fn representable(v: Self::V) -> bool;

    proof fn decode_encode(v: Self::V)
        requires
            Self::representable(v),
        ensures
            Self::decode(Self::encode(v)) == v,
    ;

    /// The plain form of this value.
    fn to_plain(&self) -> (r: Self::Plain)
        ensures
            r.deep_view() == Self::encode(self@),
            Self::representable(self@),
    ;

    /// The value that the plain form stands for.
    fn from_plain(p: &Self::Plain) -> (r: Self)
        ensures
            r@ == Self::decode(p.deep_view()),
    ;
}

/// The plain forms of a list of values.
pub open spec fn encode_list<T: Encoded>(list: Seq<T::V>) -> Seq<<T::Plain as DeepView>::V> {
    Seq::new(list.len(), |i: int| T::encode(list[i]))
}

/// The values that a list of plain forms stands for.
pub open spec fn decode_list<T: Encoded>(list: Seq<<T::Plain as DeepView>::V>) -> Seq<T::V> {
    Seq::new(list.len(), |i: int| T::decode(list[i]))
}

/// Every value of the list is representable.
pub open spec fn representable_list<T: Encoded>(list: Seq<T::V>) -> bool {
    forall|i: int| 0 <= i < list.len() ==> T::representable(#[trigger] list[i])
}

pub proof fn lemma_decode_encode_list<T: Encoded>(list: Seq<T::V>)
    requires
        representable_list::<T>(list),
    ensures
        decode_list::<T>(encode_list::<T>(list)) == list,
{
    let back = decode_list::<T>(encode_list::<T>(list));
    assert forall|i: int| 0 <= i < list.len() implies back[i] == list[i] by {
        assert(T::representable(list[i]));
        T::decode_encode(list[i]);
    }
    assert(back =~= list);
}

/// The plain forms of the items of a list.
pub fn list_to_plain<T: Encoded>(list: &Vec<T>) -> (r: Vec<T::Plain>)
    ensures
        r.deep_view() == encode_list::<T>(value::views(list@)),
        representable_list::<T>(value::views(list@)),
{
    let mut r: Vec<T::Plain> = Vec::new();
    let ghost vs = value::views(list@);
    for i in 0..list.len()
        invariant
            r@.len() == i,
            forall|j: int|
                0 <= j < i ==> (#[trigger] r@[j]).deep_view() == T::encode(list@[j]@),
            forall|j: int| 0 <= j < i ==> T::representable((#[trigger] list@[j])@),
    {
        r.push(list[i].to_plain());
    }
    assert forall|i: int| 0 <= i < vs.len() implies T::representable(#[trigger] vs[i]) by {
        assert(T::representable(list@[i]@));
    }
    assert(r.deep_view() =~= encode_list::<T>(vs));
    r
}

/// The values that a list of plain forms stands for.
pub fn list_from_plain<T: Encoded>(list: &Vec<T::Plain>) -> (r: Vec<T>)
    ensures
        value::views(r@) == decode_list::<T>(list.deep_view()),
{
    let mut r: Vec<T> = Vec::new();
    for i in 0..list.len()
        invariant
            r@.len() == i,
            forall|j: int|
                0 <= j < i ==> (#[trigger] r@[j])@ == T::decode(list@[j].deep_view()),
    {
        r.push(T::from_plain(&list[i]));
    }
    assert(value::views(r@) =~= decode_list::<T>(list.deep_view()));
    r
}

/// The plain forms of the items of a queue.
pub fn queue_to_plain<T: Encoded>(queue: &VecDeque<T>) -> (r: Vec<T::Plain>)
    ensures
        r.deep_view() == encode_list::<T>(value::views(queue@)),
        representable_list::<T>(value::views(queue@)),
{
    let mut r: Vec<T::Plain> = Vec::new();
    let ghost vs = value::views(queue@);
    for i in 0..queue.len()
        invariant
            r@.len() == i,
            forall|j: int|
                0 <= j < i ==> (#[trigger] r@[j]).deep_view() == T::encode(queue@[j]@),
            forall|j: int| 0 <= j < i ==> T::representable((#[trigger] queue@[j])@),
    {
        r.push(queue[i].to_plain());
    }
    assert forall|i: int| 0 <= i < vs.len() implies T::representable(#[trigger] vs[i]) by {
        assert(T::representable(queue@[i]@));
    }
    assert(r.deep_view() =~= encode_list::<T>(vs));
    r
}

/// The queue of the values that a list of plain forms stands for.
pub fn queue_from_plain<T: Encoded>(list: &Vec<T::Plain>) -> (r: VecDeque<T>)
    ensures
        value::views(r@) == decode_list::<T>(list.deep_view()),
{
    let mut r: VecDeque<T> = VecDeque::new();
    for i in 0..list.len()
        invariant
            r@.len() == i,
            forall|j: int|
                0 <= j < i ==> (#[trigger] r@[j])@ == T::decode(list@[j].deep_view()),
    {
        r.push_back(T::from_plain(&list[i]));
    }
    assert(value::views(r@) =~= decode_list::<T>(list.deep_view()));
    r
}

impl Encoded for u64 {
    type Plain = u64;

    open spec fn encode(v: u64) -> u64 {
        v
    }

    open spec fn decode(p: u64) -> u64 {
        p
    }

    open spec fn representable(v: u64) -> bool {
        true
    }

    proof fn decode_encode(v: u64) {
    }

    fn to_plain(&self) -> (r: u64) {
        *self
    }

    fn from_plain(p: &u64) -> (r: Self) {
        *p
    }
}

impl<A: Encoded, B: Encoded> Encoded for (A, B) {
    type Plain = (A::Plain, B::Plain);

    open spec fn encode(v: (A::V, B::V)) -> (<A::Plain as DeepView>::V, <B::Plain as DeepView>::V) {
        (A::encode(v.0), B::encode(v.1))
    }

    open spec fn decode(p: (<A::Plain as DeepView>::V, <B::Plain as DeepView>::V)) -> (A::V, B::V) {
        (A::decode(p.0), B::decode(p.1))
    }

    open spec fn representable(v: (A::V, B::V)) -> bool {
        A::representable(v.0) && B::representable(v.1)
    }

    proof fn decode_encode(v: (A::V, B::V)) {
        A::decode_encode(v.0);
        B::decode_encode(v.1);
    }

    fn to_plain(&self) -> (r: (A::Plain, B::Plain)) {
        (self.0.to_plain(), self.1.to_plain())
    }

    fn from_plain(p: &(A::Plain, B::Plain)) -> (r: Self) {
        (A::from_plain(&p.0), B::from_plain(&p.1))
    }
}

impl Encoded for PublicId {
    type Plain = [u8; 32];

    open spec fn encode(v: Seq<u8>) -> Seq<u8> {
        v
    }

    open spec fn decode(p: Seq<u8>) -> Seq<u8> {
        p
    }

    open spec fn representable(v: Seq<u8>) -> bool {
        true
    }

    proof fn decode_encode(v: Seq<u8>) {
    }

    fn to_plain(&self) -> (r: [u8; 32]) {
        let r = self.name().0;
        assert(r.deep_view() =~= r@);
        r
    }

    fn from_plain(p: &[u8; 32]) -> (r: Self) {
        assert(p.deep_view() =~= p@);
        PublicId::new(XorName(*p))
    }
}

impl Encoded for Digest256 {
    type Plain = [u8; 32];

    open spec fn encode(v: Seq<u8>) -> Seq<u8> {
        v
    }

    open spec fn decode(p: Seq<u8>) -> Seq<u8> {
        p
    }

    open spec fn representable(v: Seq<u8>) -> bool {
        true
    }

    proof fn decode_encode(v: Seq<u8>) {
    }

    fn to_plain(&self) -> (r: [u8; 32]) {
        let r = self.0;
        assert(r.deep_view() =~= r@);
        r
    }

    fn from_plain(p: &[u8; 32]) -> (r: Self) {
        assert(p.deep_view() =~= p@);
        Digest256(*p)
    }
}

impl Encoded for Prefix {
    type Plain = Vec<bool>;

    open spec fn encode(v: Seq<bool>) -> Seq<bool> {
        v
    }

    open spec fn decode(p: Seq<bool>) -> Seq<bool> {
        p
    }

    open spec fn representable(v: Seq<bool>) -> bool {
        true
    }

    proof fn decode_encode(v: Seq<bool>) {
    }

    fn to_plain(&self) -> (r: Vec<bool>) {
        let r = self.to_bits();
        assert(r.deep_view() =~= Prefix::encode(self@));
        assert(Prefix::representable(self@));
        r
    }

    fn from_plain(p: &Vec<bool>) -> (r: Self) {
        assert(p.deep_view() =~= p@);
        Prefix::from_bits(p)
    }
}

/// The plain form of a connection info.
pub type PlainConnectionInfo = ((bool, u64, u64, u16), Vec<u8>);

impl Encoded for ConnectionInfo {
    type Plain = PlainConnectionInfo;

    open spec fn encode(v: ConnectionInfoView) -> ((bool, u64, u64, u16), Seq<u8>) {
        let addr = v.peer_addr;
        ((addr.is_v6, addr.ip_high, addr.ip_low, addr.port), v.peer_cert_der)
    }

    open spec fn decode(p: ((bool, u64, u64, u16), Seq<u8>)) -> ConnectionInfoView {
        ConnectionInfoView {
            peer_addr: PeerAddr {
                is_v6: p.0.0,
                ip_high: p.0.1,
                ip_low: p.0.2,
                port: p.0.3,
            },
            peer_cert_der: p.1,
        }
    }

    open spec fn representable(v: ConnectionInfoView) -> bool {
        true
    }

    proof fn decode_encode(v: ConnectionInfoView) {
    }

    fn to_plain(&self) -> (r: PlainConnectionInfo) {
        let addr = self.peer_addr;
        let cert = duplicate_bytes(&self.peer_cert_der);
        assert(cert.deep_view() =~= cert@);
        let plain_addr = (addr.is_v6, addr.ip_high, addr.ip_low, addr.port);
        assert(plain_addr.deep_view() == plain_addr);
        (plain_addr, cert)
    }

    fn from_plain(p: &PlainConnectionInfo) -> (r: Self) {
        assert(p.0.deep_view() == p.0);
        assert(p.1.deep_view() =~= p.1@);
        ConnectionInfo {
            peer_addr: PeerAddr {
                is_v6: p.0.0,
                ip_high: p.0.1,
                ip_low: p.0.2,
                port: p.0.3,
            },
            peer_cert_der: duplicate_bytes(&p.1),
        }
    }
}

/// The plain form of a node.
pub type PlainP2pNode = ([u8; 32], PlainConnectionInfo);

impl Encoded for P2pNode {
    type Plain = PlainP2pNode;

    open spec fn encode(v: P2pNodeView) -> (Seq<u8>, ((bool, u64, u64, u16), Seq<u8>)) {
        (v.public_id, ConnectionInfo::encode(v.connection_info))
    }

    open spec fn decode(p: (Seq<u8>, ((bool, u64, u64, u16), Seq<u8>))) -> P2pNodeView {
        P2pNodeView { public_id: p.0, connection_info: ConnectionInfo::decode(p.1) }
    }

    open spec fn representable(v: P2pNodeView) -> bool {
        true
    }

    proof fn decode_encode(v: P2pNodeView) {
    }

    fn to_plain(&self) -> (r: PlainP2pNode) {
        (self.public_id().to_plain(), self.connection_info().to_plain())
    }

    fn from_plain(p: &PlainP2pNode) -> (r: Self) {
        P2pNode::new(PublicId::from_plain(&p.0), ConnectionInfo::from_plain(&p.1))
    }
}

impl<K: Encoded + OrderedKey, V: Encoded> Encoded for OrderedMap<K, V> {
    type Plain = Vec<(K::Plain, V::Plain)>;

    open spec fn encode(v: Map<K::V, V::V>) -> Seq<
        (<K::Plain as DeepView>::V, <V::Plain as DeepView>::V),
    > {
        encode_list::<(K, V)>(ordered_map::listing::<K, V::V>(v))
    }

    open spec fn decode(
        p: Seq<(<K::Plain as DeepView>::V, <V::Plain as DeepView>::V)>,
    ) -> Map<K::V, V::V> {
        ordered_map::map_of(decode_list::<(K, V)>(p))
    }

    open spec fn representable(v: Map<K::V, V::V>) -> bool {
        v.dom().finite() && representable_list::<(K, V)>(ordered_map::listing::<K, V::V>(v))
    }

    proof fn decode_encode(v: Map<K::V, V::V>) {
        lemma_decode_encode_list::<(K, V)>(ordered_map::listing::<K, V::V>(v));
        ordered_map::lemma_listing::<K, V::V>(v);
    }

    fn to_plain(&self) -> (r: Vec<(K::Plain, V::Plain)>) {
        let mut r: Vec<(K::Plain, V::Plain)> = Vec::new();
        let len = self.len();
        let ghost list = ordered_map::listing::<K, V::V>(self@);
        for i in 0..len
            invariant
                list == ordered_map::listing::<K, V::V>(self@),
                len == list.len(),
                r@.len() == i,
                forall|j: int|
                    0 <= j < i ==> (#[trigger] r@[j]).deep_view() == (
                        K::encode(list[j].0),
                        V::encode(list[j].1),
                    ),
                forall|j: int|
                    0 <= j < i ==> <(K, V) as Encoded>::representable(#[trigger] list[j]),
        {
            let (k, v) = self.entry_at(i);
            r.push((k.to_plain(), v.to_plain()));
        }
        assert(r.deep_view() =~= encode_list::<(K, V)>(list));
        r
    }

    fn from_plain(p: &Vec<(K::Plain, V::Plain)>) -> (r: Self) {
        let mut r: OrderedMap<K, V> = OrderedMap::new();
        let ghost list = decode_list::<(K, V)>(p.deep_view());
        for i in 0..p.len()
            invariant
                list == decode_list::<(K, V)>(p.deep_view()),
                r@ == ordered_map::map_of(list.take(i as int)),
        {
            let k = K::from_plain(&p[i].0);
            let v = V::from_plain(&p[i].1);
            proof {
                assert(list.take(i + 1).drop_last() =~= list.take(i as int));
                assert(list.take(i + 1).last() == list[i as int]);
                assert(p.deep_view()[i as int] == p@[i as int].deep_view());
                assert(list[i as int] == (k@, v@));
            }
            r.insert(k, v);
        }
        assert(list.take(p@.len() as int) =~= list);
        r
    }
}

impl<K: Encoded + OrderedKey> Encoded for OrderedSet<K> {
    type Plain = Vec<K::Plain>;

    open spec fn encode(v: Set<K::V>) -> Seq<<K::Plain as DeepView>::V> {
        encode_list::<K>(ordered_map::set_listing::<K>(v))
    }

    open spec fn decode(p: Seq<<K::Plain as DeepView>::V>) -> Set<K::V> {
        decode_list::<K>(p).to_set()
    }

    open spec fn representable(v: Set<K::V>) -> bool {
        v.finite() && representable_list::<K>(ordered_map::set_listing::<K>(v))
    }

    proof fn decode_encode(v: Set<K::V>) {
        lemma_decode_encode_list::<K>(ordered_map::set_listing::<K>(v));
        ordered_map::lemma_set_listing::<K>(v);
    }

    fn to_plain(&self) -> (r: Vec<K::Plain>) {
        let mut r: Vec<K::Plain> = Vec::new();
        let len = self.len();
        let ghost list = ordered_map::set_listing::<K>(self@);
        for i in 0..len
            invariant
                list == ordered_map::set_listing::<K>(self@),
                len == list.len(),
                r@.len() == i,
                forall|j: int| 0 <= j < i ==> (#[trigger] r@[j]).deep_view() == K::encode(list[j]),
                forall|j: int| 0 <= j < i ==> K::representable(#[trigger] list[j]),
        {
            r.push(self.member_at(i).to_plain());
        }
        assert(r.deep_view() =~= encode_list::<K>(list));
        r
    }

    fn from_plain(p: &Vec<K::Plain>) -> (r: Self) {
        let mut r: OrderedSet<K> = OrderedSet::new();
        let ghost list = decode_list::<K>(p.deep_view());
        assert(list.take(0).to_set() =~= Set::<K::V>::empty());
        for i in 0..p.len()
            invariant
                list == decode_list::<K>(p.deep_view()),
                r@ == list.take(i as int).to_set(),
        {
            let k = K::from_plain(&p[i]);
            proof {
                assert(p.deep_view()[i as int] == p@[i as int].deep_view());
                assert(list[i as int] == k@);
                assert(list.take(i + 1) =~= list.take(i as int).push(k@));
                list.take(i as int).lemma_push_to_set_commute(k@);
            }
            r.insert(k);
        }
        assert(list.take(p@.len() as int) =~= list);
        r
    }
}

} // verus!
