//! Names of nodes and hashes of section infos: strings of 256 bits.

use vstd::prelude::*;

use crate::ordered_map::{self, KeyOrder, OrderedKey};
use crate::value::Value;

verus! {

/// The number of bytes of a name or a hash.
pub const XOR_NAME_LEN: usize = 32;

/// The bytes as numbers.
pub open spec fn byte_ranks(s: Seq<u8>) -> Seq<int> {
    Seq::new(s.len(), |i: int| s[i] as int)
}

/// Lexicographic order of byte strings.
pub open spec fn bytes_before(a: Seq<u8>, b: Seq<u8>) -> bool {
    ordered_map::lexicographic(byte_ranks(a), byte_ranks(b))
}

pub proof fn lemma_bytes_before_irreflexive(a: Seq<u8>)
    ensures
        !bytes_before(a, a),
{
    ordered_map::lemma_lexicographic_irreflexive(byte_ranks(a));
}

pub proof fn lemma_bytes_before_transitive(a: Seq<u8>, b: Seq<u8>, c: Seq<u8>)
    requires
        bytes_before(a, b),
        bytes_before(b, c),
    ensures
        bytes_before(a, c),
{
    ordered_map::lemma_lexicographic_transitive(byte_ranks(a), byte_ranks(b), byte_ranks(c));
}

pub proof fn lemma_bytes_before_total(a: Seq<u8>, b: Seq<u8>)
    ensures
        a == b || bytes_before(a, b) || bytes_before(b, a),
{
    ordered_map::lemma_lexicographic_total(byte_ranks(a), byte_ranks(b));
    if byte_ranks(a) == byte_ranks(b) {
        assert(a.len() == byte_ranks(a).len());
        assert(b.len() == byte_ranks(b).len());
        assert forall|i: int| 0 <= i < a.len() implies a[i] == b[i] by {
            assert(byte_ranks(a)[i] == byte_ranks(b)[i]);
        }
        assert(a =~= b);
    }
}

pub fn compare_bytes(a: &[u8; 32], b: &[u8; 32]) -> (r: KeyOrder)
    ensures
        match r {
            KeyOrder::Before => bytes_before(a@, b@),
            KeyOrder::Same => a@ == b@,
            KeyOrder::After => bytes_before(b@, a@),
        },
{
    for i in 0..XOR_NAME_LEN
        invariant
            forall|j: int| 0 <= j < i ==> a@[j] == b@[j],
    {
        if a[i] < b[i] {
            assert(ordered_map::lexicographic_at(byte_ranks(a@), byte_ranks(b@), i as int));
            return KeyOrder::Before;
        }
        if b[i] < a[i] {
            assert(ordered_map::lexicographic_at(byte_ranks(b@), byte_ranks(a@), i as int));
            return KeyOrder::After;
        }
    }
    assert(a@ =~= b@);
    KeyOrder::Same
}

/// Bit number `i` of a byte, counted from the most significant one.
pub open spec fn byte_bit(byte: u8, i: int) -> bool {
    (byte >> ((7 - i) as u8)) & 1 == 1
}

/// The bits of a name, the most significant one of each byte first.
pub open spec fn name_bits(name: Seq<u8>) -> Seq<bool> {
    Seq::new(name.len() * 8, |i: int| byte_bit(name[i / 8], i % 8))
}

/// The distance between two names: the bits in which they differ.
pub open spec fn distance(a: Seq<u8>, b: Seq<u8>) -> Seq<u8> {
    Seq::new(a.len(), |i: int| a[i] ^ b[i])
}

/// A name is as far from another one as its distance from it tells.
pub proof fn lemma_distance_undone(a: Seq<u8>, b: Seq<u8>)
    requires
        a.len() == b.len(),
    ensures
        distance(distance(a, b), b) == a,
{
    let d = distance(distance(a, b), b);
    assert forall|i: int| 0 <= i < a.len() implies d[i] == a[i] by {
        let x = a[i];
        let y = b[i];
        assert((x ^ y) ^ y == x) by (bit_vector);
    }
    assert(d =~= a);
}

/// The name of a node: its address in the network.
#[derive(Clone, Copy, Debug, PartialEq, Eq)]
pub struct XorName(pub [u8; 32]);

impl View for XorName {
    type V = Seq<u8>;

    open spec fn view(&self) -> Seq<u8> {
        self.0@
    }
}

impl XorName {
    /// Bit number `i` of the name.
    pub fn bit(&self, i: usize) -> (r: bool)
        requires
            i < 256,
        ensures
            r == name_bits(self@)[i as int],
    {
        let shift: u8 = (7 - i % 8) as u8;
        (self.0[i / 8] >> shift) & 1 == 1
    }

    /// The distance from the other name, as a name.
    pub fn distance(&self, other: &XorName) -> (r: XorName)
        ensures
            r@ == distance(self@, other@),
    {
        let mut bytes: [u8; 32] = self.0;
        for i in 0..XOR_NAME_LEN
            invariant
                forall|j: int| 0 <= j < i ==> bytes@[j] == self.0@[j] ^ other.0@[j],
        {
            bytes[i] = self.0[i] ^ other.0[i];
        }
        assert(bytes@ =~= distance(self@, other@));
        XorName(bytes)
    }
}

impl Value for XorName {
    fn same(&self, other: &Self) -> (r: bool) {
        match compare_bytes(&self.0, &other.0) {
            KeyOrder::Same => true,
            _ => {
                proof {
                    lemma_bytes_before_irreflexive(self@);
                }
                false
            },
        }
    }

    fn duplicate(&self) -> (r: Self) {
        *self
    }
}

impl OrderedKey for XorName {
    open spec fn before(a: Seq<u8>, b: Seq<u8>) -> bool {
        bytes_before(a, b)
    }

    proof fn before_irreflexive(a: Seq<u8>) {
        lemma_bytes_before_irreflexive(a);
    }

    proof fn before_transitive(a: Seq<u8>, b: Seq<u8>, c: Seq<u8>) {
        lemma_bytes_before_transitive(a, b, c);
    }

    proof fn before_total(a: Seq<u8>, b: Seq<u8>) {
        lemma_bytes_before_total(a, b);
    }

    fn compare(&self, other: &Self) -> (r: KeyOrder) {
        compare_bytes(&self.0, &other.0)
    }
}

/// A hash of 256 bits.
#[derive(Clone, Copy, Debug, PartialEq, Eq)]
pub struct Digest256(pub [u8; 32]);

impl View for Digest256 {
    type V = Seq<u8>;

    open spec fn view(&self) -> Seq<u8> {
        self.0@
    }
}

impl Value for Digest256 {
    fn same(&self, other: &Self) -> (r: bool) {
        match compare_bytes(&self.0, &other.0) {
            KeyOrder::Same => true,
            _ => {
                proof {
                    lemma_bytes_before_irreflexive(self@);
                }
                false
            },
        }
    }

    fn duplicate(&self) -> (r: Self) {
        *self
    }
}

impl OrderedKey for Digest256 {
    open spec fn before(a: Seq<u8>, b: Seq<u8>) -> bool {
        bytes_before(a, b)
    }

    proof fn before_irreflexive(a: Seq<u8>) {
        lemma_bytes_before_irreflexive(a);
    }

    proof fn before_transitive(a: Seq<u8>, b: Seq<u8>, c: Seq<u8>) {
        lemma_bytes_before_transitive(a, b, c);
    }

    proof fn before_total(a: Seq<u8>, b: Seq<u8>) {
        lemma_bytes_before_total(a, b);
    }

    fn compare(&self, other: &Self) -> (r: KeyOrder) {
        compare_bytes(&self.0, &other.0)
    }
}

/// A byte is the number that its bits write down, the first bit being worth most.
pub proof fn law_byte_is_its_bits(byte: u8)
    ensures
        byte == (if byte_bit(byte, 0) {
            128int
        } else {
            0
        }) + (if byte_bit(byte, 1) {
            64int
        } else {
            0
        }) + (if byte_bit(byte, 2) {
            32int
        } else {
            0
        }) + (if byte_bit(byte, 3) {
            16int
        } else {
            0
        }) + (if byte_bit(byte, 4) {
            8int
        } else {
            0
        }) + (if byte_bit(byte, 5) {
            4int
        } else {
            0
        }) + (if byte_bit(byte, 6) {
            2int
        } else {
            0
        }) + (if byte_bit(byte, 7) {
            1int
        } else {
            0
        }),
{
    assert(byte == (if (byte >> 7) & 1 == 1 {
        128u8
    } else {
        0
    }) + (if (byte >> 6) & 1 == 1 {
        64u8
    } else {
        0
    }) + (if (byte >> 5) & 1 == 1 {
        32u8
    } else {
        0
    }) + (if (byte >> 4) & 1 == 1 {
        16u8
    } else {
        0
    }) + (if (byte >> 3) & 1 == 1 {
        8u8
    } else {
        0
    }) + (if (byte >> 2) & 1 == 1 {
        4u8
    } else {
        0
    }) + (if (byte >> 1) & 1 == 1 {
        2u8
    } else {
        0
    }) + (if (byte >> 0) & 1 == 1 {
        1u8
    } else {
        0
    })) by (bit_vector);
}

/// A name has eight bits for each byte: those of its first byte, then those of the next one.
pub proof fn law_name_has_the_bits_of_its_bytes(name: Seq<u8>, k: int, i: int)
    requires
        0 <= k < name.len(),
        0 <= i < 8,
    ensures
        name_bits(name).len() == 8 * name.len(),
        name_bits(name)[8 * k + i] == byte_bit(name[k], i),
{
    assert((8 * k + i) / 8 == k);
    assert((8 * k + i) % 8 == i);
}

/// Of two different bytes, the one without the first bit in which they differ is less.
proof fn lemma_first_bit_decides(a: u8, b: u8, i: int)
    requires
        0 <= i < 8,
        forall|j: int| 0 <= j < i ==> byte_bit(a, j) == byte_bit(b, j),
        byte_bit(a, i) != byte_bit(b, i),
    ensures
        a < b <==> !byte_bit(a, i),
        a != b,
{
    law_byte_is_its_bits(a);
    law_byte_is_its_bits(b);
    assert(0 < i ==> byte_bit(a, 0) == byte_bit(b, 0));
    assert(1 < i ==> byte_bit(a, 1) == byte_bit(b, 1));
    assert(2 < i ==> byte_bit(a, 2) == byte_bit(b, 2));
    assert(3 < i ==> byte_bit(a, 3) == byte_bit(b, 3));
    assert(4 < i ==> byte_bit(a, 4) == byte_bit(b, 4));
    assert(5 < i ==> byte_bit(a, 5) == byte_bit(b, 5));
    assert(6 < i ==> byte_bit(a, 6) == byte_bit(b, 6));
    assert(i == 0 || i == 1 || i == 2 || i == 3 || i == 4 || i == 5 || i == 6 || i == 7);
}

/// Bytes with the same bits are the same.
proof fn lemma_same_bits(a: u8, b: u8)
    requires
        forall|j: int| 0 <= j < 8 ==> byte_bit(a, j) == byte_bit(b, j),
    ensures
        a == b,
{
    law_byte_is_its_bits(a);
    law_byte_is_its_bits(b);
    assert(byte_bit(a, 0) == byte_bit(b, 0));
    assert(byte_bit(a, 1) == byte_bit(b, 1));
    assert(byte_bit(a, 2) == byte_bit(b, 2));
    assert(byte_bit(a, 3) == byte_bit(b, 3));
    assert(byte_bit(a, 4) == byte_bit(b, 4));
    assert(byte_bit(a, 5) == byte_bit(b, 5));
    assert(byte_bit(a, 6) == byte_bit(b, 6));
    assert(byte_bit(a, 7) == byte_bit(b, 7));
}

/// The first bit in which two names differ decides which one comes first: the one that does not
/// have it.
pub proof fn law_first_differing_bit_decides_order(a: Seq<u8>, b: Seq<u8>, i: int)
    requires
        a.len() == b.len(),
        0 <= i < 8 * a.len(),
        forall|j: int| 0 <= j < i ==> name_bits(a)[j] == name_bits(b)[j],
        name_bits(a)[i] != name_bits(b)[i],
    ensures
        bytes_before(a, b) <==> !name_bits(a)[i],
{
    let k = i / 8;
    let r = i % 8;
    assert forall|l: int| 0 <= l < k implies a[l] == b[l] by {
        assert forall|j: int| 0 <= j < 8 implies byte_bit(a[l], j) == byte_bit(b[l], j) by {
            law_name_has_the_bits_of_its_bytes(a, l, j);
            law_name_has_the_bits_of_its_bytes(b, l, j);
            assert(name_bits(a)[8 * l + j] == name_bits(b)[8 * l + j]);
        }
        lemma_same_bits(a[l], b[l]);
    }
    assert forall|j: int| 0 <= j < r implies byte_bit(a[k], j) == byte_bit(b[k], j) by {
        law_name_has_the_bits_of_its_bytes(a, k, j);
        law_name_has_the_bits_of_its_bytes(b, k, j);
        assert(name_bits(a)[8 * k + j] == name_bits(b)[8 * k + j]);
    }
    law_name_has_the_bits_of_its_bytes(a, k, r);
    law_name_has_the_bits_of_its_bytes(b, k, r);
    lemma_first_bit_decides(a[k], b[k], r);
    if a[k] < b[k] {
        assert(ordered_map::lexicographic_at(byte_ranks(a), byte_ranks(b), k));
    } else {
        assert(ordered_map::lexicographic_at(byte_ranks(b), byte_ranks(a), k));
        if bytes_before(a, b) {
            lemma_bytes_before_transitive(a, b, a);
            lemma_bytes_before_irreflexive(a);
        }
    }
}

/// Two names are as far from each other as the other way round, and not apart at all exactly if
/// they are the same name.
pub proof fn law_distance_is_symmetric_and_zero_on_equal(a: Seq<u8>, b: Seq<u8>)
    requires
        a.len() == b.len(),
    ensures
        distance(a, b).len() == a.len(),
        distance(a, b) == distance(b, a),
        (forall|i: int| 0 <= i < a.len() ==> distance(a, b)[i] == 0) <==> a == b,
{
    assert forall|i: int| 0 <= i < a.len() implies distance(a, b)[i] == distance(b, a)[i] && (
    distance(a, b)[i] == 0 <==> a[i] == b[i]) by {
        let x = a[i];
        let y = b[i];
        assert(x ^ y == y ^ x) by (bit_vector);
        assert(x ^ y == 0 <==> x == y) by (bit_vector);
    }
    assert(distance(a, b) =~= distance(b, a));
    if forall|i: int| 0 <= i < a.len() ==> distance(a, b)[i] == 0 {
        assert forall|i: int| 0 <= i < a.len() implies a[i] == b[i] by {
            assert(distance(a, b)[i] == 0);
        }
        assert(a =~= b);
    }
}

/// The distance between two names has a bit exactly where the names differ in that bit.
pub proof fn law_distance_has_the_differing_bits(a: Seq<u8>, b: Seq<u8>, i: int)
    requires
        a.len() == b.len(),
        0 <= i < 8 * a.len(),
    ensures
        name_bits(distance(a, b)).len() == name_bits(a).len(),
        name_bits(distance(a, b))[i] <==> name_bits(a)[i] != name_bits(b)[i],
{
    let x = a[i / 8];
    let y = b[i / 8];
    let s = (7 - i % 8) as u8;
    assert(distance(a, b)[i / 8] == x ^ y);
    assert(((x ^ y) >> s) & 1 == 1 <==> ((x >> s) & 1 == 1) != ((y >> s) & 1 == 1)) by (bit_vector)
        requires
            s < 8,
    ;
}

/// Of two names, the one that shares more leading bits with a target is closer to it.
pub proof fn law_longer_common_start_is_closer(a: Seq<u8>, b: Seq<u8>, target: Seq<u8>, i: int)
    requires
        a.len() == target.len(),
        b.len() == target.len(),
        0 <= i < 8 * target.len(),
        forall|j: int| 0 <= j <= i ==> name_bits(a)[j] == name_bits(target)[j],
        forall|j: int| 0 <= j < i ==> name_bits(b)[j] == name_bits(target)[j],
        name_bits(b)[i] != name_bits(target)[i],
    ensures
        bytes_before(distance(a, target), distance(b, target)),
{
    assert forall|j: int| 0 <= j <= i implies !name_bits(distance(a, target))[j] && (
    name_bits(distance(b, target))[j] <==> j == i) by {
        law_distance_has_the_differing_bits(a, target, j);
        law_distance_has_the_differing_bits(b, target, j);
    }
    law_first_differing_bit_decides_order(distance(a, target), distance(b, target), i);
}

/// No string of bytes of the same length comes before the one that is all zero.
pub proof fn lemma_nothing_before_zero(a: Seq<u8>, zero: Seq<u8>)
    requires
        a.len() == zero.len(),
        forall|i: int| 0 <= i < zero.len() ==> zero[i] == 0,
    ensures
        !bytes_before(a, zero),
{
    if bytes_before(a, zero) {
        let i = choose|i: int| #[trigger]
            ordered_map::lexicographic_at(byte_ranks(a), byte_ranks(zero), i);
        assert(byte_ranks(zero)[i] == 0);
    }
}

/// The distance of a name from another one that `distance` gives: the same from both sides, zero
/// only from itself, and with exactly those bits set in which the names differ.
pub proof fn law_distance_of_names(a: &XorName, b: &XorName, there: XorName, back: XorName, i: int)
    requires
        call_ensures(XorName::distance, (a, b), there),
        call_ensures(XorName::distance, (b, a), back),
        0 <= i < 256,
    ensures
        there@ == back@,
        (forall|k: int| 0 <= k < 32 ==> #[trigger] there@[k] == 0) <==> a@ == b@,
        name_bits(there@)[i] <==> name_bits(a@)[i] != name_bits(b@)[i],
{
    law_distance_is_symmetric_and_zero_on_equal(a@, b@);
    law_distance_has_the_differing_bits(a@, b@, i);
}

} // verus!
