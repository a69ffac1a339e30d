//! Section prefixes: the leading bits that the names of a section have in common.

use vstd::prelude::*;
use vstd::string::*;

use crate::ordered_map::{self, KeyOrder, OrderedKey};
use crate::value::Value;
use crate::xor_name::{self, XorName};

verus! {

/// One of the two prefixes is the beginning of the other.
pub open spec fn compatible(a: Seq<bool>, b: Seq<bool>) -> bool {
    a.is_prefix_of(b) || b.is_prefix_of(a)
}

/// The first prefix starts with the second and is longer.
pub open spec fn extends(a: Seq<bool>, b: Seq<bool>) -> bool {
    b.is_prefix_of(a) && b.len() < a.len()
}

/// The prefix with its last bit flipped; the empty prefix is its own sibling.
pub open spec fn sibling(p: Seq<bool>) -> Seq<bool> {
    if p.len() == 0 {
        p
    } else {
        p.drop_last().push(!p.last())
    }
}

/// The prefix without its last bit; the empty prefix stays.
pub open spec fn popped(p: Seq<bool>) -> Seq<bool> {
    if p.len() == 0 {
        p
    } else {
        p.drop_last()
    }
}

/// The name starts with the bits of the prefix.
pub open spec fn covers(p: Seq<bool>, name: Seq<u8>) -> bool {
    p.is_prefix_of(xor_name::name_bits(name))
}

/// Two beginnings of one sequence are compatible.
pub proof fn lemma_prefixes_of_one(a: Seq<bool>, b: Seq<bool>, s: Seq<bool>)
    requires
        a.is_prefix_of(s),
        b.is_prefix_of(s),
    ensures
        compatible(a, b),
{
    if a.len() <= b.len() {
        assert(a =~= b.subrange(0, a.len() as int));
    } else {
        assert(b =~= a.subrange(0, b.len() as int));
    }
}

/// A beginning of a beginning is a beginning.
pub proof fn lemma_prefix_of_prefix(a: Seq<bool>, b: Seq<bool>, s: Seq<bool>)
    requires
        a.is_prefix_of(b),
        b.is_prefix_of(s),
    ensures
        a.is_prefix_of(s),
{
    assert(a =~= s.subrange(0, a.len() as int));
}

/// Prefixes that differ in a bit that both have are not compatible.
pub proof fn lemma_differ_incompatible(a: Seq<bool>, b: Seq<bool>, i: int)
    requires
        0 <= i < a.len(),
        i < b.len(),
        a[i] != b[i],
    ensures
        !compatible(a, b),
{
    if a.is_prefix_of(b) {
        assert(a[i] == b.subrange(0, a.len() as int)[i]);
    }
    if b.is_prefix_of(a) {
        assert(b[i] == a.subrange(0, b.len() as int)[i]);
    }
}

/// What is not compatible with a prefix is not compatible with what starts with that prefix.
pub proof fn lemma_extension_of_incompatible(a: Seq<bool>, b: Seq<bool>, c: Seq<bool>)
    requires
        !compatible(a, b),
        b.is_prefix_of(c),
    ensures
        !compatible(a, c),
        !compatible(c, a),
{
    if a.is_prefix_of(c) {
        lemma_prefixes_of_one(a, b, c);
    }
    if c.is_prefix_of(a) {
        lemma_prefix_of_prefix(b, c, a);
    }
}

/// Where a sequence does not start with `p`, although it has the first `n` bits of it, there is a
/// first bit in which it differs.
pub proof fn lemma_first_difference(p: Seq<bool>, s: Seq<bool>, n: int) -> (i: int)
    requires
        0 <= n <= p.len(),
        p.len() <= s.len(),
        forall|j: int| 0 <= j < n ==> p[j] == s[j],
        !p.is_prefix_of(s),
    ensures
        n <= i < p.len(),
        p[i] != s[i],
        forall|j: int| 0 <= j < i ==> p[j] == s[j],
    decreases p.len() - n,
{
    if n == p.len() {
        assert(p =~= s.subrange(0, p.len() as int));
        n
    } else if p[n] == s[n] {
        lemma_first_difference(p, s, n + 1)
    } else {
        n
    }
}

/// The bits as numbers.
pub open spec fn bit_ranks(s: Seq<bool>) -> Seq<int> {
    Seq::new(
        s.len(),
        |i: int|
            if s[i] {
                1int
            } else {
                0int
            },
    )
}

/// The bits that a text of zeroes and ones writes down.
pub open spec fn text_bits(text: Seq<char>) -> Seq<bool> {
    Seq::new(text.len(), |i: int| text[i] == '1')
}

/// The text consists of zeroes and ones.
pub open spec fn is_binary(text: Seq<char>) -> bool {
    forall|i: int| 0 <= i < text.len() ==> (#[trigger] text[i]) == '0' || text[i] == '1'
}

fn duplicate_bits(bits: &Vec<bool>) -> (r: Vec<bool>)
    ensures
        r@ == bits@,
{
    let mut r: Vec<bool> = Vec::new();
    for i in 0..bits.len()
        invariant
            r@ == bits@.take(i as int),
    {
        r.push(bits[i]);
        assert(bits@.take(i + 1) =~= bits@.take(i as int).push(bits@[i as int]));
    }
    assert(bits@.take(bits@.len() as int) =~= bits@);
    r
}

/// A section prefix, that is, a sequence of bits specifying the part of the network's name space
/// that consists of all names that start with this sequence.
#[derive(Debug, PartialEq, Eq)]
pub struct Prefix {
    bits: Vec<bool>,
}

impl View for Prefix {
    type V = Seq<bool>;

    closed spec fn view(&self) -> Seq<bool> {
        self.bits@
    }
}

impl Prefix {
    /// The prefix made of the first `bit_count` bits of `name`.
    pub fn new(bit_count: usize, name: &XorName) -> (r: Self)
        requires
            bit_count <= 256,
        ensures
            r@ == xor_name::name_bits(name@).take(bit_count as int),
    {
        let mut bits: Vec<bool> = Vec::new();
        for i in 0..bit_count
            invariant
                bit_count <= 256,
                bits@ == xor_name::name_bits(name@).take(i as int),
        {
            bits.push(name.bit(i));
            proof {
                let all = xor_name::name_bits(name@);
                assert(all.take(i + 1) =~= all.take(i as int).push(all[i as int]));
            }
        }
        Prefix { bits }
    }

    /// The prefix written down as a text of zeroes and ones, or the first character that is
    /// neither.
    pub fn from_str(text: &str) -> (r: Result<Self, char>)
        ensures
            match r {
                Ok(p) => is_binary(text@) && p@ == text_bits(text@),
                Err(c) => exists|i: int|
                    0 <= i < text@.len() && is_binary(text@.take(i)) && #[trigger] text@[i] == c
                        && c != '0' && c != '1',
            },
    {
        let len = text.unicode_len();
        let mut bits: Vec<bool> = Vec::new();
        for i in 0..len
            invariant
                len == text@.len(),
                bits@.len() == i,
                forall|j: int|
                    0 <= j < i ==> bits@[j] == (#[trigger] text@[j] == '1') && (text@[j] == '0'
                        || text@[j] == '1'),
        {
            let c = text.get_char(i);
            if c == '1' {
                bits.push(true);
            } else if c == '0' {
                bits.push(false);
            } else {
                assert(is_binary(text@.take(i as int)));
                return Err(c);
            }
        }
        assert(bits@ =~= text_bits(text@));
        Ok(Prefix { bits })
    }

    /// The prefix with the given bits.
    pub fn from_bits(bits: &Vec<bool>) -> (r: Self)
        ensures
            r@ == bits@,
    {
        Prefix { bits: duplicate_bits(bits) }
    }

    /// The bits of the prefix.
    pub fn to_bits(&self) -> (r: Vec<bool>)
        ensures
            r@ == self@,
    {
        duplicate_bits(&self.bits)
    }

    /// The number of bits.
    pub fn bit_count(&self) -> (r: usize)
        ensures
            r == self@.len(),
    {
        self.bits.len()
    }

    /// Whether this is the empty prefix, which all names match.
    pub fn is_empty(&self) -> (r: bool)
        ensures
            r == (self@.len() == 0),
    {
        self.bits.len() == 0
    }

    /// The bit at the given position.
    pub fn bit(&self, i: usize) -> (r: bool)
        requires
            i < self@.len(),
        ensures
            r == self@[i as int],
    {
        self.bits[i]
    }

    /// Whether the other prefix starts with this one.
    fn starts(&self, other: &Prefix) -> (r: bool)
        ensures
            r == self@.is_prefix_of(other@),
    {
        if self.bits.len() > other.bits.len() {
            return false;
        }
        for i in 0..self.bits.len()
            invariant
                self@.len() <= other@.len(),
                forall|j: int| 0 <= j < i ==> self@[j] == other@[j],
        {
            if self.bits[i] != other.bits[i] {
                assert(self@[i as int] != other@.subrange(0, self@.len() as int)[i as int]);
                return false;
            }
        }
        assert(self@ =~= other@.subrange(0, self@.len() as int));
        true
    }

    /// Returns `true` if `self` is a prefix of `other` or vice versa.
    pub fn is_compatible(&self, other: &Prefix) -> (r: bool)
        ensures
            r == compatible(self@, other@),
    {
        self.starts(other) || other.starts(self)
    }

    /// Returns `true` if `other` is compatible but strictly shorter than `self`.
    pub fn is_extension_of(&self, other: &Prefix) -> (r: bool)
        ensures
            r == extends(self@, other@),
    {
        other.starts(self) && other.bits.len() < self.bits.len()
    }

    /// Returns `true` if the name starts with the bits of this prefix.
    pub fn matches(&self, name: &XorName) -> (r: bool)
        ensures
            r == covers(self@, name@),
    {
        if self.bits.len() > 256 {
            return false;
        }
        for i in 0..self.bits.len()
            invariant
                self@.len() <= 256,
                forall|j: int| 0 <= j < i ==> self@[j] == xor_name::name_bits(name@)[j],
        {
            if self.bits[i] != name.bit(i) {
                assert(self@[i as int] != xor_name::name_bits(name@).subrange(
                    0,
                    self@.len() as int,
                )[i as int]);
                return false;
            }
        }
        assert(self@ =~= xor_name::name_bits(name@).subrange(0, self@.len() as int));
        true
    }

    /// The prefix that differs from this one in the last bit.
    pub fn sibling(&self) -> (r: Prefix)
        ensures
            r@ == sibling(self@),
    {
        let mut r = self.popped();
        let len = self.bits.len();
        if len > 0 {
            r.bits.push(!self.bits[len - 1]);
        }
        r
    }

    /// The prefix without its last bit.
    pub fn popped(&self) -> (r: Prefix)
        ensures
            r@ == popped(self@),
    {
        let mut r = self.duplicate();
        let _ = r.bits.pop();
        assert(r@ =~= popped(self@));
        r
    }
}

impl Clone for Prefix {
    fn clone(&self) -> (r: Self)
        ensures
            r@ == self@,
    {
        self.duplicate()
    }
}

impl Value for Prefix {
    fn same(&self, other: &Self) -> (r: bool) {
        let r = self.bits.len() == other.bits.len() && self.starts(other);
        assert(r ==> self@ =~= other@);
        assert(self@ == other@ ==> self@ =~= other@.subrange(0, self@.len() as int));
        r
    }

    fn duplicate(&self) -> (r: Self) {
        Prefix { bits: duplicate_bits(&self.bits) }
    }
}

impl OrderedKey for Prefix {
    open spec fn before(a: Seq<bool>, b: Seq<bool>) -> bool {
        ordered_map::lexicographic(bit_ranks(a), bit_ranks(b))
    }

    proof fn before_irreflexive(a: Seq<bool>) {
        ordered_map::lemma_lexicographic_irreflexive(bit_ranks(a));
    }

    proof fn before_transitive(a: Seq<bool>, b: Seq<bool>, c: Seq<bool>) {
        ordered_map::lemma_lexicographic_transitive(bit_ranks(a), bit_ranks(b), bit_ranks(c));
    }

    proof fn before_total(a: Seq<bool>, b: Seq<bool>) {
        ordered_map::lemma_lexicographic_total(bit_ranks(a), bit_ranks(b));
        if bit_ranks(a) == bit_ranks(b) {
            assert(a.len() == bit_ranks(a).len());
            assert(b.len() == bit_ranks(b).len());
            assert forall|i: int| 0 <= i < a.len() implies a[i] == b[i] by {
                assert(bit_ranks(a)[i] == bit_ranks(b)[i]);
            }
            assert(a =~= b);
        }
    }

    fn compare(&self, other: &Self) -> (r: KeyOrder) {
        let ghost a = bit_ranks(self@);
        let ghost b = bit_ranks(other@);
        let mut i: usize = 0;
        while i < self.bits.len() && i < other.bits.len()
            invariant
                i <= self@.len(),
                i <= other@.len(),
                a == bit_ranks(self@),
                b == bit_ranks(other@),
                forall|j: int| 0 <= j < i ==> self@[j] == other@[j],
            decreases self@.len() - i,
        {
            if self.bits[i] != other.bits[i] {
                if self.bits[i] {
                    assert(ordered_map::lexicographic_at(b, a, i as int));
                    return KeyOrder::After;
                }
                assert(ordered_map::lexicographic_at(a, b, i as int));
                return KeyOrder::Before;
            }
            i = i + 1;
        }
        if i < other.bits.len() {
            assert(ordered_map::lexicographic_at(a, b, i as int));
            KeyOrder::Before
        } else if i < self.bits.len() {
            assert(ordered_map::lexicographic_at(b, a, i as int));
            KeyOrder::After
        } else {
            assert(self@ =~= other@);
            KeyOrder::Same
        }
    }
}

/// Two prefixes are compatible exactly if they agree in all bits that both have.
pub proof fn law_compatible_prefixes_agree(a: Seq<bool>, b: Seq<bool>)
    ensures
        compatible(a, b) <==> forall|i: int| 0 <= i < a.len() && i < b.len() ==> a[i] == b[i],
        compatible(a, b) <==> compatible(b, a),
{
    if compatible(a, b) {
        assert forall|i: int| 0 <= i < a.len() && i < b.len() implies a[i] == b[i] by {
            if a[i] != b[i] {
                lemma_differ_incompatible(a, b, i);
            }
        }
    } else if forall|i: int| 0 <= i < a.len() && i < b.len() ==> a[i] == b[i] {
        if a.len() <= b.len() {
            assert(a =~= b.subrange(0, a.len() as int));
        } else {
            assert(b =~= a.subrange(0, b.len() as int));
        }
    }
}

/// One prefix extends another exactly if it is longer and agrees with it in all bits of the other.
pub proof fn law_extension_is_longer_and_agrees(a: Seq<bool>, b: Seq<bool>)
    ensures
        extends(a, b) <==> a.len() > b.len() && forall|i: int| 0 <= i < b.len() ==> a[i] == b[i],
{
    if extends(a, b) {
        assert forall|i: int| 0 <= i < b.len() implies a[i] == b[i] by {
            assert(b[i] == a.subrange(0, b.len() as int)[i]);
        }
    }
    if a.len() > b.len() && forall|i: int| 0 <= i < b.len() ==> a[i] == b[i] {
        assert(b =~= a.subrange(0, b.len() as int));
    }
}

/// A prefix covers exactly the names that have its bits in front.
pub proof fn law_covered_names_start_with_the_bits(p: Seq<bool>, name: Seq<u8>)
    ensures
        covers(p, name) <==> p.len() <= xor_name::name_bits(name).len() && forall|i: int|
            0 <= i < p.len() ==> p[i] == xor_name::name_bits(name)[i],
{
    let bits = xor_name::name_bits(name);
    if covers(p, name) {
        assert forall|i: int| 0 <= i < p.len() implies p[i] == bits[i] by {
            assert(p[i] == bits.subrange(0, p.len() as int)[i]);
        }
    }
    if p.len() <= bits.len() && forall|i: int| 0 <= i < p.len() ==> p[i] == bits[i] {
        assert(p =~= bits.subrange(0, p.len() as int));
    }
}

/// The two halves of a section are siblings of each other, and what is left of each without its
/// last bit is the section. The whole network has neither a sibling nor anything larger.
pub proof fn law_siblings_are_the_halves_of_a_section(p: Seq<bool>, bit: bool)
    ensures
        sibling(p.push(bit)) == p.push(!bit),
        popped(p.push(bit)) == p,
        sibling(Seq::<bool>::empty()) == Seq::<bool>::empty(),
        popped(Seq::<bool>::empty()) == Seq::<bool>::empty(),
{
    assert(p.push(bit).drop_last() =~= p);
}

/// Every name of a section that has bits left belongs to exactly one of its halves.
pub proof fn law_names_belong_to_one_half(p: Seq<bool>, name: Seq<u8>)
    requires
        p.len() < xor_name::name_bits(name).len(),
    ensures
        covers(p, name) <==> covers(p.push(true), name) || covers(p.push(false), name),
        !(covers(p.push(true), name) && covers(p.push(false), name)),
{
    law_covered_names_start_with_the_bits(p, name);
    law_covered_names_start_with_the_bits(p.push(true), name);
    law_covered_names_start_with_the_bits(p.push(false), name);
    let bits = xor_name::name_bits(name);
    let n = p.len() as int;
    let own = p.push(bits[n]);
    if covers(p, name) {
        assert forall|i: int| 0 <= i < own.len() implies own[i] == bits[i] by {
        }
        assert(covers(own, name));
    }
    if covers(p.push(true), name) {
        assert(p.push(true)[n] == bits[n]);
        assert forall|i: int| 0 <= i < n implies p[i] == bits[i] by {
            assert(p.push(true)[i] == bits[i]);
        }
    }
    if covers(p.push(false), name) {
        assert(p.push(false)[n] == bits[n]);
        assert forall|i: int| 0 <= i < n implies p[i] == bits[i] by {
            assert(p.push(false)[i] == bits[i]);
        }
    }
}

/// A prefix comes before everything longer that starts with it; else the first bit in which two
/// prefixes differ decides: the one that does not have it comes first.
pub proof fn law_order_of_prefixes(a: Seq<bool>, b: Seq<bool>, i: int)
    requires
        0 <= i <= a.len(),
        i < b.len(),
        forall|j: int| 0 <= j < i ==> a[j] == b[j],
        i < a.len() ==> a[i] != b[i],
    ensures
        Prefix::before(a, b) <==> i == a.len() || !a[i],
{
    if i == a.len() || !a[i] {
        assert(ordered_map::lexicographic_at(bit_ranks(a), bit_ranks(b), i));
    } else {
        assert(ordered_map::lexicographic_at(bit_ranks(b), bit_ranks(a), i));
        if Prefix::before(a, b) {
            Prefix::before_transitive(a, b, a);
            Prefix::before_irreflexive(a);
        }
    }
}

/// A text of zeroes and ones writes down as many bits as it has characters, a one for each '1'.
pub proof fn law_text_writes_down_its_bits(text: Seq<char>, i: int)
    requires
        is_binary(text),
        0 <= i < text.len(),
    ensures
        text_bits(text).len() == text.len(),
        text_bits(text)[i] ==> text[i] == '1',
        !text_bits(text)[i] ==> text[i] == '0',
{
}

} // verus!
