//! Keys and signatures of sections. A section key is emulated by the identities of the elders that
//! hold its shares; a signature is a string of bytes that only the signature scheme looks into.

use vstd::prelude::*;

use crate::chain::elders_info::EldersInfo;
use crate::encoding::{self, list_from_plain, list_to_plain, Encoded};
use crate::id::PublicId;
use crate::value::{self, duplicate_bytes, duplicate_list, same_bytes, same_list, Value};

verus! {

/// The public key of a section.
pub struct BlsPublicKey {
    holders: Vec<PublicId>,
}

impl View for BlsPublicKey {
    type V = Seq<Seq<u8>>;

    closed spec fn view(&self) -> Seq<Seq<u8>> {
        value::views(self.holders@)
    }
}

impl BlsPublicKey {
    /// The key whose shares the given nodes hold.
    pub fn new(holders: Vec<PublicId>) -> (r: Self)
        ensures
            r@ == value::views(holders@),
    {
        BlsPublicKey { holders }
    }

    /// The nodes that hold the shares of the key.
    pub fn holders(&self) -> (r: &Vec<PublicId>)
        ensures
            value::views(r@) == self@,
    {
        &self.holders
    }

    /// The key of the section with the given elders: each of them holds a share.
    pub fn from_elders_info(info: &EldersInfo) -> (r: Self)
        ensures
            r@ == info@.member_ids(),
    {
        let mut holders: Vec<PublicId> = Vec::new();
        let members = info.members();
        let len = members.len();
        for i in 0..len
            invariant
                members@ == info@.members,
                len == info@.member_ids().len(),
                holders@.len() == i,
                forall|j: int| 0 <= j < i ==> (#[trigger] holders@[j])@ == info@.member_ids()[j],
        {
            holders.push(*members.entry_at(i).0);
        }
        assert(value::views(holders@) =~= info@.member_ids());
        BlsPublicKey { holders }
    }
}

impl Value for BlsPublicKey {
    fn same(&self, other: &Self) -> (r: bool) {
        same_list(&self.holders, &other.holders)
    }

    fn duplicate(&self) -> (r: Self) {
        BlsPublicKey { holders: duplicate_list(&self.holders) }
    }
}

impl Encoded for BlsPublicKey {
    type Plain = Vec<[u8; 32]>;

    open spec fn encode(v: Seq<Seq<u8>>) -> Seq<Seq<u8>> {
        encoding::encode_list::<PublicId>(v)
    }

    open spec fn decode(p: Seq<Seq<u8>>) -> Seq<Seq<u8>> {
        encoding::decode_list::<PublicId>(p)
    }

    open spec fn representable(v: Seq<Seq<u8>>) -> bool {
        true
    }

    proof fn decode_encode(v: Seq<Seq<u8>>) {
        encoding::lemma_decode_encode_list::<PublicId>(v);
    }

    fn to_plain(&self) -> (r: Vec<[u8; 32]>) {
        list_to_plain(&self.holders)
    }

    fn from_plain(p: &Vec<[u8; 32]>) -> (r: Self) {
        BlsPublicKey { holders: list_from_plain(p) }
    }
}

/// The public keys of all holders of shares of a section key.
pub struct BlsPublicKeySet {
    pub public_key: BlsPublicKey,
}

/// The public key of one share.
#[derive(Clone, Copy, Debug, PartialEq, Eq)]
pub struct BlsPublicKeyShare(pub PublicId);

impl View for BlsPublicKeyShare {
    type V = Seq<u8>;

    open spec fn view(&self) -> Seq<u8> {
        self.0@
    }
}

impl Value for BlsPublicKeyShare {
    fn same(&self, other: &Self) -> (r: bool) {
        self.0.same(&other.0)
    }

    fn duplicate(&self) -> (r: Self) {
        *self
    }
}

/// A signature made with one share.
#[derive(Debug, PartialEq, Eq)]
pub struct BlsSignatureShare {
    pub bytes: Vec<u8>,
}

impl View for BlsSignatureShare {
    type V = Seq<u8>;

    open spec fn view(&self) -> Seq<u8> {
        self.bytes@
    }
}

impl Value for BlsSignatureShare {
    fn same(&self, other: &Self) -> (r: bool) {
        same_bytes(&self.bytes, &other.bytes)
    }

    fn duplicate(&self) -> (r: Self) {
        BlsSignatureShare { bytes: duplicate_bytes(&self.bytes) }
    }
}

/// A signature of a section.
#[derive(Debug, PartialEq, Eq)]
pub struct BlsSignature {
    pub bytes: Vec<u8>,
}

impl View for BlsSignature {
    type V = Seq<u8>;

    open spec fn view(&self) -> Seq<u8> {
        self.bytes@
    }
}

impl Value for BlsSignature {
    fn same(&self, other: &Self) -> (r: bool) {
        same_bytes(&self.bytes, &other.bytes)
    }

    fn duplicate(&self) -> (r: Self) {
        BlsSignature { bytes: duplicate_bytes(&self.bytes) }
    }
}

/// The signature check can be made on any key, signature and message.
pub open spec fn checkable<F: Fn(&BlsPublicKey, &BlsSignature, &Vec<u8>) -> bool>(
    verify: F,
) -> bool {
    forall|key: &BlsPublicKey, sig: &BlsSignature, msg: &Vec<u8>|
        call_requires(verify, (key, sig, msg))
}

/// `answer` is what the signature check can say of the given key, signature and message.
pub open spec fn check_says<F: Fn(&BlsPublicKey, &BlsSignature, &Vec<u8>) -> bool>(
    verify: F,
    key: Seq<Seq<u8>>,
    sig: Seq<u8>,
    msg: Seq<u8>,
    answer: bool,
) -> bool {
    exists|k: &BlsPublicKey, s: &BlsSignature, m: &Vec<u8>|
        k@ == key && s@ == sig && m@ == msg && #[trigger] call_ensures(verify, (k, s, m), answer)
}

/// The signature check is a function of what it is asked: it never gives two answers on the same
/// key, signature and message.
pub open spec fn one_answer<F: Fn(&BlsPublicKey, &BlsSignature, &Vec<u8>) -> bool>(
    verify: F,
) -> bool {
    forall|
        k: &BlsPublicKey,
        s: &BlsSignature,
        m: &Vec<u8>,
        a: bool,
        k2: &BlsPublicKey,
        s2: &BlsSignature,
        m2: &Vec<u8>,
        a2: bool,
    |
        #[trigger] call_ensures(verify, (k, s, m), a) && #[trigger] call_ensures(
            verify,
            (k2, s2, m2),
            a2,
        ) && k@ == k2@ && s@ == s2@ && m@ == m2@ ==> a == a2
}

/// What the signature check says of a key, a signature and a message, it has answered to just that
/// question; and what it answers to it, it says.
pub proof fn law_check_answers_the_question<
    F: Fn(&BlsPublicKey, &BlsSignature, &Vec<u8>) -> bool,
>(
    verify: F,
    key: &BlsPublicKey,
    sig: &BlsSignature,
    msg: &Vec<u8>,
    answer: bool,
)
    ensures
        call_ensures(verify, (key, sig, msg), answer) ==> check_says(
            verify,
            key@,
            sig@,
            msg@,
            answer,
        ),
        check_says(verify, key@, sig@, msg@, answer) ==> exists|
            k: &BlsPublicKey,
            s: &BlsSignature,
            m: &Vec<u8>,
        |
            #[trigger] call_ensures(verify, (k, s, m), answer) && k@ == key@ && s@ == sig@ && m@
                == msg@,
        one_answer(verify) && check_says(verify, key@, sig@, msg@, answer) ==> !call_ensures(
            verify,
            (key, sig, msg),
            !answer,
        ),
{
}

} // verus!
