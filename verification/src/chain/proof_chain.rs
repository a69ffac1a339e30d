//! The history of a section's keys, each signed with the one before it.

use vstd::prelude::*;
use vstd::std_specs::cmp::PartialEqSpec;
use vstd::string::*;

use crate::chain::accumulating::{self, AccumulatingProof};
use crate::chain::bls_emu::{
    self, BlsPublicKey, BlsPublicKeySet, BlsPublicKeyShare, BlsSignature, BlsSignatureShare,
};
use crate::chain::elders_info::{
    self, EldersInfo, EldersInfoView, PlainEldersInfo, PlainEldersInfoView,
};
use crate::encoding::{self, list_from_plain, list_to_plain, Encoded};
use crate::prefix::Prefix;
use crate::wire::{self, serialise_elders_info};
use crate::text;
use crate::value::{self, duplicate_bytes, duplicate_list, same_list, Value};
use crate::xor_name;

verus! {

/// A section key together with the elders info that it belongs to.
pub struct BlsPublicKeyForSectionKeyInfo {
    internal_elders_info: EldersInfo,
    key: BlsPublicKey,
}

impl BlsPublicKeyForSectionKeyInfo {
    pub closed spec fn spec_elders_info(self) -> EldersInfoView {
        self.internal_elders_info@
    }

    pub closed spec fn spec_key(self) -> Seq<Seq<u8>> {
        self.key@
    }

    /// The key of the section with the given elders.
    pub fn from_elders_info(info: &EldersInfo) -> (r: Self)
        ensures
            r.spec_elders_info() == info@,
            r.spec_key() == info@.member_ids(),
    {
        BlsPublicKeyForSectionKeyInfo {
            internal_elders_info: info.duplicate(),
            key: BlsPublicKey::from_elders_info(info),
        }
    }

    /// The elders info that the key belongs to.
    pub fn internal_elders_info(&self) -> (r: &EldersInfo)
        ensures
            r@ == self.spec_elders_info(),
    {
        &self.internal_elders_info
    }

    /// The key.
    pub fn key(&self) -> (r: &BlsPublicKey)
        ensures
            r@ == self.spec_key(),
    {
        &self.key
    }
}

/// A section's key with the prefix and the version that it is for.
pub struct SectionKeyInfo {
    // All the information that is signed.
    key_info_holder: BlsPublicKeyForSectionKeyInfo,
}

#[verifier::ext_equal]
pub struct SectionKeyInfoView {
    pub elders_info: EldersInfoView,
    pub key: Seq<Seq<u8>>,
}

impl View for SectionKeyInfo {
    type V = SectionKeyInfoView;

    closed spec fn view(&self) -> SectionKeyInfoView {
        SectionKeyInfoView {
            elders_info: self.key_info_holder.spec_elders_info(),
            key: self.key_info_holder.spec_key(),
        }
    }
}

impl SectionKeyInfoView {
    /// The prefix of the section.
    pub open spec fn prefix(self) -> Seq<bool> {
        self.elders_info.prefix
    }

    /// The version of the section.
    pub open spec fn version(self) -> u64 {
        self.elders_info.version
    }

    /// The bytes that are signed to vouch for this key.
    pub open spec fn signed_bytes(self) -> Seq<u8> {
        wire::elders_info_bytes(EldersInfo::encode(self.elders_info))
    }
}

/// The key info of the section with the given elders.
pub open spec fn key_info_of(info: EldersInfoView) -> SectionKeyInfoView {
    SectionKeyInfoView { elders_info: info, key: info.member_ids() }
}

impl SectionKeyInfo {
    /// The key info of the section with the given elders.
    pub fn from_elders_info(info: &EldersInfo) -> (r: Self)
        ensures
            r@ == key_info_of(info@),
    {
        SectionKeyInfo { key_info_holder: BlsPublicKeyForSectionKeyInfo::from_elders_info(info) }
    }

    /// The section's key.
    pub fn key(&self) -> (r: &BlsPublicKey)
        ensures
            r@ == self@.key,
    {
        self.key_info_holder.key()
    }

    /// The section's prefix.
    pub fn prefix(&self) -> (r: &Prefix)
        ensures
            r@ == self@.prefix(),
    {
        self.key_info_holder.internal_elders_info().prefix()
    }

    /// The section's version.
    pub fn version(&self) -> (r: &u64)
        ensures
            *r == self@.version(),
    {
        self.key_info_holder.internal_elders_info().version()
    }

    /// The bytes that are signed to vouch for this key.
    pub fn serialise_for_signature(&self) -> (r: Option<Vec<u8>>)
        ensures
            r matches Some(bytes) && bytes@ == self@.signed_bytes(),
    {
        let plain = self.key_info_holder.internal_elders_info().to_plain();
        match serialise_elders_info(&plain) {
            Ok(bytes) => Some(bytes),
            Err(_) => None,
        }
    }

    /// The text of a key info whose prefix and key have the given texts.
    pub fn fmt(&self, prefix_text: &str, key_text: &str) -> (r: String)
        ensures
            r@ == "SectionKeyInfo { prefix: "@ + prefix_text@ + ", version: "@ + text::decimal(
                self@.version() as nat,
            ) + ", key: "@ + key_text@ + " }"@,
    {
        let version = text::decimal_text(*self.version());
        String::from_str("SectionKeyInfo { prefix: ").concat(prefix_text).concat(
            ", version: ",
        ).concat(version.as_str()).concat(", key: ").concat(key_text).concat(" }")
    }
}

impl Value for SectionKeyInfo {
    fn same(&self, other: &Self) -> (r: bool) {
        self.key_info_holder.internal_elders_info.same(
            &other.key_info_holder.internal_elders_info,
        ) && self.key_info_holder.key.same(&other.key_info_holder.key)
    }

    fn duplicate(&self) -> (r: Self) {
        SectionKeyInfo {
            key_info_holder: BlsPublicKeyForSectionKeyInfo {
                internal_elders_info: self.key_info_holder.internal_elders_info.duplicate(),
                key: self.key_info_holder.key.duplicate(),
            },
        }
    }
}

impl Clone for SectionKeyInfo {
    fn clone(&self) -> (r: Self)
        ensures
            r@ == self@,
    {
        self.duplicate()
    }
}

impl Eq for SectionKeyInfo {

}

impl PartialEq for SectionKeyInfo {
    fn eq(&self, other: &Self) -> (r: bool) {
        self.same(other)
    }
}

impl vstd::std_specs::cmp::PartialEqSpecImpl for SectionKeyInfo {
    open spec fn obeys_eq_spec() -> bool {
        true
    }

    open spec fn eq_spec(&self, other: &Self) -> bool {
        self@ == other@
    }
}

/// The plain form of a key info.
pub type PlainSectionKeyInfo = (PlainEldersInfo, Vec<[u8; 32]>);

/// The view of the plain form of a key info.
pub type PlainSectionKeyInfoView = (PlainEldersInfoView, Seq<Seq<u8>>);

impl Encoded for SectionKeyInfo {
    type Plain = PlainSectionKeyInfo;

    open spec fn encode(v: SectionKeyInfoView) -> PlainSectionKeyInfoView {
        (EldersInfo::encode(v.elders_info), BlsPublicKey::encode(v.key))
    }

    open spec fn decode(p: PlainSectionKeyInfoView) -> SectionKeyInfoView {
        SectionKeyInfoView {
            elders_info: EldersInfo::decode(p.0),
            key: BlsPublicKey::decode(p.1),
        }
    }

    open spec fn representable(v: SectionKeyInfoView) -> bool {
        EldersInfo::representable(v.elders_info)
    }

    proof fn decode_encode(v: SectionKeyInfoView) {
        EldersInfo::decode_encode(v.elders_info);
        BlsPublicKey::decode_encode(v.key);
    }

    fn to_plain(&self) -> (r: PlainSectionKeyInfo) {
        (
            self.key_info_holder.internal_elders_info.to_plain(),
            self.key_info_holder.key.to_plain(),
        )
    }

    fn from_plain(p: &PlainSectionKeyInfo) -> (r: Self) {
        SectionKeyInfo {
            key_info_holder: BlsPublicKeyForSectionKeyInfo {
                internal_elders_info: EldersInfo::from_plain(&p.0),
                key: BlsPublicKey::from_plain(&p.1),
            },
        }
    }
}

/// A key with the signature that vouches for it.
pub struct SectionProofBlock {
    key_info: SectionKeyInfo,
    sig: BlsSignature,
}

#[verifier::ext_equal]
pub struct SectionProofBlockView {
    pub key_info: SectionKeyInfoView,
    pub sig: Seq<u8>,
}

impl View for SectionProofBlock {
    type V = SectionProofBlockView;

    closed spec fn view(&self) -> SectionProofBlockView {
        SectionProofBlockView { key_info: self.key_info@, sig: self.sig@ }
    }
}

impl SectionProofBlockView {
    /// The signature check can answer `answer` when asked whether the block was signed with `key`.
    pub open spec fn check_says<F: Fn(&BlsPublicKey, &BlsSignature, &Vec<u8>) -> bool>(
        self,
        verify: F,
        key: Seq<Seq<u8>>,
        answer: bool,
    ) -> bool {
        bls_emu::check_says(verify, key, self.sig, self.key_info.signed_bytes(), answer)
    }
}

impl SectionProofBlock {
    /// The block for the section with the given elders, if `combine` makes a signature of the key
    /// set and the elders' signature shares.
    pub fn from_elders_info_with_proofs<
        F: FnOnce(
            &BlsPublicKeySet,
            &Vec<(BlsPublicKeyShare, BlsSignatureShare)>,
        ) -> Option<BlsSignature>,
    >(
        elders_info: &EldersInfo,
        proofs: AccumulatingProof,
        pk_set: &BlsPublicKeySet,
        combine: F,
    ) -> (r: Option<Self>)
        requires
            forall|shares: &Vec<(BlsPublicKeyShare, BlsSignatureShare)>|
                call_requires(combine, (pk_set, shares)),
        ensures
            block_from_shares(elders_info@, proofs@, pk_set, combine, r),
    {
        let key_info = SectionKeyInfo::from_elders_info(elders_info);
        let sig_shares = proofs.into_sig_shares();
        let mut shares: Vec<(BlsPublicKeyShare, BlsSignatureShare)> = Vec::new();
        let len = sig_shares.len();
        let ghost expected = accumulating::shares_of(proofs@);
        for i in 0..len
            invariant
                expected == accumulating::shares_of(sig_shares@),
                len == expected.len(),
                shares@.len() == i,
                forall|j: int| 0 <= j < i ==> (#[trigger] shares@[j])@ == expected[j],
        {
            let payload = sig_shares.entry_at(i).1;
            shares.push((payload.pub_key_share, payload.sig_share.duplicate()));
        }
        assert(value::views(shares@) =~= expected);
        let sig = combine(pk_set, &shares);
        match sig {
            Some(sig) => Some(SectionProofBlock { key_info, sig }),
            None => None,
        }
    }

    /// The key info that the block vouches for.
    pub fn key_info(&self) -> (r: &SectionKeyInfo)
        ensures
            r@ == self@.key_info,
    {
        &self.key_info
    }

    /// The key that the block vouches for.
    pub fn key(&self) -> (r: &BlsPublicKey)
        ensures
            r@ == self@.key_info.key,
    {
        self.key_info.key()
    }

    /// The signature of the block.
    pub fn sig(&self) -> (r: &BlsSignature)
        ensures
            r@ == self@.sig,
    {
        &self.sig
    }

    /// Whether the block was signed with the given key, as `verify` tells.
    pub fn verify_with_pk<F: Fn(&BlsPublicKey, &BlsSignature, &Vec<u8>) -> bool>(
        &self,
        pk: &BlsPublicKey,
        verify: &F,
    ) -> (r: bool)
        requires
            bls_emu::checkable(*verify),
        ensures
            self@.check_says(*verify, pk@, r),
    {
        match self.key_info.serialise_for_signature() {
            Some(to_verify) => {
                let sig = &self.sig;
                let r = verify(pk, sig, &to_verify);
                r
            },
            None => false,
        }
    }

    /// The text of a block whose key info has the given text.
    pub fn fmt(&self, key_info_text: &str) -> (r: String)
        ensures
            r@ == "SectionProofBlock { key_info: "@ + key_info_text@ + ", sig: .. }"@,
    {
        String::from_str("SectionProofBlock { key_info: ").concat(key_info_text).concat(
            ", sig: .. }",
        )
    }
}

/// What comes of combining the shares of `proofs` into a signature for the section with the given
/// elders: `combine` was called on the key set and the shares, and its signature, if it gave one,
/// is that of the block.
pub open spec fn block_from_shares<
    F: FnOnce(
        &BlsPublicKeySet,
        &Vec<(BlsPublicKeyShare, BlsSignatureShare)>,
    ) -> Option<BlsSignature>,
>(
    info: EldersInfoView,
    proofs: Map<Seq<u8>, accumulating::EventSigPayloadView>,
    pk_set: &BlsPublicKeySet,
    combine: F,
    block: Option<SectionProofBlock>,
) -> bool {
    exists|shares: &Vec<(BlsPublicKeyShare, BlsSignatureShare)>, sig: Option<BlsSignature>|
        {
            &&& value::views(shares@) == accumulating::shares_of(proofs)
            &&& #[trigger] call_ensures(combine, (pk_set, shares), sig)
            &&& match sig {
                Some(s) => block matches Some(b) && b@ == (SectionProofBlockView {
                    key_info: key_info_of(info),
                    sig: s@,
                }),
                None => block is None,
            }
        }
}

// Signatures are not compared: two signatures made of different shares differ, although they are
// equally good.
impl PartialEq for SectionProofBlock {
    fn eq(&self, other: &Self) -> (r: bool) {
        self.key_info.same(&other.key_info)
    }
}

impl vstd::std_specs::cmp::PartialEqSpecImpl for SectionProofBlock {
    open spec fn obeys_eq_spec() -> bool {
        true
    }

    open spec fn eq_spec(&self, other: &Self) -> bool {
        self@.key_info == other@.key_info
    }
}

impl Eq for SectionProofBlock {

}

impl Clone for SectionProofBlock {
    fn clone(&self) -> (r: Self)
        ensures
            r@ == self@,
    {
        self.duplicate()
    }
}

impl Value for SectionProofBlock {
    fn same(&self, other: &Self) -> (r: bool) {
        self.key_info.same(&other.key_info) && self.sig.same(&other.sig)
    }

    fn duplicate(&self) -> (r: Self) {
        SectionProofBlock { key_info: self.key_info.duplicate(), sig: self.sig.duplicate() }
    }
}

/// The plain form of a block.
pub type PlainSectionProofBlock = (PlainSectionKeyInfo, Vec<u8>);

/// The view of the plain form of a block.
pub type PlainSectionProofBlockView = (PlainSectionKeyInfoView, Seq<u8>);

impl Encoded for SectionProofBlock {
    type Plain = PlainSectionProofBlock;

    open spec fn encode(v: SectionProofBlockView) -> PlainSectionProofBlockView {
        (SectionKeyInfo::encode(v.key_info), v.sig)
    }

    open spec fn decode(p: PlainSectionProofBlockView) -> SectionProofBlockView {
        SectionProofBlockView { key_info: SectionKeyInfo::decode(p.0), sig: p.1 }
    }

    open spec fn representable(v: SectionProofBlockView) -> bool {
        SectionKeyInfo::representable(v.key_info)
    }

    proof fn decode_encode(v: SectionProofBlockView) {
        SectionKeyInfo::decode_encode(v.key_info);
    }

    fn to_plain(&self) -> (r: PlainSectionProofBlock) {
        let sig = duplicate_bytes(&self.sig.bytes);
        assert(sig.deep_view() =~= sig@);
        (self.key_info.to_plain(), sig)
    }

    fn from_plain(p: &PlainSectionProofBlock) -> (r: Self) {
        assert(p.1.deep_view() =~= p.1@);
        SectionProofBlock {
            key_info: SectionKeyInfo::from_plain(&p.0),
            sig: BlsSignature { bytes: duplicate_bytes(&p.1) },
        }
    }
}

/// The keys of a section from its first one on, each but the first with the signature made with
/// the key before it.
pub struct SectionProofChain {
    genesis_key_info: SectionKeyInfo,
    blocks: Vec<SectionProofBlock>,
}

#[verifier::ext_equal]
pub struct SectionProofChainView {
    pub genesis_key_info: SectionKeyInfoView,
    pub blocks: Seq<SectionProofBlockView>,
}

impl View for SectionProofChain {
    type V = SectionProofChainView;

    closed spec fn view(&self) -> SectionProofChainView {
        SectionProofChainView {
            genesis_key_info: self.genesis_key_info@,
            blocks: value::views(self.blocks@),
        }
    }
}

impl SectionProofChainView {
    /// All key infos, from the first one on.
    pub open spec fn key_infos(self) -> Seq<SectionKeyInfoView> {
        Seq::new(
            self.blocks.len() + 1,
            |i: int|
                if i == 0 {
                    self.genesis_key_info
                } else {
                    self.blocks[i - 1].key_info
                },
        )
    }

    /// The chain with one more block.
    pub open spec fn pushed(self, block: SectionProofBlockView) -> SectionProofChainView {
        SectionProofChainView { blocks: self.blocks.push(block), ..self }
    }

    /// The chain without its first `n` keys.
    pub open spec fn from_key(self, n: int) -> SectionProofChainView {
        SectionProofChainView {
            genesis_key_info: self.key_infos()[n],
            blocks: self.blocks.skip(n),
        }
    }

    /// The index of the key that a slice from the given index starts with: the index itself, or
    /// that of the last key if the chain is shorter.
    pub open spec fn slice_start(self, first_index: int) -> int {
        if first_index <= self.blocks.len() {
            first_index
        } else {
            self.blocks.len() as int
        }
    }

    /// The chain without its first `first_index` keys; of a shorter chain the last key is left.
    pub open spec fn sliced_from(self, first_index: int) -> SectionProofChainView {
        self.from_key(self.slice_start(first_index))
    }

    /// The signature check can confirm that block `i` was signed with the key before it.
    pub open spec fn block_accepted<F: Fn(&BlsPublicKey, &BlsSignature, &Vec<u8>) -> bool>(
        self,
        verify: F,
        i: int,
    ) -> bool {
        self.blocks[i].check_says(verify, self.key_infos()[i].key, true)
    }

    /// The signature check can confirm every block.
    pub open spec fn accepted<F: Fn(&BlsPublicKey, &BlsSignature, &Vec<u8>) -> bool>(
        self,
        verify: F,
    ) -> bool {
        forall|i: int| 0 <= i < self.blocks.len() ==> #[trigger] self.block_accepted(verify, i)
    }

    /// The signature check can reject a block after it has confirmed all blocks before it.
    pub open spec fn rejected<F: Fn(&BlsPublicKey, &BlsSignature, &Vec<u8>) -> bool>(
        self,
        verify: F,
    ) -> bool {
        exists|i: int|
            {
                &&& 0 <= i < self.blocks.len()
                &&& forall|j: int| 0 <= j < i ==> #[trigger] self.block_accepted(verify, j)
                &&& #[trigger] self.blocks[i].check_says(verify, self.key_infos()[i].key, false)
            }
    }
}

impl SectionProofChainView {
    /// Checking the chain can give `answer`.
    pub open spec fn validate_says<F: Fn(&BlsPublicKey, &BlsSignature, &Vec<u8>) -> bool>(
        self,
        verify: F,
        answer: bool,
    ) -> bool {
        if answer {
            self.accepted(verify)
        } else {
            self.rejected(verify)
        }
    }

    /// Comparing the chains can give `answer`: they are equal if they hold the same keys and the
    /// signature check confirms both.
    pub open spec fn eq_says<F: Fn(&BlsPublicKey, &BlsSignature, &Vec<u8>) -> bool>(
        self,
        other: Self,
        verify: F,
        answer: bool,
    ) -> bool {
        if answer {
            self.key_infos() == other.key_infos() && self.accepted(verify) && other.accepted(
                verify,
            )
        } else {
            self.key_infos() != other.key_infos() || self.rejected(verify) || other.rejected(
                verify,
            )
        }
    }
}

impl SectionProofChain {
    /// The chain that starts with the given key.
    pub fn from_genesis(key_info: SectionKeyInfo) -> (r: Self)
        ensures
            r@ == (SectionProofChainView {
                genesis_key_info: key_info@,
                blocks: Seq::<SectionProofBlockView>::empty(),
            }),
    {
        let r = SectionProofChain { genesis_key_info: key_info, blocks: Vec::new() };
        assert(r@.blocks =~= Seq::<SectionProofBlockView>::empty());
        r
    }

    /// The number of blocks.
    pub fn blocks_len(&self) -> (r: usize)
        ensures
            r == self@.blocks.len(),
    {
        self.blocks.len()
    }

    /// Appends a block.
    pub fn push(&mut self, block: SectionProofBlock)
        ensures
            final(self)@ == old(self)@.pushed(block@),
    {
        self.blocks.push(block);
        assert(self@.blocks =~= old(self)@.blocks.push(block@));
    }

    /// Whether every block was signed with the key before it, as `verify` tells.
    pub fn validate<F: Fn(&BlsPublicKey, &BlsSignature, &Vec<u8>) -> bool>(
        &self,
        verify: &F,
    ) -> (r: bool)
        requires
            bls_emu::checkable(*verify),
        ensures
            self@.validate_says(*verify, r),
    {
        let mut current_pk = self.genesis_key_info.key();
        for i in 0..self.blocks.len()
            invariant
                bls_emu::checkable(*verify),
                current_pk@ == self@.key_infos()[i as int].key,
                forall|j: int| 0 <= j < i ==> #[trigger] self@.block_accepted(*verify, j),
        {
            let block = &self.blocks[i];
            assert(block@ == self@.blocks[i as int]);
            if !block.verify_with_pk(current_pk, verify) {
                assert(self@.blocks[i as int].check_says(
                    *verify,
                    self@.key_infos()[i as int].key,
                    false,
                ));
                return false;
            }
            assert(self@.block_accepted(*verify, i as int));
            current_pk = block.key();
        }
        true
    }

    /// The latest key info.
    pub fn last_public_key_info(&self) -> (r: &SectionKeyInfo)
        ensures
            r@ == self@.key_infos().last(),
    {
        let len = self.blocks.len();
        if len == 0 {
            &self.genesis_key_info
        } else {
            let block = &self.blocks[len - 1];
            assert(block@ == self@.blocks[len - 1]);
            block.key_info()
        }
    }

    /// The latest key.
    pub fn last_public_key(&self) -> (r: &BlsPublicKey)
        ensures
            r@ == self@.key_infos().last().key,
    {
        self.last_public_key_info().key()
    }

    /// All key infos, from the first one on.
    pub fn all_key_infos(&self) -> (r: Vec<&SectionKeyInfo>)
        ensures
            r@.len() == self@.key_infos().len(),
            forall|i: int| 0 <= i < r@.len() ==> (#[trigger] r@[i])@ == self@.key_infos()[i],
    {
        let mut r: Vec<&SectionKeyInfo> = Vec::new();
        r.push(&self.genesis_key_info);
        for i in 0..self.blocks.len()
            invariant
                r@.len() == i + 1,
                forall|j: int| 0 <= j < r@.len() ==> (#[trigger] r@[j])@ == self@.key_infos()[j],
        {
            let block = &self.blocks[i];
            assert(block@ == self@.blocks[i as int]);
            r.push(block.key_info());
        }
        r
    }

    /// The chain without its first `first_index` keys; of a shorter chain the last key is left.
    pub fn slice_from(&self, first_index: usize) -> (r: SectionProofChain)
        ensures
            r@ == self@.sliced_from(first_index as int),
    {
        if first_index == 0 || self.blocks.len() == 0 {
            let r = self.duplicate();
            assert(r@.blocks =~= self@.blocks.skip(0));
            return r;
        }
        let genesis_index: usize = if first_index < self.blocks.len() {
            first_index - 1
        } else {
            self.blocks.len() - 1
        };
        let genesis_block = &self.blocks[genesis_index];
        assert(genesis_block@ == self@.blocks[genesis_index as int]);
        let genesis_key_info = genesis_block.key_info().duplicate();
        let mut blocks: Vec<SectionProofBlock> = Vec::new();
        let block_first_index: usize = genesis_index + 1;
        for i in block_first_index..self.blocks.len()
            invariant
                blocks@.len() == i - block_first_index,
                forall|j: int|
                    0 <= j < blocks@.len() ==> (#[trigger] blocks@[j])@ == self.blocks@[j
                        + block_first_index]@,
        {
            blocks.push(self.blocks[i].duplicate());
        }
        let r = SectionProofChain { genesis_key_info, blocks };
        assert(r@.blocks =~= self@.blocks.skip(block_first_index as int));
        r
    }

    /// Whether the chains hold the same keys and both are valid, as `verify` tells. The signatures
    /// are not compared.
    pub fn eq<F: Fn(&BlsPublicKey, &BlsSignature, &Vec<u8>) -> bool>(
        &self,
        other: &Self,
        verify: &F,
    ) -> (r: bool)
        requires
            bls_emu::checkable(*verify),
        ensures
            self@.eq_says(other@, *verify, r),
    {
        self.same_keys(other) && self.validate(verify) && other.validate(verify)
    }

    /// Whether the chains hold the same keys.
    fn same_keys(&self, other: &Self) -> (r: bool)
        ensures
            r == (self@.key_infos() == other@.key_infos()),
    {
        let ghost a = self@.key_infos();
        let ghost b = other@.key_infos();
        if self.blocks.len() != other.blocks.len() {
            assert(a.len() != b.len());
            return false;
        }
        if !self.genesis_key_info.same(&other.genesis_key_info) {
            assert(a[0] != b[0]);
            return false;
        }
        for i in 0..self.blocks.len()
            invariant
                a == self@.key_infos(),
                b == other@.key_infos(),
                self.blocks@.len() == other.blocks@.len(),
                forall|j: int| 0 <= j <= i ==> a[j] == b[j],
        {
            assert(self.blocks@[i as int]@ == self@.blocks[i as int]);
            assert(other.blocks@[i as int]@ == other@.blocks[i as int]);
            if !(self.blocks[i] == other.blocks[i]) {
                assert(a[i + 1] != b[i + 1]);
                return false;
            }
            assert(a[i + 1] == b[i + 1]);
        }
        assert(a =~= b);
        true
    }
}

impl Clone for SectionProofChain {
    fn clone(&self) -> (r: Self)
        ensures
            r@ == self@,
    {
        self.duplicate()
    }
}

impl Value for SectionProofChain {
    fn same(&self, other: &Self) -> (r: bool) {
        self.genesis_key_info.same(&other.genesis_key_info) && same_list(
            &self.blocks,
            &other.blocks,
        )
    }

    fn duplicate(&self) -> (r: Self) {
        SectionProofChain {
            genesis_key_info: self.genesis_key_info.duplicate(),
            blocks: duplicate_list(&self.blocks),
        }
    }
}

/// The plain form of a chain.
pub type PlainSectionProofChain = (PlainSectionKeyInfo, Vec<PlainSectionProofBlock>);

/// The view of the plain form of a chain.
pub type PlainSectionProofChainView = (PlainSectionKeyInfoView, Seq<PlainSectionProofBlockView>);

impl Encoded for SectionProofChain {
    type Plain = PlainSectionProofChain;

    open spec fn encode(v: SectionProofChainView) -> PlainSectionProofChainView {
        (
            SectionKeyInfo::encode(v.genesis_key_info),
            encoding::encode_list::<SectionProofBlock>(v.blocks),
        )
    }

    open spec fn decode(p: PlainSectionProofChainView) -> SectionProofChainView {
        SectionProofChainView {
            genesis_key_info: SectionKeyInfo::decode(p.0),
            blocks: encoding::decode_list::<SectionProofBlock>(p.1),
        }
    }

    open spec fn representable(v: SectionProofChainView) -> bool {
        SectionKeyInfo::representable(v.genesis_key_info) && encoding::representable_list::<
            SectionProofBlock,
        >(v.blocks)
    }

    proof fn decode_encode(v: SectionProofChainView) {
        SectionKeyInfo::decode_encode(v.genesis_key_info);
        encoding::lemma_decode_encode_list::<SectionProofBlock>(v.blocks);
    }

    fn to_plain(&self) -> (r: PlainSectionProofChain) {
        (self.genesis_key_info.to_plain(), list_to_plain(&self.blocks))
    }

    fn from_plain(p: &PlainSectionProofChain) -> (r: Self) {
        SectionProofChain {
            genesis_key_info: SectionKeyInfo::from_plain(&p.0),
            blocks: list_from_plain(&p.1),
        }
    }
}

/// The key infos of a slice of a chain are the key infos of the chain from the slice's start on, so
/// the latest key stays the same.
pub proof fn law_slice_keeps_later_keys(chain: SectionProofChainView, first_index: int)
    requires
        0 <= first_index,
    ensures
        chain.sliced_from(first_index).key_infos() == chain.key_infos().skip(
            chain.slice_start(first_index),
        ),
        chain.sliced_from(first_index).key_infos().last() == chain.key_infos().last(),
{
    assert(chain.sliced_from(first_index).key_infos() =~= chain.key_infos().skip(
        chain.slice_start(first_index),
    ));
}

/// The slice from the start is the chain, and a slice of a slice is the slice without the keys that
/// both leave out.
pub proof fn law_slice_of_slice(chain: SectionProofChainView, first: int, second: int)
    requires
        0 <= first,
        0 <= second,
    ensures
        chain.sliced_from(0) == chain,
        chain.sliced_from(first).sliced_from(second) == chain.sliced_from(first + second),
{
    let slice = chain.sliced_from(first);
    let n = chain.slice_start(first);
    let m = slice.slice_start(second);
    law_slice_keeps_later_keys(chain, first);
    assert(slice.blocks.len() == chain.blocks.len() - n);
    assert(chain.slice_start(first + second) == n + m);
    assert(chain.blocks.skip(n).skip(m) =~= chain.blocks.skip(n + m));
    assert(slice.from_key(m) =~= chain.from_key(n + m));
    assert(chain.blocks.skip(0) =~= chain.blocks);
    assert(chain.sliced_from(0) =~= chain);
}

/// A check that never gives two answers to one question does not do so on a signature.
proof fn lemma_one_answer<F: Fn(&BlsPublicKey, &BlsSignature, &Vec<u8>) -> bool>(
    block: SectionProofBlockView,
    verify: F,
    key: Seq<Seq<u8>>,
)
    requires
        bls_emu::one_answer(verify),
        block.check_says(verify, key, true),
    ensures
        !block.check_says(verify, key, false),
{
}

/// With a signature check that never gives two answers to one question, no chain is both valid and
/// not: checking a chain always gives the same answer.
pub proof fn law_validity_has_one_answer<
    F: Fn(&BlsPublicKey, &BlsSignature, &Vec<u8>) -> bool,
>(chain: SectionProofChainView, verify: F)
    requires
        bls_emu::one_answer(verify),
    ensures
        !(chain.validate_says(verify, true) && chain.validate_says(verify, false)),
{
    if chain.accepted(verify) && chain.rejected(verify) {
        let i = choose|i: int|
            {
                &&& 0 <= i < chain.blocks.len()
                &&& forall|j: int| 0 <= j < i ==> #[trigger] chain.block_accepted(verify, j)
                &&& #[trigger] chain.blocks[i].check_says(
                    verify,
                    chain.key_infos()[i].key,
                    false,
                )
            };
        assert(chain.block_accepted(verify, i));
        lemma_one_answer(chain.blocks[i], verify, chain.key_infos()[i].key);
    }
}

/// With such a check, comparing two chains gives what the keys and checking each of them give, so
/// it always gives the same answer too.
pub proof fn law_equality_is_same_keys_and_validity<
    F: Fn(&BlsPublicKey, &BlsSignature, &Vec<u8>) -> bool,
>(
    chain: SectionProofChainView,
    other: SectionProofChainView,
    verify: F,
    equal: bool,
    valid: bool,
    other_valid: bool,
)
    requires
        bls_emu::one_answer(verify),
        chain.eq_says(other, verify, equal),
        chain.validate_says(verify, valid),
        other.validate_says(verify, other_valid),
    ensures
        equal == (chain.key_infos() == other.key_infos() && valid && other_valid),
{
    law_validity_has_one_answer(chain, verify);
    law_validity_has_one_answer(other, verify);
}

proof fn lemma_slice_accepted<F: Fn(&BlsPublicKey, &BlsSignature, &Vec<u8>) -> bool>(
    chain: SectionProofChainView,
    first_index: int,
    verify: F,
)
    requires
        0 <= first_index,
        chain.accepted(verify),
    ensures
        chain.sliced_from(first_index).accepted(verify),
{
    let slice = chain.sliced_from(first_index);
    let n = chain.slice_start(first_index);
    law_slice_keeps_later_keys(chain, first_index);
    assert forall|i: int| 0 <= i < slice.blocks.len() implies #[trigger] slice.block_accepted(
        verify,
        i,
    ) by {
        assert(chain.block_accepted(verify, i + n));
        assert(slice.blocks[i] == chain.blocks[i + n]);
        assert(slice.key_infos()[i] == chain.key_infos()[i + n]);
    }
}

/// With a signature check that never gives two answers to one question, a slice of a chain that was
/// found valid is found valid.
pub proof fn law_slice_stays_valid<F: Fn(&BlsPublicKey, &BlsSignature, &Vec<u8>) -> bool>(
    chain: SectionProofChainView,
    first_index: int,
    verify: F,
    slice_valid: bool,
)
    requires
        0 <= first_index,
        bls_emu::one_answer(verify),
        chain.validate_says(verify, true),
        chain.sliced_from(first_index).validate_says(verify, slice_valid),
    ensures
        slice_valid,
{
    lemma_slice_accepted(chain, first_index, verify);
    law_validity_has_one_answer(chain.sliced_from(first_index), verify);
}

/// A block is appended as it is, valid or not: its key info becomes the last one.
pub proof fn law_push_appends_key(chain: SectionProofChainView, block: SectionProofBlockView)
    ensures
        chain.pushed(block).blocks.len() == chain.blocks.len() + 1,
        chain.pushed(block).key_infos() == chain.key_infos().push(block.key_info),
{
    assert(chain.pushed(block).key_infos() =~= chain.key_infos().push(block.key_info));
}

proof fn lemma_push_accepted<F: Fn(&BlsPublicKey, &BlsSignature, &Vec<u8>) -> bool>(
    chain: SectionProofChainView,
    block: SectionProofBlockView,
    verify: F,
)
    ensures
        chain.pushed(block).accepted(verify) <==> chain.accepted(verify) && block.check_says(
            verify,
            chain.key_infos().last().key,
            true,
        ),
{
    let longer = chain.pushed(block);
    law_push_appends_key(chain, block);
    assert forall|i: int| 0 <= i < chain.blocks.len() implies longer.block_accepted(verify, i)
        == #[trigger] chain.block_accepted(verify, i) by {
        assert(longer.blocks[i] == chain.blocks[i]);
        assert(longer.key_infos()[i] == chain.key_infos()[i]);
    }
    let n = chain.blocks.len() as int;
    assert(longer.blocks[n] == block);
    assert(longer.key_infos()[n] == chain.key_infos().last());
    if longer.accepted(verify) {
        assert(longer.block_accepted(verify, n));
        assert forall|i: int| 0 <= i < n implies #[trigger] chain.block_accepted(verify, i) by {
            assert(longer.block_accepted(verify, i));
        }
    }
    if chain.accepted(verify) && block.check_says(verify, chain.key_infos().last().key, true) {
        assert forall|i: int| 0 <= i <= n implies #[trigger] longer.block_accepted(verify, i) by {
            if i < n {
                assert(chain.block_accepted(verify, i));
            }
        }
    }
}

/// With a signature check that never gives two answers to one question, a chain with one more block
/// is found valid exactly if the chain is found valid and the block is found to be signed with the
/// chain's latest key.
pub proof fn law_push_extends_validity<F: Fn(&BlsPublicKey, &BlsSignature, &Vec<u8>) -> bool>(
    chain: SectionProofChainView,
    block: SectionProofBlockView,
    verify: F,
    valid: bool,
    block_signed: bool,
    longer_valid: bool,
)
    requires
        bls_emu::one_answer(verify),
        chain.validate_says(verify, valid),
        block.check_says(verify, chain.key_infos().last().key, block_signed),
        chain.pushed(block).validate_says(verify, longer_valid),
    ensures
        longer_valid == (valid && block_signed),
{
    lemma_push_accepted(chain, block, verify);
    law_validity_has_one_answer(chain, verify);
    law_validity_has_one_answer(chain.pushed(block), verify);
    if longer_valid {
        lemma_one_answer(block, verify, chain.key_infos().last().key);
    }
}

/// The key info of a section has its elders info, and its key is held by its elders and no others,
/// each once and in ascending order of the ids.
pub proof fn law_key_is_held_by_the_elders(info: EldersInfoView, id: Seq<u8>)
    requires
        info.members.dom().finite(),
    ensures
        ({
            let key_info = key_info_of(info);
            &&& key_info.elders_info == info
            &&& key_info.prefix() == info.prefix
            &&& key_info.version() == info.version
            &&& key_info.key.len() == info.members.dom().len()
            &&& key_info.key.contains(id) <==> info.members.contains_key(id)
            &&& forall|i: int, j: int|
                0 <= i < j < key_info.key.len() ==> xor_name::bytes_before(
                    #[trigger] key_info.key[i],
                    #[trigger] key_info.key[j],
                )
        }),
{
    elders_info::law_members_in_ascending_order(info);
    assert(info.member_ids().to_set().contains(id) == info.members.dom().contains(id));
}

/// What is signed for a key is made of the whole elders info that the key belongs to: the plain
/// form that the bytes are made of stands for that info.
pub proof fn law_whole_info_is_signed(key_info: SectionKeyInfoView)
    requires
        EldersInfo::representable(key_info.elders_info),
    ensures
        exists|plain: PlainEldersInfoView| #[trigger]
            wire::elders_info_bytes(plain) == key_info.signed_bytes() && EldersInfo::decode(plain)
                == key_info.elders_info,
{
    EldersInfo::decode_encode(key_info.elders_info);
    let plain = EldersInfo::encode(key_info.elders_info);
    assert(wire::elders_info_bytes(plain) == key_info.signed_bytes());
}

/// The key infos of a chain are that of its start and then those of its blocks, in order.
pub proof fn law_key_infos_in_order(chain: SectionProofChainView, i: int)
    requires
        0 <= i < chain.blocks.len(),
    ensures
        chain.key_infos().len() == chain.blocks.len() + 1,
        chain.key_infos()[0] == chain.genesis_key_info,
        chain.key_infos()[i + 1] == chain.blocks[i].key_info,
{
}

/// The key that a block of the chain is checked with: that of the block before it, or the one that
/// the chain starts with.
pub open spec fn key_before(chain: SectionProofChainView, i: int) -> Seq<Seq<u8>> {
    if i == 0 {
        chain.genesis_key_info.key
    } else {
        chain.blocks[i - 1].key_info.key
    }
}

/// A chain is found valid only if the signature check confirms each block with the key before it,
/// the first one with the key that the chain starts with: it is asked of the block's own signature
/// and of what is signed for the block's own key. If it is found not to be valid, the check has
/// refused one of the blocks, asked in the same way.
pub proof fn law_blocks_are_checked_with_the_key_before<
    F: Fn(&BlsPublicKey, &BlsSignature, &Vec<u8>) -> bool,
>(chain: SectionProofChainView, verify: F)
    ensures
        chain.validate_says(verify, true) <==> forall|i: int|
            0 <= i < chain.blocks.len() ==> bls_emu::check_says(
                verify,
                key_before(chain, i),
                (#[trigger] chain.blocks[i]).sig,
                chain.blocks[i].key_info.signed_bytes(),
                true,
            ),
        chain.validate_says(verify, false) ==> exists|i: int|
            0 <= i < chain.blocks.len() && bls_emu::check_says(
                verify,
                key_before(chain, i),
                (#[trigger] chain.blocks[i]).sig,
                chain.blocks[i].key_info.signed_bytes(),
                false,
            ),
{
    assert forall|i: int| 0 <= i < chain.blocks.len() implies chain.key_infos()[i].key
        == #[trigger] key_before(chain, i) by {}
    assert forall|i: int| 0 <= i < chain.blocks.len() implies (#[trigger] chain.block_accepted(
        verify,
        i,
    )) == bls_emu::check_says(
        verify,
        key_before(chain, i),
        chain.blocks[i].sig,
        chain.blocks[i].key_info.signed_bytes(),
        true,
    ) by {}
    if chain.accepted(verify) {
        assert forall|i: int| 0 <= i < chain.blocks.len() implies bls_emu::check_says(
            verify,
            key_before(chain, i),
            (#[trigger] chain.blocks[i]).sig,
            chain.blocks[i].key_info.signed_bytes(),
            true,
        ) by {
            assert(chain.block_accepted(verify, i));
        }
    } else {
        let i = choose|i: int|
            0 <= i < chain.blocks.len() && !#[trigger] chain.block_accepted(verify, i);
        assert(!bls_emu::check_says(
            verify,
            key_before(chain, i),
            chain.blocks[i].sig,
            chain.blocks[i].key_info.signed_bytes(),
            true,
        ));
    }
    if chain.rejected(verify) {
        let i = choose|i: int|
            {
                &&& 0 <= i < chain.blocks.len()
                &&& forall|j: int| 0 <= j < i ==> #[trigger] chain.block_accepted(verify, j)
                &&& #[trigger] chain.blocks[i].check_says(
                    verify,
                    chain.key_infos()[i].key,
                    false,
                )
            };
        assert(key_before(chain, i) == chain.key_infos()[i].key);
        assert(bls_emu::check_says(
            verify,
            key_before(chain, i),
            chain.blocks[i].sig,
            chain.blocks[i].key_info.signed_bytes(),
            false,
        ));
    }
}

/// Chains are found equal only if they start with the same key info, have as many blocks with the
/// same key infos at the same places, and both are valid. If they are found not to be equal, a key
/// info differs or one of them has been found not to be valid.
pub proof fn law_equal_chains<F: Fn(&BlsPublicKey, &BlsSignature, &Vec<u8>) -> bool>(
    chain: SectionProofChainView,
    other: SectionProofChainView,
    verify: F,
)
    ensures
        chain.eq_says(other, verify, true) <==> {
            &&& chain.genesis_key_info == other.genesis_key_info
            &&& chain.blocks.len() == other.blocks.len()
            &&& forall|i: int|
                0 <= i < chain.blocks.len() ==> (#[trigger] chain.blocks[i]).key_info
                    == other.blocks[i].key_info
            &&& chain.validate_says(verify, true)
            &&& other.validate_says(verify, true)
        },
        chain.eq_says(other, verify, false) ==> {
            ||| chain.genesis_key_info != other.genesis_key_info
            ||| chain.blocks.len() != other.blocks.len()
            ||| exists|i: int|
                0 <= i < chain.blocks.len() && (#[trigger] chain.blocks[i]).key_info
                    != other.blocks[i].key_info
            ||| chain.validate_says(verify, false)
            ||| other.validate_says(verify, false)
        },
{
    let a = chain.key_infos();
    let b = other.key_infos();
    if a == b {
        assert(a[0] == b[0]);
        assert(a.len() == b.len());
        assert forall|i: int| 0 <= i < chain.blocks.len() implies (
        #[trigger] chain.blocks[i]).key_info == other.blocks[i].key_info by {
            assert(a[i + 1] == b[i + 1]);
        }
    } else if chain.genesis_key_info == other.genesis_key_info && chain.blocks.len()
        == other.blocks.len() && forall|i: int|
        0 <= i < chain.blocks.len() ==> (#[trigger] chain.blocks[i]).key_info
            == other.blocks[i].key_info {
        assert forall|i: int| 0 <= i < a.len() implies a[i] == b[i] by {
            if i > 0 {
                assert(chain.blocks[i - 1].key_info == other.blocks[i - 1].key_info);
            }
        }
        assert(a =~= b);
    }
}

/// A slice leaves out as many keys as it is told, but never the last one: it starts with the first
/// key that is left and has the blocks after it as they are.
pub proof fn law_slice_leaves_out_the_first_keys(
    chain: SectionProofChainView,
    first_index: int,
    i: int,
)
    requires
        0 <= first_index,
    ensures
        ({
            let n = chain.blocks.len() as int;
            let slice = chain.sliced_from(first_index);
            &&& first_index == 0 ==> slice == chain
            &&& 0 < first_index <= n ==> {
                &&& slice.genesis_key_info == chain.blocks[first_index - 1].key_info
                &&& slice.blocks.len() == n - first_index
                &&& 0 <= i < n - first_index ==> slice.blocks[i] == chain.blocks[first_index + i]
            }
            &&& first_index > n ==> {
                &&& slice.blocks.len() == 0
                &&& n > 0 ==> slice.genesis_key_info == chain.blocks[n - 1].key_info
                &&& n == 0 ==> slice.genesis_key_info == chain.genesis_key_info
            }
        }),
{
}

/// A pushed block comes last, and the chain before it stays.
pub proof fn law_pushed_block_comes_last(
    chain: SectionProofChainView,
    block: SectionProofBlockView,
    i: int,
)
    ensures
        ({
            let n = chain.blocks.len() as int;
            let longer = chain.pushed(block);
            &&& longer.genesis_key_info == chain.genesis_key_info
            &&& longer.blocks.len() == n + 1
            &&& longer.blocks[n] == block
            &&& 0 <= i < n ==> longer.blocks[i] == chain.blocks[i]
            &&& longer.key_infos().last() == block.key_info
        }),
{
}

/// What comes of the signature shares for a new info. `combine` was asked with the key set and one
/// pair for each elder that gave a share: its key share with its own signature share, in ascending
/// order of the elders. There is a block exactly if it has given a signature; the block has that
/// signature and the key info of the new info.
pub proof fn law_block_of_the_elders_shares<
    F: FnOnce(
        &BlsPublicKeySet,
        &Vec<(BlsPublicKeyShare, BlsSignatureShare)>,
    ) -> Option<BlsSignature>,
>(
    info: EldersInfoView,
    proofs: Map<Seq<u8>, accumulating::EventSigPayloadView>,
    pk_set: &BlsPublicKeySet,
    combine: F,
    block: Option<SectionProofBlock>,
)
    requires
        proofs.dom().finite(),
        block_from_shares(info, proofs, pk_set, combine, block),
    ensures
        exists|
            shares: &Vec<(BlsPublicKeyShare, BlsSignatureShare)>,
            sig: Option<BlsSignature>,
            ids: Seq<Seq<u8>>,
        |
            {
                &&& #[trigger] call_ensures(combine, (pk_set, shares), sig)
                &&& #[trigger] ids.to_set() == proofs.dom()
                &&& ids.len() == shares@.len()
                &&& shares@.len() == proofs.dom().len()
                &&& forall|i: int, j: int|
                    0 <= i < j < ids.len() ==> xor_name::bytes_before(
                        #[trigger] ids[i],
                        #[trigger] ids[j],
                    )
                &&& forall|i: int|
                    0 <= i < shares@.len() ==> (#[trigger] shares@[i]).0@
                        == proofs[ids[i]].pub_key_share && shares@[i].1@
                        == proofs[ids[i]].sig_share
                &&& block is Some == sig is Some
                &&& block is Some ==> block->0@.sig == sig->0@ && block->0@.key_info
                    == key_info_of(info)
            },
{
    let (shares, sig) = choose|
        shares: &Vec<(BlsPublicKeyShare, BlsSignatureShare)>,
        sig: Option<BlsSignature>,
    |
        {
            &&& value::views(shares@) == accumulating::shares_of(proofs)
            &&& #[trigger] call_ensures(combine, (pk_set, shares), sig)
            &&& match sig {
                Some(s) => block matches Some(b) && b@ == (SectionProofBlockView {
                    key_info: key_info_of(info),
                    sig: s@,
                }),
                None => block is None,
            }
        };
    accumulating::law_shares_are_those_of_the_elders(proofs);
    let ids = choose|ids: Seq<Seq<u8>>|
        {
            &&& #[trigger] ids.to_set() == proofs.dom()
            &&& ids.len() == proofs.dom().len()
            &&& forall|i: int, j: int|
                0 <= i < j < ids.len() ==> xor_name::bytes_before(
                    #[trigger] ids[i],
                    #[trigger] ids[j],
                )
            &&& forall|i: int|
                0 <= i < ids.len() ==> (#[trigger] accumulating::shares_of(proofs)[i]).0
                    == proofs[ids[i]].pub_key_share && accumulating::shares_of(proofs)[i].1
                    == proofs[ids[i]].sig_share
        };
    assert forall|i: int| 0 <= i < shares@.len() implies (#[trigger] shares@[i]).0@
        == proofs[ids[i]].pub_key_share && shares@[i].1@ == proofs[ids[i]].sig_share by {
        assert(value::views(shares@)[i] == shares@[i]@);
        assert(accumulating::shares_of(proofs)[i] == shares@[i]@);
    }
    assert(value::views(shares@).len() == shares@.len());
    assert(call_ensures(combine, (pk_set, shares), sig));
    assert(ids.to_set() == proofs.dom());
}

/// The plain form of a chain has that of its first key info and then those of its blocks in order,
/// each with its signature as it is.
pub proof fn law_plain_form_of_chain(chain: SectionProofChainView, i: int)
    ensures
        ({
            let (first, blocks) = SectionProofChain::encode(chain);
            &&& first.0 == EldersInfo::encode(chain.genesis_key_info.elders_info)
            &&& first.1 == chain.genesis_key_info.key
            &&& blocks.len() == chain.blocks.len()
            &&& 0 <= i < blocks.len() ==> {
                &&& blocks[i].0.0 == EldersInfo::encode(chain.blocks[i].key_info.elders_info)
                &&& blocks[i].0.1 == chain.blocks[i].key_info.key
                &&& blocks[i].1 == chain.blocks[i].sig
            }
        }),
{
}

/// Two key infos are equal exactly if the elders infos and the keys are. Two blocks are equal
/// exactly if their key infos are, whatever their signatures.
pub proof fn law_equal_keys_and_blocks(
    a: SectionKeyInfo,
    b: SectionKeyInfo,
    c: SectionProofBlock,
    d: SectionProofBlock,
)
    ensures
        SectionKeyInfo::obeys_eq_spec(),
        SectionProofBlock::obeys_eq_spec(),
        a.eq_spec(&b) <==> a@.elders_info == b@.elders_info
            && a@.key == b@.key,
        c.eq_spec(&d) <==> c@.key_info.elders_info
            == d@.key_info.elders_info && c@.key_info.key == d@.key_info.key,
{
}

/// What a chain tells of its keys fits together: there is one key info more than there are blocks,
/// and the last key is that of the last key info.
pub proof fn law_answers_about_keys(
    chain: &SectionProofChain,
    blocks: usize,
    infos: Vec<&SectionKeyInfo>,
    last_info: &SectionKeyInfo,
    last_key: &BlsPublicKey,
)
    requires
        call_ensures(SectionProofChain::blocks_len, (chain,), blocks),
        call_ensures(SectionProofChain::all_key_infos, (chain,), infos),
        call_ensures(SectionProofChain::last_public_key_info, (chain,), last_info),
        call_ensures(SectionProofChain::last_public_key, (chain,), last_key),
    ensures
        infos@.len() == blocks + 1,
        infos@[0]@ == chain@.genesis_key_info,
        forall|i: int|
            0 < i < infos@.len() ==> (#[trigger] infos@[i])@ == chain@.blocks[i - 1].key_info,
        last_info@ == infos@[infos@.len() - 1]@,
        last_key@ == last_info@.key,
{
}

} // verus!
