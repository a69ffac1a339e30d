//! Turning plain values into bytes and back.

use vstd::prelude::*;

use crate::chain::elders_info::{PlainEldersInfo, PlainEldersInfoView};
use crate::chain::genesis::{PlainGenesisInfo, PlainGenesisInfoView};

verus! {

/// The error type of `maidsafe_utilities::serialisation`. It is carried through, not looked into.
#[verifier::external_type_specification]
#[verifier::external_body]
pub struct ExSerialisationError(maidsafe_utilities::serialisation::SerialisationError);

/// The bytes that `maidsafe_utilities::serialisation::serialise` makes of the plain form of an
/// elders info.
pub uninterp spec fn elders_info_bytes(plain: PlainEldersInfoView) -> Seq<u8>;

/// Calls `maidsafe_utilities::serialisation::serialise` on the plain form of an elders info. The
/// bytes depend on the value alone, and writing numbers, tuples, arrays and lists of known length
/// into a byte vector without a size limit does not fail.
#[verifier::external_body]
pub(crate) fn serialise_elders_info(plain: &PlainEldersInfo) -> (r: Result<
    Vec<u8>,
    maidsafe_utilities::serialisation::SerialisationError,
>)
    ensures
        r is Ok,
        r->Ok_0@ == elders_info_bytes(plain.deep_view()),
{
    maidsafe_utilities::serialisation::serialise(plain)
}

/// The bytes that `maidsafe_utilities::serialisation::serialise` makes of the plain form of a
/// genesis info.
pub uninterp spec fn genesis_bytes(plain: PlainGenesisInfoView) -> Seq<u8>;

/// The plain form of a genesis info that `maidsafe_utilities::serialisation::deserialise` finds in
/// the bytes, if they are one.
pub uninterp spec fn genesis_decoded(bytes: Seq<u8>) -> Option<PlainGenesisInfoView>;

/// Calls `maidsafe_utilities::serialisation::serialise` on the plain form of a genesis info. As
/// for an elders info, the bytes depend on the value alone and writing them does not fail. They
/// begin with the length of a list, so there are some, and reading them gives the value back.
#[verifier::external_body]
pub(crate) fn serialise_genesis_info(plain: &PlainGenesisInfo) -> (r: Result<
    Vec<u8>,
    maidsafe_utilities::serialisation::SerialisationError,
>)
    ensures
        r is Ok,
        r->Ok_0@ == genesis_bytes(plain.deep_view()),
        r->Ok_0@.len() > 0,
        genesis_decoded(r->Ok_0@) == Some(plain.deep_view()),
{
    maidsafe_utilities::serialisation::serialise(plain)
}

/// Calls `maidsafe_utilities::serialisation::deserialise` for the plain form of a genesis info.
/// Whether the bytes are one, and which, depends on the bytes alone.
#[verifier::external_body]
pub(crate) fn deserialise_genesis_info(bytes: &[u8]) -> (r: Result<
    PlainGenesisInfo,
    maidsafe_utilities::serialisation::SerialisationError,
>)
    ensures
        r is Ok == genesis_decoded(bytes@) is Some,
        r is Ok ==> r->Ok_0.deep_view() == genesis_decoded(bytes@)->0,
{
    maidsafe_utilities::serialisation::deserialise(bytes)
}

} // verus!
