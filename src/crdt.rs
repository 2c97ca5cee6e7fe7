//! The CRDT library's state vectors, as this crate uses them: yrs's
//! `StateVector`, in its lib0 v1 encoding.
//!
//! Decoding an update is left to the caller: yrs panics on some malformed
//! updates (a client listed with no blocks, a clock that overflows), so the
//! actor's task makes those calls where it can contain a panic and hands the
//! results to the syncer.

use vstd::prelude::*;
use yrs::updates::decoder::Decode;
use yrs::updates::encoder::Encode;

verus! {

#[verifier::external_type_specification]
#[verifier::external_body]
pub struct ExStateVector(yrs::StateVector);

#[verifier::external_type_specification]
#[verifier::external_body]
pub struct ExReadError(yrs::encoding::read::Error);

/// What a yrs state vector holds: for each client id, the next clock value
/// that has not been observed yet.
pub uninterp spec fn sv_entries(sv: yrs::StateVector) -> Map<u64, u32>;

/// The entries of the state vector that lib0 v1 bytes decode to, if they do.
pub uninterp spec fn decoded_state_vector(bytes: Seq<u8>) -> Option<Map<u64, u32>>;

/// Pointwise maximum of two state vectors; a client missing on one side
/// takes the other side's clock.
pub open spec fn merge_clocks(a: Map<u64, u32>, b: Map<u64, u32>) -> Map<u64, u32> {
    Map::new(
        |k: u64| a.contains_key(k) || b.contains_key(k),
        |k: u64|
            if !a.contains_key(k) {
                b[k]
            } else if !b.contains_key(k) {
                a[k]
            } else if a[k] >= b[k] {
                a[k]
            } else {
                b[k]
            },
    )
}

/// Relies on the derived `Clone` of `StateVector`: a copy of its map.
pub assume_specification[ <yrs::StateVector as std::clone::Clone>::clone ](sv: &yrs::StateVector) -> (r: yrs::StateVector)
    ensures
        sv_entries(r) == sv_entries(*sv),
;

/// Relies on `StateVector::default`: a state vector with no entries.
#[verifier::external_body]
pub(crate) fn empty_state_vector() -> (r: yrs::StateVector)
    ensures
        sv_entries(r).dom() == Set::<u64>::empty(),
{
    yrs::StateVector::default()
}

/// Relies on `StateVector::decode_v1`: reads lib0 v1 bytes.
#[verifier::external_body]
pub(crate) fn decode_state_vector(bytes: &[u8]) -> (r: Result<yrs::StateVector, yrs::encoding::read::Error>)
    ensures
        r is Ok <==> decoded_state_vector(bytes@) is Some,
        r is Ok ==> sv_entries(r->Ok_0) == decoded_state_vector(bytes@)->Some_0,
{
    yrs::StateVector::decode_v1(bytes)
}

/// Relies on `StateVector::encode_v1`: writes the entries count, then each
/// (client, clock) pair, in the order the map is walked, which
/// `StateVector::decode_v1` reads back.
#[verifier::external_body]
pub(crate) fn encode_state_vector(sv: &yrs::StateVector) -> (r: Vec<u8>)
    ensures
        decoded_state_vector(r@) == Some(sv_entries(*sv)),
{
    sv.encode_v1()
}

/// Relies on `StateVector::merge`: each client of `other` is set to the
/// maximum of both clocks, a missing one counting as zero.
#[verifier::external_body]
pub(crate) fn merge_state_vector(sv: &mut yrs::StateVector, other: yrs::StateVector)
    ensures
        sv_entries(*final(sv)) == merge_clocks(sv_entries(*old(sv)), sv_entries(other)),
{
    sv.merge(other)
}

} // verus!
