//! The 64-bit FxHash of a byte string, as the `fxhash` crate computes it.
use vstd::prelude::*;

verus! {

/// The 64-bit FxHash of `bytes`, hashed as one byte slice.
pub uninterp spec fn fxhash64_of(bytes: Seq<u8>) -> u64;

/// Relies on `fxhash::hash64` over a byte slice: the result depends on the
/// bytes alone and is the same in every process.
#[verifier::external_body]
pub(crate) fn hash64(bytes: &[u8]) -> (r: u64)
    ensures
        r == fxhash64_of(bytes@),
{
    fxhash::hash64(bytes)
}

} // verus!
