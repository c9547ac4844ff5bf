//! The source of randomness: thin trusted wrappers over the `rand` crate.
//! Every consumer takes the drawn values as plain arguments, so the
//! simulation itself is verified for every possible draw.

use vstd::prelude::*;

verus! {

#[verifier::external_type_specification]
#[verifier::external_body]
pub struct ExThreadRng(rand::rngs::ThreadRng);

/// Relies on `rand::rng`: a handle to the thread-local generator. Nothing
/// is promised of it.
#[verifier::external_body]
pub fn new_rng() -> rand::rngs::ThreadRng {
    rand::rng()
}

/// Relies on `rand::Rng::random_range`: a draw from the inclusive range
/// `lo..=hi`, which panics only when the range is empty. Nothing beyond the
/// range is promised of the value.
#[verifier::external_body]
pub fn draw_in(rng: &mut rand::rngs::ThreadRng, lo: i64, hi: i64) -> (r: i64)
    requires
        lo <= hi,
    ensures
        lo <= r <= hi,
{
    rand::Rng::random_range(rng, lo..=hi)
}

} // verus!
