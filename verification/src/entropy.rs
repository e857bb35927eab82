//! Thin trusted wrappers over the `rand` crate. Randomness is drawn only at
//! entity-creation time; everything built on top of these draws is verified
//! for every value they can return.

use rand::Rng;
use vstd::prelude::*;

verus! {

#[verifier::external_type_specification]
#[verifier::external_body]
pub struct ExThreadRng(rand::rngs::ThreadRng);

/// Relies on `rand::rng`: a handle to the thread-local generator.
#[verifier::external_body]
pub fn fresh_rng() -> rand::rngs::ThreadRng {
    rand::rng()
}

/// Relies on `Rng::random_range`: a uniform draw from `lo..hi`. It panics on
/// an empty range, so the range is required to be non-empty; nothing beyond
/// the bounds can be promised of a random value.
#[verifier::external_body]
pub fn random_in_range(rng: &mut rand::rngs::ThreadRng, lo: i64, hi: i64) -> (r: i64)
    requires
        lo < hi,
    ensures
        lo <= r < hi,
{
    rng.random_range(lo..hi)
}

/// Relies on `Rng::random` at type `bool`: a fair coin.
#[verifier::external_body]
pub fn random_flip(rng: &mut rand::rngs::ThreadRng) -> bool {
    rng.random()
}

/// Relies on `Rng::random` at type `u8`: a uniform byte.
#[verifier::external_body]
pub fn random_byte(rng: &mut rand::rngs::ThreadRng) -> u8 {
    rng.random()
}

} // verus!
