//! The pseudo-random generator the games draw from, behind its trusted
//! boundary.  Nothing is promised of the values: all logic that consumes
//! them is verified for every outcome.

use vstd::prelude::*;

verus! {

#[verifier::external_type_specification]
#[verifier::external_body]
pub struct ExSmallRng(rand::rngs::SmallRng);

/// Relies on rand's SmallRng::seed_from_u64: builds the small in-process
/// pseudo-random generator from a seed.
#[verifier::external_body]
pub(crate) fn rng_from_seed(seed: u64) -> rand::rngs::SmallRng {
    rand::SeedableRng::seed_from_u64(seed)
}

/// Relies on rand's RngCore::next_u64 for SmallRng.
#[verifier::external_body]
pub(crate) fn rng_next(rng: &mut rand::rngs::SmallRng) -> u64 {
    rand::RngCore::next_u64(rng)
}

} // verus!
