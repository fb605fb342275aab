//! The random-sample source.
//!
//! Scattering needs uniform samples; they come from the `rand` crate
//! through a small trusted surface.  Nothing is assumed of a drawn value
//! beyond its range, and every function that consumes a sample is
//! verified for all values in that range.
use vstd::prelude::*;

verus! {

#[verifier::external_type_specification]
#[verifier::external_body]
pub struct ExStdRng(rand::rngs::StdRng);

/// A seedable stream of uniform samples; each worker owns its own.
pub struct RandomSource {
    rng: rand::rngs::StdRng,
}

impl RandomSource {
    /// Relies on rand's `SeedableRng::seed_from_u64`: builds a generator
    /// deterministically from the seed.
    #[verifier::external_body]
    pub fn from_seed(seed: u64) -> (r: RandomSource) {
        RandomSource { rng: <rand::rngs::StdRng as rand::SeedableRng>::seed_from_u64(seed) }
    }

    /// Relies on rand's `Rng::gen_range`: the sample lies in the given
    /// half-open range.  Which value comes out is left entirely open.
    #[verifier::external_body]
    pub fn next_micro(&mut self) -> (r: u32)
        ensures
            r < 1_000_000,
    {
        rand::Rng::gen_range(&mut self.rng, 0u32..1_000_000u32)
    }
}

} // verus!
