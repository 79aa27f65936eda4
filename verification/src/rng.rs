//! The source of randomness for map generation: a seedable handle that is
//! threaded explicitly through every generation call, so that a run is
//! reproducible from its seed.

use vstd::prelude::*;

verus! {

#[verifier::external_type_specification]
#[verifier::external_body]
pub struct ExStdRng(rand::rngs::StdRng);

/// A seedable random-number handle. All sampling done during map generation
/// draws from one of these, passed in by the caller.
pub struct GenRng {
    rng: rand::rngs::StdRng,
}

impl GenRng {
    /// Relies on rand's `SeedableRng::seed_from_u64` to build a `StdRng` from
    /// a 64-bit seed. Nothing is assumed of the values the generator yields.
    #[verifier::external_body]
    pub fn from_seed(seed: u64) -> GenRng {
        GenRng { rng: <rand::rngs::StdRng as rand::SeedableRng>::seed_from_u64(seed) }
    }

    /// Relies on rand's `RngExt::random_range`, which returns a value drawn
    /// uniformly from `[lo, hi)` and panics only on an empty range.
    #[verifier::external_body]
    pub(crate) fn sample_range(&mut self, lo: i32, hi: i32) -> (r: i32)
        requires
            lo < hi,
        ensures
            lo <= r < hi,
    {
        rand::RngExt::random_range(&mut self.rng, lo..hi)
    }
}

} // verus!
