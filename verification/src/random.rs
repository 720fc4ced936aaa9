//! The pseudo-random stream: a seeded generator owned by the search driver
//! and threaded through the expression generator, so that runs are
//! reproducible given a fixed seed.
//!
//! The stream itself comes from the `rand` crate; nothing is assumed of the
//! values drawn beyond the requested range.

use vstd::prelude::*;
use rand::Rng;
use rand::SeedableRng;

verus! {

#[verifier::external_type_specification]
#[verifier::external_body]
pub struct ExStdRng(rand::rngs::StdRng);

/// A seeded pseudo-random stream.
pub struct Rand {
    rng: rand::rngs::StdRng,
}

impl Rand {
    /// Relies on rand's `StdRng::seed_from_u64`: builds a deterministic
    /// generator from the given seed.
    #[verifier::external_body]
    pub fn from_seed(seed: u64) -> (r: Rand) {
        Rand { rng: rand::rngs::StdRng::seed_from_u64(seed) }
    }

    /// Relies on rand's `Rng::gen_range` over `lo..=hi`: returns a value of
    /// the inclusive range; it panics only on an empty range, which the
    /// precondition excludes.
    #[verifier::external_body]
    pub fn next_u32(&mut self, lo: u32, hi: u32) -> (r: u32)
        requires
            lo <= hi,
        ensures
            lo <= r <= hi,
    {
        self.rng.gen_range(lo..=hi)
    }

    /// Relies on rand's `Rng::gen_range` over `lo..=hi`: returns a value of
    /// the inclusive range; it panics only on an empty range, which the
    /// precondition excludes.
    #[verifier::external_body]
    pub fn next_i64(&mut self, lo: i64, hi: i64) -> (r: i64)
        requires
            lo <= hi,
        ensures
            lo <= r <= hi,
    {
        self.rng.gen_range(lo..=hi)
    }
}

} // verus!
