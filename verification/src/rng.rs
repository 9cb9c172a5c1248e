//! The seeded pseudo-random stream behind the channel fault model.
//!
//! All probabilistic decisions of the simulator draw from one `StdRng`
//! seeded from the configuration. The contracts below state only the range
//! of each draw; nothing is assumed about which value comes back, so
//! everything proved about the engine holds for every possible stream.

use vstd::prelude::*;

use rand::Rng;
use rand::SeedableRng;

verus! {

/// Declares rand's `StdRng` so the engine can hold the generator as an
/// opaque value; nothing is assumed about its contents.
#[verifier::external_type_specification]
#[verifier::external_body]
pub struct ExStdRng(rand::rngs::StdRng);

/// Relies on rand's `StdRng::seed_from_u64`, which builds a generator
/// from a 64-bit seed.
#[verifier::external_body]
pub(crate) fn rng_from_seed(seed: u64) -> rand::rngs::StdRng {
    rand::rngs::StdRng::seed_from_u64(seed)
}

/// Relies on rand's `Rng::random_range` over `0..bound`: the sample is
/// uniform in the range, which is non-empty by the precondition.
#[verifier::external_body]
pub(crate) fn draw_below(rng: &mut rand::rngs::StdRng, bound: u32) -> (r: u32)
    requires
        1 <= bound,
    ensures
        r < bound,
{
    rng.random_range(0..bound)
}

/// Relies on rand's `Rng::random_range` over `lo..=hi`: the sample is
/// uniform in the range, which is non-empty by the precondition.
#[verifier::external_body]
pub(crate) fn draw_between(rng: &mut rand::rngs::StdRng, lo: u64, hi: u64) -> (r: u64)
    requires
        lo <= hi,
    ensures
        lo <= r <= hi,
{
    rng.random_range(lo..=hi)
}

} // verus!
