//! Channel configuration.
//!
//! Probabilities are stored in millionths (`0 ..= RATE_SCALE`) so that the
//! fault model can compare a uniform integer draw against them exactly:
//! `RATE_SCALE` means certainty, `0` means never.

use vstd::prelude::*;

verus! {

/// The denominator of every probability: one million, so a value of
/// `250_000` means a rate of one quarter.
pub const RATE_SCALE: u32 = 1_000_000;

/// Immutable channel parameters, fixed when a simulator is constructed.
#[derive(Clone, Copy, Debug, PartialEq, Eq, Structural)]
pub struct SimConfig {
    /// Probability (in millionths) that an accepted packet is dropped.
    pub loss_ppm: u32,
    /// Probability (in millionths) that a delivered packet has its
    /// checksum flipped.
    pub corrupt_ppm: u32,
    /// Smallest one-way latency in milliseconds.
    pub min_latency: u64,
    /// Largest one-way latency in milliseconds.
    pub max_latency: u64,
    /// Seed of the pseudo-random stream behind loss, corruption and
    /// latency decisions.
    pub seed: u64,
}

impl SimConfig {
    /// A usable configuration: rates are genuine probabilities and the
    /// latency interval is not inverted.
    pub open spec fn wf(self) -> bool {
        &&& self.loss_ppm <= RATE_SCALE
        &&& self.corrupt_ppm <= RATE_SCALE
        &&& self.min_latency <= self.max_latency
    }
}

impl Default for SimConfig {
    /// A lossless channel with 10–100 ms latency and seed zero.
    fn default() -> (c: SimConfig)
        ensures
            c == (SimConfig {
                loss_ppm: 0,
                corrupt_ppm: 0,
                min_latency: 10,
                max_latency: 100,
                seed: 0,
            }),
            c.wf(),
    {
        SimConfig { loss_ppm: 0, corrupt_ppm: 0, min_latency: 10, max_latency: 100, seed: 0 }
    }
}

} // verus!
