//! A small deterministic pseudo-random generator (the splitmix64 sequence).
//!
//! Hash-to-prime draws its candidates from this generator, seeded from the
//! input alone, so the whole search is a mathematical function of its input.

use vstd::prelude::*;

verus! {

/// State update of the generator: one step of the splitmix64 counter.
pub open spec fn mix_state(s: u64) -> u64 {
    s.wrapping_add(0x9E3779B97F4A7C15)
}

/// Output derived from a counter value by the splitmix64 finalizer.
pub open spec fn mix_output(s: u64) -> u64 {
    let z1 = s ^ (s >> 30);
    let z2 = z1.wrapping_mul(0xBF58476D1CE4E5B9);
    let z3 = z2 ^ (z2 >> 27);
    let z4 = z3.wrapping_mul(0x94D049BB133111EB);
    z4 ^ (z4 >> 31)
}

/// A splitmix64 generator.  Identical seeds give identical streams.
pub struct SplitMix64 {
    pub state: u64,
}

impl SplitMix64 {
    /// Starts the stream that belongs to `seed`.
    pub fn new(seed: u64) -> (r: SplitMix64)
        ensures
            r.state == seed,
    {
        SplitMix64 { state: seed }
    }

    /// The next value of the stream.
    pub fn next_u64(&mut self) -> (r: u64)
        ensures
            final(self).state == mix_state(old(self).state),
            r == mix_output(mix_state(old(self).state)),
    {
        self.state = self.state.wrapping_add(0x9E3779B97F4A7C15);
        let s = self.state;
        let z1 = s ^ (s >> 30);
        let z2 = z1.wrapping_mul(0xBF58476D1CE4E5B9);
        let z3 = z2 ^ (z2 >> 27);
        let z4 = z3.wrapping_mul(0x94D049BB133111EB);
        z4 ^ (z4 >> 31)
    }
}

} // verus!
