//! Seeded SplitMix64 source for random oscillator phases: an explicit seed,
//! no global state and no operating-system calls on the audio thread.
use vstd::prelude::*;

verus! {

/// Increment of the SplitMix64 state per draw.
pub const GOLDEN_GAMMA: u64 = 0x9e3779b97f4a7c15;

/// SplitMix64 output function.
pub open spec fn mix(x: u64) -> u64 {
    let z = (x ^ (x >> 30u64)).wrapping_mul(0xbf58476d1ce4e5b9u64);
    let z = (z ^ (z >> 27u64)).wrapping_mul(0x94d049bb133111ebu64);
    z ^ (z >> 31u64)
}

/// SplitMix64 random source.
pub struct Random(u64);

impl View for Random {
    type V = u64;

    closed spec fn view(&self) -> u64 {
        self.0
    }
}

impl Random {
    pub fn new(seed: u64) -> (r: Self)
        ensures
            r@ == seed,
    {
        Random(seed)
    }

    /// Next draw, reduced to its top 53 bits: `unit = bits / 2^53` is
    /// uniform in [0, 1). The same seed and sequence of calls give the same
    /// draws.
    pub fn next_bits(&mut self) -> (bits: u64)
        ensures
            final(self)@ == old(self)@.wrapping_add(GOLDEN_GAMMA),
            bits == mix(final(self)@) >> 11u64,
            bits < 0x20_0000_0000_0000,
    {
        self.0 = self.0.wrapping_add(GOLDEN_GAMMA);
        let mut z = self.0;
        z = (z ^ (z >> 30u64)).wrapping_mul(0xbf58476d1ce4e5b9u64);
        z = (z ^ (z >> 27u64)).wrapping_mul(0x94d049bb133111ebu64);
        z = z ^ (z >> 31u64);
        let bits = z >> 11u64;
        assert(z >> 11u64 < 0x20_0000_0000_0000u64) by (bit_vector);
        bits
    }
}

} // verus!
