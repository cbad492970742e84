//! Seeds for the games and agents of a series, derived from one base seed.

use vstd::prelude::*;

verus! {

/// The seed mixed from a base seed and two counters: the counters are spread over
/// the bits by odd multipliers and folded into the base, and the result is stirred by
/// three shifts.
pub open spec fn mixed_seed(base: u64, a: u64, b: u64) -> u64 {
    let z0 = base ^ (a.wrapping_mul(0x9E37_79B9_7F4A_7C15)) ^ (b.wrapping_mul(
        0xBF58_476D_1CE4_E5B9,
    ));
    let z1 = z0 ^ (z0 >> 12);
    let z2 = z1 ^ (z1 << 25);
    z2 ^ (z2 >> 27)
}

/// Mixes a base seed with two counters into a seed of its own.
pub fn mix_seed(base: u64, a: u64, b: u64) -> (seed: u64)
    ensures
        seed == mixed_seed(base, a, b),
{
    let mut z: u64 = base ^ (a.wrapping_mul(0x9E37_79B9_7F4A_7C15)) ^ (b.wrapping_mul(
        0xBF58_476D_1CE4_E5B9,
    ));
    z ^= z >> 12;
    z ^= z << 25;
    z ^= z >> 27;
    z
}

} // verus!
