//! The seeded pseudo-random stream that drives every choice of a preset.

use rand::Rng;
use rand::SeedableRng;
use rand_chacha::ChaCha20Rng;
use vstd::prelude::*;

verus! {

#[verifier::external_type_specification]
#[verifier::external_body]
pub struct ExChaCha20Rng(ChaCha20Rng);

/// Relies on `SeedableRng::from_seed` for `ChaCha20Rng`: a generator whose whole
/// stream is fixed by the 32-byte seed.
#[verifier::external_body]
pub fn seeded_stream(seed: [u8; 32]) -> ChaCha20Rng {
    ChaCha20Rng::from_seed(seed)
}

/// Relies on `Rng::gen_range` over `lo..hi`: a value in the half-open range
/// (it panics on an empty range, which `requires` rules out).
#[verifier::external_body]
pub fn draw_range(rng: &mut ChaCha20Rng, lo: u32, hi: u32) -> (r: u32)
    requires
        lo < hi,
    ensures
        lo <= r < hi,
{
    rng.gen_range(lo..hi)
}

/// Relies on `Rng::gen_ratio`: true with probability `numerator / denominator`,
/// always true when they are equal and always false when the numerator is zero
/// (it panics on a zero denominator or a numerator above it).
#[verifier::external_body]
pub fn draw_ratio(rng: &mut ChaCha20Rng, numerator: u32, denominator: u32) -> (r: bool)
    requires
        0 < denominator,
        numerator <= denominator,
    ensures
        numerator == 0 ==> !r,
        numerator == denominator ==> r,
{
    rng.gen_ratio(numerator, denominator)
}

} // verus!
