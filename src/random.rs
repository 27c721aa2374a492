use vstd::prelude::*;
use rand::Rng;
use rand::SeedableRng;
use rand::rngs::StdRng;

verus! {

#[verifier::external_type_specification]
#[verifier::external_body]
pub struct ExStdRng(StdRng);

/// Relies on `rand::SeedableRng::seed_from_u64`: a generator whose stream is
/// fixed by the seed.
#[verifier::external_body]
fn std_rng_seeded(seed: u64) -> StdRng {
    StdRng::seed_from_u64(seed)
}

/// Relies on `rand::SeedableRng::from_entropy`: a generator seeded from the
/// operating system.
#[verifier::external_body]
fn std_rng_from_entropy() -> StdRng {
    StdRng::from_entropy()
}

/// Relies on `rand::Rng::gen_range` on a half-open range: the value lies in
/// the range, which must not be empty (it panics on an empty one).
#[verifier::external_body]
fn std_rng_range(rng: &mut StdRng, lo: u64, hi: u64) -> (r: u64)
    requires
        lo < hi,
    ensures
        lo <= r < hi,
{
    rng.gen_range(lo..hi)
}

/// The one source of randomness that every generation step draws from.
pub struct RandomSource {
    rng: StdRng,
}

/// Probabilities are written in thousandths: `chance(700)` holds with
/// probability 0.7.
pub const CHANCE_SCALE: u64 = 1000;

impl RandomSource {
    /// A reproducible source: the same seed gives the same draws.
    pub fn seeded(seed: u64) -> RandomSource {
        RandomSource { rng: std_rng_seeded(seed) }
    }

    /// A source seeded from the operating system.
    pub fn from_entropy() -> RandomSource {
        RandomSource { rng: std_rng_from_entropy() }
    }

    /// A value drawn uniformly from `[lo, hi)`.
    pub fn range(&mut self, lo: u64, hi: u64) -> (r: u64)
        requires
            lo < hi,
        ensures
            lo <= r < hi,
    {
        std_rng_range(&mut self.rng, lo, hi)
    }

    /// A value drawn from `[lo, hi)`, or `lo` when that range is empty.
    pub fn range_or_low(&mut self, lo: u64, hi: u64) -> (r: u64)
        ensures
            lo < hi ==> lo <= r < hi,
            hi <= lo ==> r == lo,
    {
        if lo < hi {
            self.range(lo, hi)
        } else {
            lo
        }
    }

    /// A roll in thousandths, drawn from `[0, 1000)`.
    pub fn roll(&mut self) -> (r: u32)
        ensures
            r < CHANCE_SCALE,
    {
        self.range(0, CHANCE_SCALE) as u32
    }

    /// True with probability `per_mille / 1000`.
    pub fn chance(&mut self, per_mille: u64) -> (r: bool)
        ensures
            per_mille == 0 ==> !r,
            per_mille >= CHANCE_SCALE ==> r,
    {
        let roll = self.range(0, CHANCE_SCALE);
        roll < per_mille
    }
}

} // verus!
