use rand::rngs::{OsRng, StdRng};
use rand::seq::SliceRandom;
use rand::{Rng, SeedableRng};
use vstd::prelude::*;

verus! {

#[verifier::external_type_specification]
#[verifier::external_body]
pub struct ExStdRng(StdRng);

/// Relies on `SeedableRng::seed_from_u64`: a generator fixed by the seed.
#[verifier::external_body]
fn std_rng_from_seed(seed: u64) -> (r: StdRng) {
    StdRng::seed_from_u64(seed)
}

/// Relies on `SeedableRng::from_rng` with `OsRng`: a generator seeded by the
/// operating system, or `None` when its entropy source fails.
#[verifier::external_body]
fn std_rng_from_os() -> (r: Option<StdRng>) {
    StdRng::from_rng(OsRng).ok()
}

/// Relies on `Rng::gen_range` over `lo..hi`: a value in the half-open range,
/// which must not be empty.
#[verifier::external_body]
fn std_rng_range(rng: &mut StdRng, lo: u64, hi: u64) -> (r: u64)
    requires
        lo < hi,
    ensures
        lo <= r < hi,
{
    rng.gen_range(lo..hi)
}

/// Relies on `Rng::gen` for `bool`: a fair coin.
#[verifier::external_body]
fn std_rng_coin(rng: &mut StdRng) -> (r: bool) {
    rng.gen()
}

/// Relies on `SliceRandom::shuffle`: the slice is permuted in place.
#[verifier::external_body]
fn std_rng_shuffle(rng: &mut StdRng, v: &mut Vec<usize>)
    ensures
        final(v)@.to_multiset() == old(v)@.to_multiset(),
{
    v.shuffle(rng)
}

/// The source of every random decision the scenes make. A seeded source
/// repeats its draws, so a run can be replayed exactly.
pub struct RandomSource {
    rng: StdRng,
}

impl RandomSource {
    /// A source whose draws are fixed by `seed`.
    pub fn seeded(seed: u64) -> (s: RandomSource) {
        RandomSource { rng: std_rng_from_seed(seed) }
    }

    /// A source seeded from the operating system's entropy; `None` when the
    /// operating system cannot provide it.
    pub fn from_entropy() -> (s: Option<RandomSource>) {
        match std_rng_from_os() {
            Some(rng) => Some(RandomSource { rng }),
            None => None,
        }
    }

    /// A value in `lo..hi`.
    pub fn range(&mut self, lo: u64, hi: u64) -> (r: u64)
        requires
            lo < hi,
        ensures
            lo <= r < hi,
    {
        std_rng_range(&mut self.rng, lo, hi)
    }

    /// A fair coin.
    pub fn coin(&mut self) -> (r: bool) {
        std_rng_coin(&mut self.rng)
    }

    /// Permutes `v` in place.
    pub fn shuffle(&mut self, v: &mut Vec<usize>)
        ensures
            final(v)@.to_multiset() == old(v)@.to_multiset(),
    {
        std_rng_shuffle(&mut self.rng, v)
    }
}

} // verus!
