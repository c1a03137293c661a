//! Reproducible streams of keys: the same seed gives the same stream.
use vstd::prelude::*;

verus! {

/// `rand::rngs::StdRng`, carried opaquely.
#[verifier::external_type_specification]
#[verifier::external_body]
pub struct ExStdRng(rand::rngs::StdRng);

/// The seed that a `StdRng` was made from.
pub uninterp spec fn std_rng_seed(r: rand::rngs::StdRng) -> u64;

/// The number of 32-bit values a `StdRng` has handed out.
pub uninterp spec fn std_rng_drawn(r: rand::rngs::StdRng) -> nat;

/// The `index`-th 32-bit value of the `StdRng` stream seeded with `seed`.
pub uninterp spec fn seeded_u32(seed: u64, index: nat) -> u32;

/// Relies on rand::SeedableRng::seed_from_u64 for rand::rngs::StdRng: a
/// generator whose output is fixed by the seed, none of it drawn yet.
#[verifier::external_body]
fn std_rng_from_seed(seed: u64) -> (r: rand::rngs::StdRng)
    ensures
        std_rng_seed(r) == seed,
        std_rng_drawn(r) == 0,
{
    rand::SeedableRng::seed_from_u64(seed)
}

/// Relies on rand::Rng::gen for u32 on rand::rngs::StdRng: the generator's
/// next 32-bit value, which depends on the seed and on how many values came
/// before it alone.
#[verifier::external_body]
fn std_rng_next_u32(rng: &mut rand::rngs::StdRng) -> (r: u32)
    ensures
        r == seeded_u32(std_rng_seed(*old(rng)), std_rng_drawn(*old(rng))),
        std_rng_seed(*final(rng)) == std_rng_seed(*old(rng)),
        std_rng_drawn(*final(rng)) == std_rng_drawn(*old(rng)) + 1,
{
    rand::Rng::gen::<u32>(rng)
}

/// An endless stream of 32-bit keys drawn from a seeded generator.
pub struct RandomNumbers {
    rng: rand::rngs::StdRng,
}

impl RandomNumbers {
    /// The seed of the stream.
    pub closed spec fn seed(self) -> u64 {
        std_rng_seed(self.rng)
    }

    /// The number of keys handed out so far.
    pub closed spec fn position(self) -> nat {
        std_rng_drawn(self.rng)
    }

    /// The next key of the stream: the value at the current position for
    /// the stream's seed.
    pub fn next(&mut self) -> (r: u64)
        ensures
            r == seeded_u32(old(self).seed(), old(self).position()),
            r <= u32::MAX,
            final(self).seed() == old(self).seed(),
            final(self).position() == old(self).position() + 1,
    {
        std_rng_next_u32(&mut self.rng) as u64
    }
}

/// The stream of keys for `seed`, at its start: equal seeds give equal
/// streams.
pub fn random_numbers(seed: u64) -> (r: RandomNumbers)
    ensures
        r.seed() == seed,
        r.position() == 0,
{
    RandomNumbers { rng: std_rng_from_seed(seed) }
}

} // verus!
