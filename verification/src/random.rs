//! The random draws, made by the generator of the `rand` crate.

use rand::rngs::StdRng;
use rand::seq::IteratorRandom;
use rand::SeedableRng;
use vstd::prelude::*;

verus! {

/// `rand::rngs::StdRng`. Nothing is known of what it holds.
#[verifier::external_type_specification]
#[verifier::external_body]
pub struct ExStdRng(StdRng);

/// Calls `rand::seq::IteratorRandom::choose` on the range `0..bound`. That
/// function returns `None` only for an iterator without items, and an item
/// of the iterator otherwise; which one is left to chance.
#[verifier::external_body]
pub(crate) fn draw_below(rng: &mut StdRng, bound: usize) -> (drawn: Option<usize>)
    ensures
        bound == 0 ==> drawn is None,
        bound > 0 ==> drawn is Some && drawn.unwrap() < bound,
{
    IteratorRandom::choose(0..bound, rng)
}

/// The generator that `rand::SeedableRng::seed_from_u64` makes of `seed`
/// for `StdRng`, as it stands before anything is drawn from it. Nothing is
/// said of what it will yield.
pub uninterp spec fn seeded_generator(seed: u64) -> StdRng;

/// Calls `rand::SeedableRng::seed_from_u64` for `StdRng`. That function
/// spreads the seed over the key of the generator and starts the generator
/// at the beginning of its stream, so the generator depends on the seed
/// alone: the contract gives it its name, `seeded_generator`. Two generators
/// made of one seed are equal by the `==` of `StdRng`, which goes by key,
/// stream and position.
#[verifier::external_body]
fn generator_from(seed: u64) -> (generator: StdRng)
    ensures
        generator == seeded_generator(seed),
{
    StdRng::seed_from_u64(seed)
}

/// The seed for a clock that stands at `seconds` and `nanoseconds`: the two
/// combined bit by bit.
pub fn clock_seed(seconds: u64, nanoseconds: u32) -> (seed: u64)
    ensures
        seed == seconds ^ (nanoseconds as u64),
{
    seconds ^ (nanoseconds as u64)
}

/// A generator seeded from a clock that stands at `seconds` and
/// `nanoseconds` since the epoch: the generator that is made of the two,
/// combined bit by bit, as its seed.
pub fn create_seeded_rng(seconds: u64, nanoseconds: u32) -> (generator: StdRng)
    ensures
        generator == seeded_generator(seconds ^ (nanoseconds as u64)),
{
    generator_from(clock_seed(seconds, nanoseconds))
}

} // verus!
