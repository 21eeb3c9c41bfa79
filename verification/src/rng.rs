//! Dice rolls from the outside random number generator.

use vstd::prelude::*;

verus! {

#[verifier::external_type_specification]
#[verifier::external_body]
pub struct ExRandomNumberGenerator(rltk::RandomNumberGenerator);

/// Relies on rltk::RandomNumberGenerator::new: a generator from a fresh
/// seed. Nothing is promised of the values it will yield.
#[verifier::external_body]
pub fn rng_new() -> rltk::RandomNumberGenerator {
    rltk::RandomNumberGenerator::new()
}

/// Relies on rltk::RandomNumberGenerator::seeded: a generator from the
/// given seed. Nothing is promised of the values it will yield.
#[verifier::external_body]
pub fn rng_seeded(seed: u64) -> rltk::RandomNumberGenerator {
    rltk::RandomNumberGenerator::seeded(seed)
}

/// Relies on rltk::RandomNumberGenerator::roll_dice: the sum of `n` dice
/// of `die_type` sides, each drawn from 1..=die_type, so the sum lies in
/// n..=n*die_type. The bounds keep `die_type + 1` and the sum within i32;
/// a non-positive die would panic inside the generator.
#[verifier::external_body]
pub fn roll_dice(rng: &mut rltk::RandomNumberGenerator, n: i32, die_type: i32) -> (r: i32)
    requires
        1 <= n <= 1000,
        1 <= die_type <= 100_000,
    ensures
        n <= r <= n * die_type,
{
    rng.roll_dice(n, die_type)
}

} // verus!
