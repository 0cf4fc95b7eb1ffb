//! The pseudorandom source for generation and combat rolls.
//!
//! One explicitly seeded generator is threaded by reference through every
//! function that needs randomness, so a whole floor is reproducible from
//! its seed. The generator itself comes from the `bracket_lib` crate; the
//! wrappers below state only what holds of every draw (the range bounds its
//! documentation promises), never which value comes out.

use vstd::prelude::*;

verus! {

/// The xorshift generator of `bracket_lib::random`.
#[verifier::external_type_specification]
#[verifier::external_body]
pub struct ExRandomNumberGenerator(bracket_lib::random::RandomNumberGenerator);

/// Relies on `RandomNumberGenerator::seeded`: builds a generator from the
/// given seed.
#[verifier::external_body]
pub fn rng_seeded(seed: u64) -> bracket_lib::random::RandomNumberGenerator {
    bracket_lib::random::RandomNumberGenerator::seeded(seed)
}

/// Relies on `RandomNumberGenerator::new`: builds a generator from system
/// entropy; used only to draw a fresh seed when the caller passes none.
/// If the entropy source fails it falls back to the system clock and
/// would panic on a clock before 1970 — an environmental condition no
/// precondition can exclude.
#[verifier::external_body]
pub fn rng_from_entropy() -> bracket_lib::random::RandomNumberGenerator {
    bracket_lib::random::RandomNumberGenerator::new()
}

/// Relies on `RandomNumberGenerator::range`: returns a value in
/// `lo..hi` (inclusive of `lo`, exclusive of `hi`); panics on an empty
/// range, so the range is required to be nonempty.
#[verifier::external_body]
pub fn rng_range(rng: &mut bracket_lib::random::RandomNumberGenerator, lo: i32, hi: i32) -> (r:
    i32)
    requires
        lo < hi,
    ensures
        lo <= r < hi,
{
    rng.range(lo, hi)
}

/// Relies on `RandomNumberGenerator::range` at `u64`: returns a value in
/// `lo..hi`; used to draw fresh seeds.
#[verifier::external_body]
pub fn rng_range_u64(
    rng: &mut bracket_lib::random::RandomNumberGenerator,
    lo: u64,
    hi: u64,
) -> (r: u64)
    requires
        lo < hi,
    ensures
        lo <= r < hi,
{
    rng.range(lo, hi)
}

/// Relies on `RandomNumberGenerator::roll_dice`: the sum of `n` dice with
/// `sides` faces each, so a value in `n..=n*sides`.
#[verifier::external_body]
pub fn rng_roll_dice(
    rng: &mut bracket_lib::random::RandomNumberGenerator,
    n: i32,
    sides: i32,
) -> (r: i32)
    requires
        1 <= n,
        1 <= sides < i32::MAX,
        n * sides <= i32::MAX,
    ensures
        n <= r <= n * sides,
{
    rng.roll_dice(n, sides)
}

} // verus!
