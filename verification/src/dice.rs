//! The random source that generation draws from.
//!
//! Draws come from `rltk`'s xorshift generator. Verus sees nothing inside the
//! generator, so the contracts here say only what holds of every draw.

use vstd::prelude::*;

verus! {

/// `rltk::RandomNumberGenerator`, carried through verified code as an opaque value.
#[verifier::external_type_specification]
#[verifier::external_body]
pub struct ExRandomNumberGenerator(rltk::RandomNumberGenerator);

/// Calls `rltk::RandomNumberGenerator::seeded`, which builds a generator
/// whose stream is fixed by `seed`. Nothing is claimed of the generator.
#[verifier::external_body]
pub(crate) fn seeded_source(seed: u64) -> (rng: rltk::RandomNumberGenerator) {
    rltk::RandomNumberGenerator::seeded(seed)
}

/// Calls `rltk::RandomNumberGenerator::range` on `i32`. The outside function
/// panics on an empty range, which `requires` leaves out; its result lies in
/// the half-open interval from `lo` to `hi`.
#[verifier::external_body]
pub(crate) fn draw_in_range(rng: &mut rltk::RandomNumberGenerator, lo: i32, hi: i32) -> (r: i32)
    requires
        lo < hi,
    ensures
        lo <= r < hi,
{
    rng.range(lo, hi)
}

} // verus!
