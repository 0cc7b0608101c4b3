//! The random part of a launch, drawn with the `rand` crate.

use vstd::prelude::*;
use rand::Rng;
use crate::missile::{
    Scatter, DEST_TAG_SPREAD_X, DEST_TAG_SPREAD_Y, DEST_TAG_SPREAD_Z, SIN_PHASE_SPREAD,
};
use crate::vec3::Vec3;

verus! {

/// `rand::rngs::ThreadRng`, the generator that each thread keeps for itself.  It is
/// carried from `rand::thread_rng` to the draws; nothing is known of what is in it.
#[verifier::external_type_specification]
#[verifier::external_body]
pub struct ExThreadRng(rand::rngs::ThreadRng);

/// `rand::thread_rng` hands out the calling thread's generator, which the system
/// seeds on first use.  Nothing is claimed of the generator.
pub assume_specification[ rand::thread_rng ]() -> (rng: rand::rngs::ThreadRng);

/// `rand::Rng::gen_range` on the inclusive range `low..=high` of `i64`.  Claimed: the
/// value drawn lies in the range, both ends included.  Not claimed: how the values are
/// distributed.  The call panics on an empty range, which `requires` leaves out.
#[verifier::external_body]
fn gen_range(rng: &mut rand::rngs::ThreadRng, low: i64, high: i64) -> (drawn: i64)
    requires
        low <= high,
    ensures
        low <= drawn <= high,
{
    rng.gen_range(low..=high)
}

/// Draws the random part of a launch: an offset with x in [-8, 8], y in [0, 10] and
/// z in [-5, 5], and a phase in [-5, 5], each from the whole millionths of its range.
pub fn scatter(rng: &mut rand::rngs::ThreadRng) -> (s: Scatter)
    ensures
        s.in_range(),
{
    let x: i64 = gen_range(rng, -DEST_TAG_SPREAD_X, DEST_TAG_SPREAD_X);
    let y: i64 = gen_range(rng, 0, DEST_TAG_SPREAD_Y);
    let z: i64 = gen_range(rng, -DEST_TAG_SPREAD_Z, DEST_TAG_SPREAD_Z);
    let sin_phase: i64 = gen_range(rng, -SIN_PHASE_SPREAD, SIN_PHASE_SPREAD);
    Scatter { dest_tag: Vec3 { x, y, z }, sin_phase }
}

} // verus!
