//! The fixed-point scale and the limits within which the arithmetic is exact.

use vstd::prelude::*;

verus! {

/// The fixed-point scale: the scalar `v` is held as the integer `v * UNIT`.
///
/// The same scale serves seconds, world units, radians and the progress of a flight,
/// so a progress of `UNIT` is a completed flight and a tick of `100_000` lasts a tenth
/// of a second.
pub const UNIT: i64 = 1_000_000;

/// The longest tick the flight accepts: one hundred seconds.
pub const MAX_STEP: u32 = 100_000_000;

/// The largest progress at which a curve is ever evaluated: one tick past completion.
pub const PROGRESS_LIMIT: u64 = 101_000_000;

/// Shooters and targets lie within this distance of the origin on every axis:
/// a million world units.
pub const WORLD_LIMIT: i64 = 1_000_000_000_000;

/// Control points lie within this distance of the origin on every axis:
/// ten units beyond [`WORLD_LIMIT`].
pub const REACH_LIMIT: i64 = 1_000_010_000_000;

/// No coordinate of a curve evaluated up to [`PROGRESS_LIMIT`] leaves this range.
pub const CURVE_LIMIT: i64 = 8_200_000_000_000_000_000;

/// The envelope of a progress up to [`PROGRESS_LIMIT`] stays within this magnitude.
pub const ENVELOPE_LIMIT: i64 = 40_400_000_000;

/// `|x * y| <= bx * by` for factors bounded by `bx` and `by`.
pub proof fn lemma_product_bound(x: int, y: int, bx: int, by: int)
    by (nonlinear_arith)
    requires
        -bx <= x <= bx,
        -by <= y <= by,
    ensures
        -(bx * by) <= x * y <= bx * by,
{
}

} // verus!
