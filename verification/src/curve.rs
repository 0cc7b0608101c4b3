//! The scalar formulas of a flight: the cubic Bezier curve, the envelope of the
//! wobble and the wobble itself.

use vstd::prelude::*;
use crate::fixed::{lemma_product_bound, CURVE_LIMIT, ENVELOPE_LIMIT, PROGRESS_LIMIT, REACH_LIMIT, UNIT};

verus! {

/// The amplitude of the wobble at progress `p`: `1 - (1 - 2p)^2`, rounded down to a
/// whole millionth.  It is zero at the start and at the end of the flight and one
/// halfway.
pub open spec fn envelope_of(p: int) -> int {
    (UNIT * UNIT - (UNIT - 2 * p) * (UNIT - 2 * p)) / (UNIT as int)
}

/// The cubic Bezier sum over the control values `a, b, c, d` at progress `p`, before
/// the division that brings it back to millionths.
pub open spec fn bezier_numerator(a: int, b: int, c: int, d: int, p: int) -> int {
    let t = UNIT - p;
    t * t * t * a + 3 * t * t * p * b + 3 * t * p * p * c + p * p * p * d
}

/// One coordinate of the cubic Bezier curve through `a, b, c, d` at progress `p`,
/// rounded down to a whole millionth.
pub open spec fn bezier_of(a: int, b: int, c: int, d: int, p: int) -> int {
    bezier_numerator(a, b, c, d, p) / (UNIT * UNIT * UNIT)
}

/// The angle whose sine displaces the missile sideways at progress `p`: `8p + phase`.
pub open spec fn wobble_angle_of(p: int, phase: int) -> int {
    8 * p + phase
}

/// The displacement that the wobble adds to a coordinate: `envelope * sine`, rounded
/// down to a whole millionth.
pub open spec fn wobble_of(envelope: int, sine: int) -> int {
    (envelope * sine) / (UNIT as int)
}

/// `UNIT` as the wider integer that the products are formed in.
const ONE: i128 = 1_000_000;

/// `UNIT * UNIT`.
const ONE_SQUARED: i128 = 1_000_000_000_000;

/// `UNIT * UNIT * UNIT`.
const ONE_CUBED: i128 = 1_000_000_000_000_000_000;

/// Computes [`envelope_of`].
pub fn envelope(progress: u64) -> (e: i64)
    requires
        progress <= PROGRESS_LIMIT,
    ensures
        e == envelope_of(progress as int),
        -ENVELOPE_LIMIT <= e <= UNIT,
{
    let k: i128 = ONE - 2 * (progress as i128);
    proof {
        lemma_product_bound(k as int, k as int, 201_000_000, 201_000_000);
        assert(k * k >= 0) by (nonlinear_arith);
        assert(UNIT * UNIT == ONE_SQUARED);
    }
    let n: i128 = ONE_SQUARED - k * k;
    let e: i128 = n.checked_div_euclid(ONE).unwrap();
    e as i64
}

/// Computes [`wobble_of`].
pub fn wobble(envelope: i64, sine: i64) -> (w: i64)
    requires
        -ENVELOPE_LIMIT <= envelope <= ENVELOPE_LIMIT,
        -UNIT <= sine <= UNIT,
    ensures
        w == wobble_of(envelope as int, sine as int),
        -ENVELOPE_LIMIT <= w <= ENVELOPE_LIMIT,
{
    proof {
        lemma_product_bound(envelope as int, sine as int, ENVELOPE_LIMIT as int, UNIT as int);
    }
    let n: i128 = (envelope as i128) * (sine as i128);
    let w: i128 = n.checked_div_euclid(ONE).unwrap();
    w as i64
}

/// Computes [`bezier_of`] for one coordinate.
pub fn bezier(a: i64, b: i64, c: i64, d: i64, progress: u64) -> (r: i64)
    requires
        -REACH_LIMIT <= a <= REACH_LIMIT,
        -REACH_LIMIT <= b <= REACH_LIMIT,
        -REACH_LIMIT <= c <= REACH_LIMIT,
        -REACH_LIMIT <= d <= REACH_LIMIT,
        progress <= PROGRESS_LIMIT,
    ensures
        r == bezier_of(a as int, b as int, c as int, d as int, progress as int),
        -CURVE_LIMIT <= r <= CURVE_LIMIT,
{
    let p: i128 = progress as i128;
    let t: i128 = ONE - p;
    proof {
        let ti: int = t as int;
        let pi: int = p as int;
        let m: int = 101_000_000;
        let l: int = REACH_LIMIT as int;
        lemma_product_bound(ti, ti, m, m);
        lemma_product_bound(ti * ti, ti, m * m, m);
        lemma_product_bound(ti * ti * ti, a as int, m * m * m, l);
        lemma_product_bound(3 * ti, ti, 3 * m, m);
        lemma_product_bound(3 * ti * ti, pi, 3 * m * m, m);
        lemma_product_bound(3 * ti * ti * pi, b as int, 3 * m * m * m, l);
        lemma_product_bound(3 * ti, pi, 3 * m, m);
        lemma_product_bound(3 * ti * pi, pi, 3 * m * m, m);
        lemma_product_bound(3 * ti * pi * pi, c as int, 3 * m * m * m, l);
        lemma_product_bound(pi, pi, m, m);
        lemma_product_bound(pi * pi, pi, m * m, m);
        lemma_product_bound(pi * pi * pi, d as int, m * m * m, l);
    }
    let n: i128 = t * t * t * (a as i128) + 3 * t * t * p * (b as i128) + 3 * t * p * p * (c as i128)
        + p * p * p * (d as i128);
    proof {
        assert(UNIT * UNIT * UNIT == ONE_CUBED);
        lemma_curve_stays_near(a as int, b as int, c as int, d as int, p as int);
    }
    let r: i128 = n.checked_div_euclid(ONE_CUBED).unwrap();
    r as i64
}

/// A curve evaluated up to [`PROGRESS_LIMIT`] over control values within
/// [`REACH_LIMIT`] stays within [`CURVE_LIMIT`].
pub proof fn lemma_curve_stays_near(a: int, b: int, c: int, d: int, p: int)
    requires
        -REACH_LIMIT <= a <= REACH_LIMIT,
        -REACH_LIMIT <= b <= REACH_LIMIT,
        -REACH_LIMIT <= c <= REACH_LIMIT,
        -REACH_LIMIT <= d <= REACH_LIMIT,
        0 <= p <= PROGRESS_LIMIT,
    ensures
        -CURVE_LIMIT <= bezier_of(a, b, c, d, p) <= CURVE_LIMIT,
{
    let t: int = UNIT - p;
    let l: int = REACH_LIMIT as int;
    let m: int = 100_000_000;
    let q: int = 101_000_000;
    lemma_product_bound(t, t, m, m);
    lemma_product_bound(t * t, t, m * m, m);
    lemma_product_bound(t * t * t, a, m * m * m, l);
    lemma_product_bound(3 * t, t, 3 * m, m);
    lemma_product_bound(3 * t * t, p, 3 * m * m, q);
    lemma_product_bound(3 * t * t * p, b, 3 * m * m * q, l);
    lemma_product_bound(3 * t, p, 3 * m, q);
    lemma_product_bound(3 * t * p, p, 3 * m * q, q);
    lemma_product_bound(3 * t * p * p, c, 3 * m * q * q, l);
    lemma_product_bound(p, p, q, q);
    lemma_product_bound(p * p, p, q * q, q);
    lemma_product_bound(p * p * p, d, q * q * q, l);
    let n = bezier_numerator(a, b, c, d, p);
    assert(UNIT * UNIT * UNIT == 1_000_000_000_000_000_000);
    assert(-8_120_700_000_000_000_000_000_000_000_000_000_000 <= n);
    assert(n <= 8_120_700_000_000_000_000_000_000_000_000_000_000);
}

/// The envelope is symmetric about the middle of the flight: it is the same at `p`
/// and at `1 - p`.
pub proof fn lemma_envelope_symmetric(p: int)
    requires
        0 <= p <= UNIT,
    ensures
        envelope_of(p) == envelope_of(UNIT - p),
{
    let k: int = UNIT - 2 * p;
    assert(UNIT - 2 * (UNIT - p) == -k);
    assert((-k) * (-k) == k * k) by (nonlinear_arith);
}

/// The envelope vanishes at both ends of the flight and is one halfway, and a
/// vanishing envelope lets no sine displace the missile.
pub proof fn lemma_envelope_ends(sine: int)
    ensures
        envelope_of(0) == 0,
        envelope_of(UNIT as int) == 0,
        envelope_of(UNIT / 2) == UNIT,
        wobble_of(0, sine) == 0,
{
    let u: int = UNIT as int;
    assert(u * u == 1_000_000_000_000) by (nonlinear_arith)
        requires
            u == 1_000_000,
    ;
    assert((u - 2 * u) * (u - 2 * u) == u * u) by (nonlinear_arith);
    assert((u - 2 * (u / 2)) * (u - 2 * (u / 2)) == 0) by (nonlinear_arith)
        requires
            u == 1_000_000,
    ;
    assert(0 * sine == 0) by (nonlinear_arith);
}

/// The curve starts on its first control value and ends on its last, exactly,
/// whatever the two values in between.
pub proof fn lemma_bezier_ends(a: int, b: int, c: int, d: int)
    ensures
        bezier_of(a, b, c, d, 0) == a,
        bezier_of(a, b, c, d, UNIT as int) == d,
{
    let u: int = UNIT as int;
    let cube: int = u * u * u;
    assert(cube > 0) by (nonlinear_arith)
        requires
            cube == u * u * u,
            u == 1_000_000,
    ;
    assert(bezier_numerator(a, b, c, d, 0) == cube * a) by (nonlinear_arith)
        requires
            cube == u * u * u,
            bezier_numerator(a, b, c, d, 0) == (u - 0) * (u - 0) * (u - 0) * a + 3 * (u - 0) * (u
                - 0) * 0 * b + 3 * (u - 0) * 0 * 0 * c + 0 * 0 * 0 * d,
    ;
    assert(bezier_numerator(a, b, c, d, u) == cube * d) by (nonlinear_arith)
        requires
            cube == u * u * u,
            bezier_numerator(a, b, c, d, u) == (u - u) * (u - u) * (u - u) * a + 3 * (u - u) * (u
                - u) * u * b + 3 * (u - u) * u * u * c + u * u * u * d,
    ;
    assert((cube * a) / cube == a) by (nonlinear_arith)
        requires
            cube > 0,
    ;
    assert((cube * d) / cube == d) by (nonlinear_arith)
        requires
            cube > 0,
    ;
}

} // verus!
