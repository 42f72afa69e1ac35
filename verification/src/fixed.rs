//! Fixed-point scalar used for all color arithmetic.
//!
//! A component value of `1.0` is represented by `SCALE` units. `SCALE` is
//! divisible by 255, 360, 100 and 6, so 8-bit channel values, whole degrees
//! of hue, whole percents and the six hue sectors are all exact.

use vstd::prelude::*;

verus! {

/// Number of fixed-point units that stand for the real value `1.0`.
pub const SCALE: u64 = 3060000;

/// True when `v` lies in the normalized range `[0.0, 1.0]`.
pub open spec fn in_unit(v: u64) -> bool {
    v <= SCALE
}

/// Clamps a value into the normalized range `[0.0, 1.0]`.
pub fn clamp_unit(v: u64) -> (r: u64)
    ensures
        r == if v > SCALE { SCALE as u64 } else { v },
{
    if v > SCALE {
        SCALE
    } else {
        v
    }
}

/// The largest of three values.
pub open spec fn spec_max3(a: u64, b: u64, c: u64) -> u64 {
    if a >= b && a >= c {
        a
    } else if b >= c {
        b
    } else {
        c
    }
}

/// The smallest of three values.
pub open spec fn spec_min3(a: u64, b: u64, c: u64) -> u64 {
    if a <= b && a <= c {
        a
    } else if b <= c {
        b
    } else {
        c
    }
}

/// The largest of three values.
pub fn max3(a: u64, b: u64, c: u64) -> (r: u64)
    ensures
        r == spec_max3(a, b, c),
{
    if a >= b && a >= c {
        a
    } else if b >= c {
        b
    } else {
        c
    }
}

/// The smallest of three values.
pub fn min3(a: u64, b: u64, c: u64) -> (r: u64)
    ensures
        r == spec_min3(a, b, c),
{
    if a <= b && a <= c {
        a
    } else if b <= c {
        b
    } else {
        c
    }
}

/// Product of two normalized values, at fixed-point scale.
pub open spec fn spec_mul_unit(a: u64, b: u64) -> int {
    a * b / (SCALE as int)
}

/// Multiplies two normalized values; the result is again normalized and is
/// bounded by each factor.
pub fn mul_unit(a: u64, b: u64) -> (r: u64)
    requires
        in_unit(a),
        in_unit(b),
    ensures
        r == spec_mul_unit(a, b),
        in_unit(r),
        r <= a,
        r <= b,
{
    proof {
        lemma_mul_unit_bounds(a, b);
    }
    a * b / SCALE
}

/// `a * b / SCALE` stays below both factors when both are normalized.
pub proof fn lemma_mul_unit_bounds(a: u64, b: u64)
    requires
        in_unit(a),
        in_unit(b),
    ensures
        0 <= spec_mul_unit(a, b) <= a,
        spec_mul_unit(a, b) <= b,
{
    assert(a * b / (SCALE as int) <= a && a * b / (SCALE as int) <= b && a * b / (SCALE as int)
        >= 0) by (nonlinear_arith)
        requires
            a <= SCALE && b <= SCALE,
    ;
}

/// `a * b / d` computed without intermediate overflow.
pub fn mul_div(a: u64, b: u64, d: u64) -> (r: u64)
    requires
        d > 0,
        a * b / (d as int) <= u64::MAX,
    ensures
        r == a * b / (d as int),
{
    proof {
        assert(a * b <= (u64::MAX as int) * (u64::MAX as int)) by (nonlinear_arith)
            requires
                a <= u64::MAX && b <= u64::MAX,
        ;
    }
    let wide: u128 = (a as u128) * (b as u128) / (d as u128);
    wide as u64
}

} // verus!
