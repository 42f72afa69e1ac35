//! Fixed-point powers with fractional exponents, for the companding curves.
//!
//! Powers are evaluated at a precision scale well above the color scale, so
//! the flooring in the product chain stays far below one color unit.
//! `x^(p/q)` on `[0.0, 1.0]` is then the largest `r` whose `q`-th power does
//! not exceed the `p`-th power of `x`; a binary search finds it and the
//! characterization pins it exactly.

use vstd::prelude::*;

use crate::fixed::{in_unit, SCALE};

verus! {

/// The extra precision that power chains are evaluated at.
pub const POW_PRECISION: u64 = 100000;

/// The scaled power: `spec_spow(x, n)` stands for `(x/SCALE)^n` at the
/// boosted scale `SCALE * POW_PRECISION`, with the product floored at every
/// step.
pub open spec fn spec_spow(x: u64, n: nat) -> int
    decreases n,
{
    if n == 0 {
        SCALE * POW_PRECISION
    } else {
        spec_spow(x, (n - 1) as nat) * x / (SCALE as int)
    }
}

/// A scaled power of a normalized value stays within the boosted scale.
pub proof fn lemma_spow_bounds(x: u64, n: nat)
    requires
        in_unit(x),
    ensures
        0 <= spec_spow(x, n) <= SCALE * POW_PRECISION,
    decreases n,
{
    if n > 0 {
        lemma_spow_bounds(x, (n - 1) as nat);
        let prev = spec_spow(x, (n - 1) as nat);
        assert(0 <= prev * x <= (SCALE * POW_PRECISION) * (SCALE as int)) by (nonlinear_arith)
            requires
                0 <= prev <= SCALE * POW_PRECISION && 0 <= x <= SCALE,
        ;
        assert((SCALE * POW_PRECISION) * (SCALE as int) / (SCALE as int) == SCALE * POW_PRECISION)
            by (nonlinear_arith);
        vstd::arithmetic::div_mod::lemma_div_is_ordered(
            prev * x,
            (SCALE * POW_PRECISION) * (SCALE as int),
            SCALE as int,
        );
        vstd::arithmetic::div_mod::lemma_div_pos_is_pos(prev * x, SCALE as int);
    }
}

/// The scaled power grows with its base.
pub proof fn lemma_spow_monotone(a: u64, b: u64, n: nat)
    requires
        a <= b,
        in_unit(b),
    ensures
        spec_spow(a, n) <= spec_spow(b, n),
    decreases n,
{
    if n > 0 {
        lemma_spow_monotone(a, b, (n - 1) as nat);
        lemma_spow_bounds(a, (n - 1) as nat);
        lemma_spow_bounds(b, (n - 1) as nat);
        let pa = spec_spow(a, (n - 1) as nat);
        let pb = spec_spow(b, (n - 1) as nat);
        assert(pa * a <= pb * b) by (nonlinear_arith)
            requires
                0 <= pa <= pb && 0 <= a <= b,
        ;
        vstd::arithmetic::div_mod::lemma_div_is_ordered(pa * a, pb * b, SCALE as int);
    }
}

/// The scaled power, by repeated scaled multiplication.
pub fn spow(x: u64, n: u64) -> (r: u64)
    requires
        in_unit(x),
    ensures
        r == spec_spow(x, n as nat),
        r <= SCALE * POW_PRECISION,
{
    let mut y: u64 = SCALE * POW_PRECISION;
    let mut i: u64 = 0;
    while i < n
        invariant
            in_unit(x),
            y <= SCALE * POW_PRECISION,
            i <= n,
            y == spec_spow(x, i as nat),
        decreases n - i,
    {
        proof {
            assert(y * x <= (SCALE * POW_PRECISION) * (SCALE as int)) by (nonlinear_arith)
                requires
                    y <= SCALE * POW_PRECISION && x <= SCALE,
            ;
            lemma_spow_bounds(x, (i + 1) as nat);
        }
        y = y * x / SCALE;
        i += 1;
    }
    y
}

/// The plain integer power.
pub open spec fn spec_pow_int(r: int, q: nat) -> int
    decreases q,
{
    if q == 0 {
        1
    } else {
        spec_pow_int(r, (q - 1) as nat) * r
    }
}

/// The integer power grows with its base.
pub proof fn lemma_pow_int_monotone(a: int, b: int, q: nat)
    requires
        0 <= a <= b,
    ensures
        0 <= spec_pow_int(a, q) <= spec_pow_int(b, q),
    decreases q,
{
    if q > 0 {
        lemma_pow_int_monotone(a, b, (q - 1) as nat);
        assert(spec_pow_int(a, (q - 1) as nat) * a <= spec_pow_int(b, (q - 1) as nat) * b
            && spec_pow_int(a, (q - 1) as nat) * a >= 0) by (nonlinear_arith)
            requires
                0 <= spec_pow_int(a, (q - 1) as nat) <= spec_pow_int(b, (q - 1) as nat) && 0 <= a
                    <= b,
        ;
    }
}

/// The exact integer `q`-th root of `y`: the unique `r` whose `q`-th power
/// reaches `y` while the next power passes it.
pub open spec fn spec_iroot(y: int, q: nat) -> int {
    choose|r: int|
        #![trigger spec_pow_int(r, q)]
        0 <= r && spec_pow_int(r, q) <= y && spec_pow_int(r + 1, q) > y
}

/// Only one value satisfies the root characterization.
proof fn lemma_iroot_unique(y: int, q: nat, r1: int, r2: int)
    requires
        0 <= r1,
        0 <= r2,
        spec_pow_int(r1, q) <= y,
        spec_pow_int(r1 + 1, q) > y,
        spec_pow_int(r2, q) <= y,
        spec_pow_int(r2 + 1, q) > y,
    ensures
        r1 == r2,
{
    if r1 < r2 {
        lemma_pow_int_monotone(r1 + 1, r2, q);
    }
    if r2 < r1 {
        lemma_pow_int_monotone(r2 + 1, r1, q);
    }
}

/// The exact integer root does not shrink when `y` grows.
pub proof fn lemma_iroot_monotone(y1: int, y2: int, q: nat, r1: int, r2: int)
    requires
        y1 <= y2,
        0 <= r1,
        0 <= r2,
        spec_pow_int(r1, q) <= y1,
        spec_pow_int(r1 + 1, q) > y1,
        spec_pow_int(r2, q) <= y2,
        spec_pow_int(r2 + 1, q) > y2,
    ensures
        r1 <= r2,
{
    if r2 < r1 {
        lemma_pow_int_monotone(r2 + 1, r1, q);
    }
}

/// The integer power, in 128-bit arithmetic.
fn pow_int(r: u64, q: u64) -> (y: u128)
    requires
        r <= 4 * SCALE + 1,
        q <= 5,
    ensures
        y as int == spec_pow_int(r as int, q as nat),
{
    let mut y: u128 = 1;
    let mut i: u64 = 0;
    while i < q
        invariant
            r <= 4 * SCALE + 1,
            i <= q <= 5,
            y as int == spec_pow_int(r as int, i as nat),
            y <= 274730746648447086475738176061200001,
        decreases q - i,
    {
        proof {
            lemma_pow_int_monotone(r as int, 4 * SCALE + 1, (i + 1) as nat);
            assert(spec_pow_int(4 * SCALE + 1, (i + 1) as nat) <= spec_pow_int(4 * SCALE + 1, 5))
                by {
                lemma_pow_int_grows(4 * SCALE + 1, (i + 1) as nat, 5);
            }
            lemma_pow5_wide();
        }
        y = y * (r as u128);
        i += 1;
    }
    y
}

/// The fifth power of four times the scale and its successor, unfolded step
/// by step.
pub proof fn lemma_pow5_wide()
    ensures
        spec_pow_int(12240000int, 5nat) == 274730634421862400000000000000000000int,
        spec_pow_int(12240001int, 5nat) == 274730746648447086475738176061200001int,
{
    assert(spec_pow_int(12240000int, 0nat) == 1);
    assert(spec_pow_int(12240000int, 1nat) == spec_pow_int(12240000int, 0nat) * 12240000int);
    assert(spec_pow_int(12240000int, 2nat) == spec_pow_int(12240000int, 1nat) * 12240000int);
    assert(spec_pow_int(12240000int, 3nat) == spec_pow_int(12240000int, 2nat) * 12240000int);
    assert(spec_pow_int(12240000int, 4nat) == spec_pow_int(12240000int, 3nat) * 12240000int);
    assert(spec_pow_int(12240000int, 5nat) == spec_pow_int(12240000int, 4nat) * 12240000int);
    assert(spec_pow_int(12240001int, 0nat) == 1);
    assert(spec_pow_int(12240001int, 1nat) == spec_pow_int(12240001int, 0nat) * 12240001int);
    assert(spec_pow_int(12240001int, 2nat) == spec_pow_int(12240001int, 1nat) * 12240001int);
    assert(spec_pow_int(12240001int, 3nat) == spec_pow_int(12240001int, 2nat) * 12240001int);
    assert(spec_pow_int(12240001int, 4nat) == spec_pow_int(12240001int, 3nat) * 12240001int);
    assert(spec_pow_int(12240001int, 5nat) == spec_pow_int(12240001int, 4nat) * 12240001int);
}

/// A power of a base above one grows with the exponent.
proof fn lemma_pow_int_grows(r: int, a: nat, b: nat)
    requires
        r >= 1,
        a <= b,
    ensures
        spec_pow_int(r, a) <= spec_pow_int(r, b),
    decreases b,
{
    if a < b {
        lemma_pow_int_grows(r, a, (b - 1) as nat);
        let prev = spec_pow_int(r, (b - 1) as nat);
        assert(prev >= 1 ==> prev * r >= prev) by (nonlinear_arith)
            requires
                r >= 1,
        ;
        lemma_pow_int_monotone(1, r, (b - 1) as nat);
        assert(spec_pow_int(1int, (b - 1) as nat) == 1) by {
            lemma_pow_int_one((b - 1) as nat);
        }
    }
}

/// One to any power is one.
proof fn lemma_pow_int_one(q: nat)
    ensures
        spec_pow_int(1int, q) == 1,
    decreases q,
{
    if q > 0 {
        lemma_pow_int_one((q - 1) as nat);
    }
}

/// The exact integer `q`-th root, by binary search; the argument may not
/// exceed the `q`-th power of `cap`, which brackets the root.
pub fn iroot(y: u128, q: u64, cap: u64) -> (r: u64)
    requires
        1 <= q <= 5,
        SCALE <= cap <= 4 * SCALE,
        y as int <= spec_pow_int(cap as int, q as nat),
    ensures
        r as int == spec_iroot(y as int, q as nat),
        r <= cap,
        spec_pow_int(r as int, q as nat) <= y as int,
        spec_pow_int(r as int + 1, q as nat) > y as int,
{
    let mut lo: u64 = 0;
    let mut hi: u64 = cap;
    proof {
        lemma_pow_int_zero_le(y as int, q as nat);
        lemma_pow_int_strict(cap as int, cap as int + 1, q as nat);
    }
    while lo < hi
        invariant
            1 <= q <= 5,
            lo <= hi <= cap <= 4 * SCALE,
            spec_pow_int(lo as int, q as nat) <= y as int,
            spec_pow_int(hi as int + 1, q as nat) > y as int,
        decreases hi - lo,
    {
        let mid = lo + (hi - lo + 1) / 2;
        if pow_int(mid, q) <= y {
            lo = mid;
        } else {
            hi = mid - 1;
        }
    }
    proof {
        let li: int = lo as int;
        assert(0 <= li && spec_pow_int(li, q as nat) <= y as int && spec_pow_int(li + 1, q as nat)
            > y as int);
        assert(exists|r: int|
            #![trigger spec_pow_int(r, q as nat)]
            0 <= r && spec_pow_int(r, q as nat) <= y as int && spec_pow_int(r + 1, q as nat)
                > y as int);
        let c = spec_iroot(y as int, q as nat);
        lemma_iroot_unique(y as int, q as nat, c, li);
    }
    lo
}

/// Zero to a positive power is zero, so any root search can start at zero.
proof fn lemma_pow_int_zero_le(y: int, q: nat)
    requires
        y >= 0,
        q >= 1,
    ensures
        spec_pow_int(0, q) <= y,
{
    assert(spec_pow_int(0, (q - 1) as nat) * 0 == 0) by (nonlinear_arith);
}

/// The fifth powers of the scale and its successor, unfolded step by step.
pub proof fn lemma_pow5_scale()
    ensures
        spec_pow_int(3060000int, 5nat) == 3060000int * 87677004960000000000000000int,
        spec_pow_int(3060001int, 5nat) == 268292073562911326253636015300001int,
        spec_pow_int(0int, 5nat) == 0,
{
    assert(spec_pow_int(3060000int, 0nat) == 1);
    assert(spec_pow_int(3060000int, 1nat) == spec_pow_int(3060000int, 0nat) * 3060000int);
    assert(spec_pow_int(3060000int, 2nat) == spec_pow_int(3060000int, 1nat) * 3060000int);
    assert(spec_pow_int(3060000int, 3nat) == spec_pow_int(3060000int, 2nat) * 3060000int);
    assert(spec_pow_int(3060000int, 4nat) == spec_pow_int(3060000int, 3nat) * 3060000int);
    assert(spec_pow_int(3060000int, 5nat) == spec_pow_int(3060000int, 4nat) * 3060000int);
    assert(spec_pow_int(3060001int, 0nat) == 1);
    assert(spec_pow_int(3060001int, 1nat) == spec_pow_int(3060001int, 0nat) * 3060001int);
    assert(spec_pow_int(3060001int, 2nat) == spec_pow_int(3060001int, 1nat) * 3060001int);
    assert(spec_pow_int(3060001int, 3nat) == spec_pow_int(3060001int, 2nat) * 3060001int);
    assert(spec_pow_int(3060001int, 4nat) == spec_pow_int(3060001int, 3nat) * 3060001int);
    assert(spec_pow_int(3060001int, 5nat) == spec_pow_int(3060001int, 4nat) * 3060001int);
    assert(spec_pow_int(0int, 5nat) == spec_pow_int(0int, 4nat) * 0);
}

/// The cube of twice the scale, unfolded step by step.
pub proof fn lemma_pow3_wide()
    ensures
        spec_pow_int(6120000int, 3nat) == 229220928000000000000int,
{
    assert(spec_pow_int(6120000int, 0nat) == 1);
    assert(spec_pow_int(6120000int, 1nat) == spec_pow_int(6120000int, 0nat) * 6120000int);
    assert(spec_pow_int(6120000int, 2nat) == spec_pow_int(6120000int, 1nat) * 6120000int);
    assert(spec_pow_int(6120000int, 3nat) == spec_pow_int(6120000int, 2nat) * 6120000int);
}

/// The cube of the scale, unfolded step by step.
pub proof fn lemma_pow3_scale()
    ensures
        spec_pow_int(3060000int, 3nat) == 3060000int * 9363600000000int,
{
    assert(spec_pow_int(3060000int, 0nat) == 1);
    assert(spec_pow_int(3060000int, 1nat) == spec_pow_int(3060000int, 0nat) * 3060000int);
    assert(spec_pow_int(3060000int, 2nat) == spec_pow_int(3060000int, 1nat) * 3060000int);
    assert(spec_pow_int(3060000int, 3nat) == spec_pow_int(3060000int, 2nat) * 3060000int);
}

/// The integer power grows strictly with a strictly larger positive base.
proof fn lemma_pow_int_strict(a: int, b: int, q: nat)
    requires
        0 <= a < b,
        q >= 1,
    ensures
        spec_pow_int(a, q) < spec_pow_int(b, q),
    decreases q,
{
    if q == 1 {
        assert(spec_pow_int(a, 1) == spec_pow_int(a, 0) * a);
        assert(spec_pow_int(b, 1) == spec_pow_int(b, 0) * b);
    } else {
        lemma_pow_int_strict(a, b, (q - 1) as nat);
        lemma_pow_int_monotone(0, a, (q - 1) as nat);
        assert(spec_pow_int(a, (q - 1) as nat) * a < spec_pow_int(b, (q - 1) as nat) * b)
            by (nonlinear_arith)
            requires
                0 <= spec_pow_int(a, (q - 1) as nat) < spec_pow_int(b, (q - 1) as nat) && 0 <= a
                    < b,
        ;
    }
}

/// The fifth root of a normalized value, at fixed-point scale: the base of
/// the power curves, exact up to flooring.
pub open spec fn spec_curve_root(x: u64) -> int {
    spec_iroot(x * 87677004960000000000000000, 5)
}

/// A power curve `x^(p/5)`: the exact fifth root raised to the `p`-th
/// power at boosted precision, brought back to color scale.
pub open spec fn spec_gamma_decode(x: u64, p: u64) -> int {
    spec_spow(spec_curve_root(x) as u64, p as nat) / (POW_PRECISION as int)
}

/// Evaluates a power curve `x^(p/5)`.
pub fn gamma_decode(x: u64, p: u64) -> (r: u64)
    requires
        in_unit(x),
        1 <= p <= 16,
    ensures
        r == spec_gamma_decode(x, p),
        in_unit(r),
{
    proof {
        assert((x as int) * 87677004960000000000000000 <= spec_pow_int(SCALE as int, 5)) by {
            lemma_pow5_scale();
            assert((x as int) * 87677004960000000000000000 <= SCALE as int
                * 87677004960000000000000000) by (nonlinear_arith)
                requires
                    x <= SCALE,
            ;
        }
    }
    let t = iroot((x as u128) * 87677004960000000000000000u128, 5, SCALE);
    let w = spow(t, p);
    proof {
        lemma_spow_bounds(t, p as nat);
        vstd::arithmetic::div_mod::lemma_div_is_ordered(
            spec_spow(t, p as nat),
            SCALE * POW_PRECISION,
            POW_PRECISION as int,
        );
        assert(SCALE * (POW_PRECISION as int) / (POW_PRECISION as int) == SCALE)
            by (nonlinear_arith);
        vstd::arithmetic::div_mod::lemma_div_pos_is_pos(spec_spow(t, p as nat), POW_PRECISION as int);
    }
    w / POW_PRECISION
}

/// A power curve never comes out lower for a higher input.
pub proof fn lemma_gamma_decode_monotone(a: u64, b: u64, p: u64)
    requires
        a <= b,
        in_unit(b),
        1 <= p <= 16,
    ensures
        spec_gamma_decode(a, p) <= spec_gamma_decode(b, p),
{
    let ya = a * 87677004960000000000000000;
    let yb = b * 87677004960000000000000000;
    assert(ya <= yb) by (nonlinear_arith)
        requires
            a <= b && ya == a * 87677004960000000000000000 && yb == b
                * 87677004960000000000000000,
    ;
    lemma_curve_root_facts(a);
    lemma_curve_root_facts(b);
    lemma_iroot_monotone(ya, yb, 5, spec_curve_root(a), spec_curve_root(b));
    lemma_spow_monotone(spec_curve_root(a) as u64, spec_curve_root(b) as u64, p as nat);
    vstd::arithmetic::div_mod::lemma_div_is_ordered(
        spec_spow(spec_curve_root(a) as u64, p as nat),
        spec_spow(spec_curve_root(b) as u64, p as nat),
        POW_PRECISION as int,
    );
}

/// The fifth-root base of a power curve is normalized and satisfies its
/// characterization.
pub proof fn lemma_curve_root_facts(x: u64)
    requires
        in_unit(x),
    ensures
        0 <= spec_curve_root(x) <= SCALE,
        spec_pow_int(spec_curve_root(x), 5) <= x * 87677004960000000000000000,
        spec_pow_int(spec_curve_root(x) + 1, 5) > x * 87677004960000000000000000,
{
    let y = x * 87677004960000000000000000;
    assert(0 <= y <= SCALE as int * 87677004960000000000000000) by (nonlinear_arith)
        requires
            0 <= x <= SCALE && y == x * 87677004960000000000000000,
    ;
    lemma_pow5_scale();
    lemma_pow_int_zero_le(y, 5);
    assert(exists|r: int|
        #![trigger spec_pow_int(r, 5nat)]
        0 <= r && spec_pow_int(r, 5nat) <= y && spec_pow_int(r + 1, 5nat) > y) by {
        lemma_iroot_exists(y);
    }
    let c = spec_iroot(y, 5);
    if c > SCALE {
        lemma_pow_int_monotone(SCALE as int + 1, c, 5);
        lemma_pow_int_strict(SCALE as int, SCALE as int + 1, 5);
    }
}

/// Some value satisfies the fifth-root characterization for any bounded
/// argument: the root of the scale itself brackets the search.
proof fn lemma_iroot_exists(y: int)
    requires
        0 <= y <= spec_pow_int(SCALE as int, 5),
    ensures
        exists|r: int|
            #![trigger spec_pow_int(r, 5nat)]
            0 <= r && spec_pow_int(r, 5nat) <= y && spec_pow_int(r + 1, 5nat) > y,
{
    lemma_pow_int_strict(SCALE as int, SCALE as int + 1, 5);
    lemma_iroot_exists_rec(y, SCALE as int);
}

/// Walking the bracket down from any upper bound finds a witness.
proof fn lemma_iroot_exists_rec(y: int, ub: int)
    requires
        0 <= y,
        0 <= ub,
        spec_pow_int(ub + 1, 5nat) > y,
    ensures
        exists|r: int|
            #![trigger spec_pow_int(r, 5nat)]
            0 <= r && spec_pow_int(r, 5nat) <= y && spec_pow_int(r + 1, 5nat) > y,
    decreases ub,
{
    if spec_pow_int(ub, 5nat) <= y {
        assert(0 <= ub && spec_pow_int(ub, 5nat) <= y && spec_pow_int(ub + 1, 5nat) > y);
    } else {
        if ub == 0 {
            lemma_pow5_scale();
        } else {
            lemma_iroot_exists_rec(y, ub - 1);
        }
    }
}

/// The inverse of a power curve: the smallest input whose curve value
/// reaches `v`; the curve tops out at the scale, so one always exists.
pub open spec fn spec_gamma_encode(v: u64, p: u64) -> int {
    choose|r: int|
        #![trigger spec_gamma_decode(r as u64, p)]
        0 <= r <= SCALE && spec_gamma_decode(r as u64, p) >= v && (r == 0 || spec_gamma_decode(
            (r - 1) as u64,
            p,
        ) < v)
}

/// Only one value satisfies the inverse characterization.
proof fn lemma_gamma_encode_unique(v: u64, p: u64, r1: int, r2: int)
    requires
        1 <= p <= 16,
        0 <= r1 <= SCALE,
        0 <= r2 <= SCALE,
        spec_gamma_decode(r1 as u64, p) >= v,
        r1 == 0 || spec_gamma_decode((r1 - 1) as u64, p) < v,
        spec_gamma_decode(r2 as u64, p) >= v,
        r2 == 0 || spec_gamma_decode((r2 - 1) as u64, p) < v,
    ensures
        r1 == r2,
{
    if r1 < r2 {
        lemma_gamma_decode_monotone(r1 as u64, (r2 - 1) as u64, p);
    }
    if r2 < r1 {
        lemma_gamma_decode_monotone(r2 as u64, (r1 - 1) as u64, p);
    }
}

/// The power curve reaches the scale exactly at the scale.
pub proof fn lemma_gamma_decode_at_scale(p: u64)
    requires
        1 <= p <= 16,
    ensures
        spec_gamma_decode(SCALE, p) == SCALE,
{
    lemma_pow5_scale();
    assert(spec_pow_int((SCALE as int) + 1, 5nat) > SCALE as int * 87677004960000000000000000int)
        by {
        lemma_pow5_scale();
    }
    assert(spec_curve_root(SCALE) == SCALE) by {
        assert(exists|r: int|
            #![trigger spec_pow_int(r, 5nat)]
            0 <= r && spec_pow_int(r, 5nat) <= SCALE as int * 87677004960000000000000000int
                && spec_pow_int(r + 1, 5nat) > SCALE as int * 87677004960000000000000000int);
        let c = spec_iroot(SCALE as int * 87677004960000000000000000int, 5nat);
        lemma_iroot_unique(
            SCALE as int * 87677004960000000000000000int,
            5nat,
            c,
            SCALE as int,
        );
    }
    lemma_spow_at_scale(p as nat);
    assert((SCALE * POW_PRECISION) as int / (POW_PRECISION as int) == SCALE) by (nonlinear_arith);
}

/// The scaled power of the scale itself stays the boosted scale.
proof fn lemma_spow_at_scale(n: nat)
    ensures
        spec_spow(SCALE, n) == SCALE * POW_PRECISION,
    decreases n,
{
    if n > 0 {
        lemma_spow_at_scale((n - 1) as nat);
        assert((SCALE * POW_PRECISION) * (SCALE as int) / (SCALE as int) == SCALE * POW_PRECISION)
            by (nonlinear_arith);
    }
}

/// Inverts a power curve by binary search.
pub fn gamma_encode(v: u64, p: u64) -> (r: u64)
    requires
        in_unit(v),
        1 <= p <= 16,
    ensures
        r == spec_gamma_encode(v, p),
        in_unit(r),
{
    proof {
        lemma_gamma_decode_at_scale(p);
    }
    let mut lo: u64 = 0;
    let mut hi: u64 = SCALE;
    while lo < hi
        invariant
            in_unit(v),
            1 <= p <= 16,
            lo <= hi <= SCALE,
            spec_gamma_decode(hi, p) >= v,
            lo == 0 || spec_gamma_decode((lo - 1) as u64, p) < v,
        decreases hi - lo,
    {
        let mid = lo + (hi - lo) / 2;
        if gamma_decode(mid, p) >= v {
            hi = mid;
        } else {
            lo = mid + 1;
        }
    }
    proof {
        let li: int = lo as int;
        assert(0 <= li <= SCALE && spec_gamma_decode(li as u64, p) >= v && (li == 0
            || spec_gamma_decode((li - 1) as u64, p) < v));
        assert(exists|r: int|
            #![trigger spec_gamma_decode(r as u64, p)]
            0 <= r <= SCALE && spec_gamma_decode(r as u64, p) >= v && (r == 0
                || spec_gamma_decode((r - 1) as u64, p) < v));
        let c = spec_gamma_encode(v, p);
        lemma_gamma_encode_unique(v, p, c, li);
    }
    lo
}

} // verus!
