//! The HSV color type and its conversions from and to RGB.

use vstd::prelude::*;

use crate::fixed::{
    in_unit, mul_unit, spec_max3, spec_min3, spec_mul_unit, max3, min3, clamp_unit, SCALE,
};
use crate::rgb::Rgb;

verus! {

/// A color as hue, saturation and value, each in `[0.0, 1.0]`.
#[derive(Clone, Copy, Debug, PartialEq, Eq, Structural)]
pub struct Hsv {
    pub h: u64,
    pub s: u64,
    pub v: u64,
}

/// Sanity mapping for a hue input: a value above `1.0` is taken to be in
/// degrees and divided by 360, then clamped.
pub open spec fn spec_hue_input(v: u64) -> int {
    let scaled = if v > SCALE { v as int / 360 } else { v as int };
    if scaled > SCALE {
        SCALE as int
    } else {
        scaled
    }
}

/// Sanity mapping for a saturation or lightness-like input: a value above
/// `1.0` is taken to be a percentage and divided by 100, then clamped.
pub open spec fn spec_percent_input(v: u64) -> int {
    let scaled = if v > SCALE { v as int / 100 } else { v as int };
    if scaled > SCALE {
        SCALE as int
    } else {
        scaled
    }
}

/// Hue arithmetic wraps modulo one full turn and never goes negative.
pub open spec fn spec_hue_wrap(x: int) -> int {
    x % (SCALE as int)
}

/// Clamps an offset sum into the normalized range.
pub open spec fn spec_saturate(x: int) -> int {
    if x < 0 {
        0
    } else if x > SCALE {
        SCALE as int
    } else {
        x
    }
}

/// The hue of an RGB triple by the standard six-sector derivation, with the
/// tie-breaks of the max/min formulation: a gray (`max == min`) has hue 0,
/// and the red, green, blue sectors are tried in that order.
pub open spec fn spec_hue_from_rgb(r: u64, g: u64, b: u64) -> int {
    let mx = spec_max3(r, g, b);
    let mn = spec_min3(r, g, b);
    let d = mx - mn;
    if d == 0 {
        0
    } else if mx == r {
        if g >= b {
            (g - b) * SCALE / (6 * d)
        } else {
            let x = (b - g) * SCALE / (6 * d);
            if x == 0 {
                0
            } else {
                SCALE - x
            }
        }
    } else if mx == g {
        if b >= r {
            SCALE as int / 3 + (b - r) * SCALE / (6 * d)
        } else {
            SCALE as int / 3 - (r - b) * SCALE / (6 * d)
        }
    } else {
        if r >= g {
            2 * (SCALE as int / 3) + (r - g) * SCALE / (6 * d)
        } else {
            2 * (SCALE as int / 3) - (g - r) * SCALE / (6 * d)
        }
    }
}

/// The saturation of an RGB triple: `0` for black, else `1 - min/max`.
pub open spec fn spec_sat_from_rgb(r: u64, g: u64, b: u64) -> int {
    let mx = spec_max3(r, g, b);
    let mn = spec_min3(r, g, b);
    if mx == 0 {
        0
    } else {
        SCALE - mn * SCALE / (mx as int)
    }
}

/// The value of an RGB triple: the largest channel.
pub open spec fn spec_val_from_rgb(r: u64, g: u64, b: u64) -> int {
    spec_max3(r, g, b) as int
}

/// The sector index (0 to 5) that a hue falls in.
pub open spec fn spec_sector(h: u64) -> int {
    let i = 6 * h / (SCALE as int);
    if i > 5 {
        5
    } else {
        i
    }
}

/// The position of a hue within its sector, in `[0.0, 1.0]`.
pub open spec fn spec_sector_pos(h: u64) -> int {
    6 * h - spec_sector(h) * SCALE
}

/// The red channel reconstructed from HSV components.
pub open spec fn spec_rgb_from_hsv_r(h: u64, s: u64, v: u64) -> int {
    let i = spec_sector(h);
    let f = spec_sector_pos(h) as u64;
    if i == 0 || i == 5 {
        v as int
    } else if i == 1 || i == 4 {
        spec_mix(v, s, f, i)
    } else {
        spec_mul_unit(v, (SCALE - s) as u64)
    }
}

/// The green channel reconstructed from HSV components.
pub open spec fn spec_rgb_from_hsv_g(h: u64, s: u64, v: u64) -> int {
    let i = spec_sector(h);
    let f = spec_sector_pos(h) as u64;
    if i == 1 || i == 2 {
        v as int
    } else if i == 3 || i == 0 {
        spec_mix(v, s, f, i)
    } else {
        spec_mul_unit(v, (SCALE - s) as u64)
    }
}

/// The blue channel reconstructed from HSV components.
pub open spec fn spec_rgb_from_hsv_b(h: u64, s: u64, v: u64) -> int {
    let i = spec_sector(h);
    let f = spec_sector_pos(h) as u64;
    if i == 3 || i == 4 {
        v as int
    } else if i == 5 || i == 2 {
        spec_mix(v, s, f, i)
    } else {
        spec_mul_unit(v, (SCALE - s) as u64)
    }
}

/// The middle channel of a sector: rises with the sector position on even
/// sectors and falls with it on odd sectors.
pub open spec fn spec_mix(v: u64, s: u64, f: u64, i: int) -> int {
    if i % 2 == 0 {
        // rising edge: v * (1 - (1 - f) * s)
        spec_mul_unit(v, (SCALE - spec_mul_unit((SCALE - f) as u64, s)) as u64)
    } else {
        // falling edge: v * (1 - f * s)
        spec_mul_unit(v, (SCALE - spec_mul_unit(f, s)) as u64)
    }
}

impl Hsv {
    /// All components lie in the normalized range.
    pub open spec fn wf(&self) -> bool {
        in_unit(self.h) && in_unit(self.s) && in_unit(self.v)
    }

    /// Builds a color from components, applying the sanity mappings.
    pub fn new(hue: u64, saturation: u64, value: u64) -> (c: Self)
        ensures
            c.wf(),
            c.h == spec_hue_input(hue),
            c.s == spec_percent_input(saturation),
            c.v == spec_percent_input(value),
    {
        Hsv {
            h: sanitize_hue(hue),
            s: sanitize_percent(saturation),
            v: sanitize_percent(value),
        }
    }

    /// Builds a color from components already known to be normalized.
    pub fn new_unchecked(h: u64, s: u64, v: u64) -> (c: Self)
        requires
            in_unit(h),
            in_unit(s),
            in_unit(v),
        ensures
            c.wf(),
            c.h == h && c.s == s && c.v == v,
    {
        Hsv { h, s, v }
    }

    /// Hue in `[0.0, 1.0]`.
    pub fn h(&self) -> (r: u64)
        ensures
            r == self.h,
    {
        self.h
    }

    /// Saturation in `[0.0, 1.0]`.
    pub fn s(&self) -> (r: u64)
        ensures
            r == self.s,
    {
        self.s
    }

    /// Value in `[0.0, 1.0]`.
    pub fn v(&self) -> (r: u64)
        ensures
            r == self.v,
    {
        self.v
    }

    /// Hue in degrees, `[0.0, 360.0]`.
    pub fn h_scaled(&self) -> (r: u64)
        requires
            self.wf(),
        ensures
            r == self.h * 360,
    {
        self.h * 360
    }

    /// Saturation as a percentage, `[0.0, 100.0]`.
    pub fn s_scaled(&self) -> (r: u64)
        requires
            self.wf(),
        ensures
            r == self.s * 100,
    {
        self.s * 100
    }

    /// Value as a percentage, `[0.0, 100.0]`.
    pub fn v_scaled(&self) -> (r: u64)
        requires
            self.wf(),
        ensures
            r == self.v * 100,
    {
        self.v * 100
    }

    /// Shifts the hue by `offset` fixed-point units, wrapping modulo a full
    /// turn; the result is always in `[0.0, 1.0)`.
    pub fn offset_hue(&mut self, offset: i64)
        requires
            old(self).wf(),
        ensures
            final(self).wf(),
            final(self).h == spec_hue_wrap(old(self).h + offset),
            final(self).h < SCALE,
            final(self).s == old(self).s,
            final(self).v == old(self).v,
    {
        self.h = hue_add(self.h, offset);
    }

    /// Shifts the saturation by `offset` fixed-point units, saturating at the
    /// normalized bounds.
    pub fn offset_saturation(&mut self, offset: i64)
        requires
            old(self).wf(),
        ensures
            final(self).wf(),
            final(self).s == spec_saturate(old(self).s + offset),
            final(self).h == old(self).h,
            final(self).v == old(self).v,
    {
        self.s = saturating_add_unit(self.s, offset);
    }

    /// Converts an RGB color by the standard max/min six-sector formulas.
    pub fn from_rgb(rgb: Rgb) -> (c: Self)
        requires
            rgb.wf(),
        ensures
            c.wf(),
            c.h == spec_hue_from_rgb(rgb.r, rgb.g, rgb.b),
            c.s == spec_sat_from_rgb(rgb.r, rgb.g, rgb.b),
            c.v == spec_val_from_rgb(rgb.r, rgb.g, rgb.b),
    {
        let r = rgb.r();
        let g = rgb.g();
        let b = rgb.b();
        let mx = max3(r, g, b);
        let mn = min3(r, g, b);
        let d = mx - mn;

        let h: u64 = if d == 0 {
            0
        } else if mx == r {
            if g >= b {
                sector_frac(g - b, d)
            } else {
                let x = sector_frac(b - g, d);
                if x == 0 {
                    0
                } else {
                    SCALE - x
                }
            }
        } else if mx == g {
            if b >= r {
                SCALE / 3 + sector_frac(b - r, d)
            } else {
                SCALE / 3 - sector_frac(r - b, d)
            }
        } else {
            if r >= g {
                2 * (SCALE / 3) + sector_frac(r - g, d)
            } else {
                2 * (SCALE / 3) - sector_frac(g - r, d)
            }
        };

        let s: u64 = if mx == 0 {
            0
        } else {
            let frac = mn * SCALE / mx;
            assert(frac <= SCALE) by {
                assert(mn * SCALE <= mx * SCALE) by (nonlinear_arith)
                    requires
                        mn <= mx,
                ;
                assert(mx * SCALE / (mx as int) == SCALE) by (nonlinear_arith)
                    requires
                        mx > 0,
                ;
                vstd::arithmetic::div_mod::lemma_div_is_ordered(
                    (mn * SCALE) as int,
                    (mx * SCALE) as int,
                    mx as int,
                );
            };
            SCALE - frac
        };

        Hsv { h, s, v: mx }
    }

    /// Converts back to RGB by the standard sector reconstruction.
    pub fn to_rgb(&self) -> (c: Rgb)
        requires
            self.wf(),
        ensures
            c.wf(),
            c.r == spec_rgb_from_hsv_r(self.h, self.s, self.v),
            c.g == spec_rgb_from_hsv_g(self.h, self.s, self.v),
            c.b == spec_rgb_from_hsv_b(self.h, self.s, self.v),
    {
        let t6 = 6 * self.h;
        let i0 = t6 / SCALE;
        let i = if i0 > 5 {
            5
        } else {
            i0
        };
        proof {
            assert(6 * self.h / (SCALE as int) == i0) by (nonlinear_arith)
                requires
                    t6 == 6 * self.h && i0 == t6 / SCALE && SCALE > 0,
            ;
        }
        let f = t6 - i * SCALE;
        assert(f <= SCALE) by {
            assert(t6 - 6 * self.h / (SCALE as int) * SCALE < SCALE && t6 - 6 * self.h / (
            SCALE as int) * SCALE >= 0) by (nonlinear_arith)
                requires
                    t6 == 6 * self.h && SCALE > 0,
            ;
            assert(i0 <= 6) by (nonlinear_arith)
                requires
                    i0 == t6 / SCALE && t6 <= 6 * SCALE && SCALE > 0,
            ;
        };

        let v = self.v;
        let s = self.s;
        let p = mul_unit(v, SCALE - s);
        let q = mul_unit(v, SCALE - mul_unit(f, s));
        let t = mul_unit(v, SCALE - mul_unit(SCALE - f, s));

        let (r, g, b): (u64, u64, u64) = if i == 0 {
            (v, t, p)
        } else if i == 1 {
            (q, v, p)
        } else if i == 2 {
            (p, v, t)
        } else if i == 3 {
            (p, q, v)
        } else if i == 4 {
            (t, p, v)
        } else {
            (v, p, q)
        };
        Rgb::new_unchecked(r, g, b)
    }
}

pub(crate) fn sanitize_hue(v: u64) -> (r: u64)
    ensures
        r == spec_hue_input(v),
        in_unit(r),
{
    let scaled = if v > SCALE { v / 360 } else { v };
    clamp_unit(scaled)
}

pub(crate) fn sanitize_percent(v: u64) -> (r: u64)
    ensures
        r == spec_percent_input(v),
        in_unit(r),
{
    let scaled = if v > SCALE { v / 100 } else { v };
    clamp_unit(scaled)
}

/// The fraction `diff / (6 * d)` of a full turn, at fixed-point scale; at
/// most one sector (a sixth of a turn).
fn sector_frac(diff: u64, d: u64) -> (x: u64)
    requires
        d > 0,
        diff <= d,
        d <= SCALE,
    ensures
        x == diff * SCALE / (6 * d as int),
        x <= SCALE / 6,
{
    let x = diff * SCALE / (6 * d);
    assert(x <= SCALE / 6) by {
        assert(diff * SCALE <= d * SCALE) by (nonlinear_arith)
            requires
                diff <= d,
        ;
        assert(d * SCALE / (6 * d as int) == SCALE / 6) by (nonlinear_arith)
            requires
                d > 0 && SCALE == 3060000,
        ;
        vstd::arithmetic::div_mod::lemma_div_is_ordered(
            (diff * SCALE) as int,
            (d * SCALE) as int,
            6 * d as int,
        );
    };
    x
}

/// Adds a signed offset to a hue, wrapping into `[0, SCALE)`.
fn hue_add(h: u64, offset: i64) -> (r: u64)
    requires
        in_unit(h),
    ensures
        r == spec_hue_wrap(h + offset),
        r < SCALE,
{
    let o: u64 = if offset >= 0 {
        (offset as u64) % SCALE
    } else {
        let big = -(offset as i128);
        let m = (big as u128 % (SCALE as u128)) as u64;
        proof {
            let mi = big as int;
            vstd::arithmetic::div_mod::lemma_fundamental_div_mod(mi, SCALE as int);
            if m == 0 {
                lemma_offset_mod(offset as int, 0, -(mi / (SCALE as int)));
            } else {
                lemma_offset_mod(
                    offset as int,
                    SCALE - m,
                    -(mi / (SCALE as int)) - 1,
                );
            }
        }
        if m == 0 {
            0
        } else {
            SCALE - m
        }
    };
    let r = (h + o) % SCALE;
    proof {
        vstd::arithmetic::div_mod::lemma_add_mod_noop(h as int, o as int, SCALE as int);
        vstd::arithmetic::div_mod::lemma_add_mod_noop(h as int, offset as int, SCALE as int);
        vstd::arithmetic::div_mod::lemma_small_mod(o as nat, SCALE as nat);
        assert((h as int % (SCALE as int) + o as int % (SCALE as int)) % (SCALE as int) == (
        h as int % (SCALE as int) + offset as int % (SCALE as int)) % (SCALE as int));
    }
    r
}

/// A wrapped hue always lies in `[0.0, 1.0)`, whatever the offset was.
pub proof fn lemma_hue_wrap_range(x: int)
    ensures
        0 <= spec_hue_wrap(x) < SCALE,
{
    vstd::arithmetic::div_mod::lemma_mod_division_less_than_divisor(x, SCALE as int);
}

/// Offsetting a hue by one full turn, in either direction, returns the very
/// same hue.
pub proof fn lemma_hue_full_turn(h: u64)
    ensures
        h < SCALE ==> spec_hue_wrap(h + SCALE) == h,
        h < SCALE ==> spec_hue_wrap(h - SCALE) == h,
{
    if h < SCALE {
        vstd::arithmetic::div_mod::lemma_mod_add_multiples_vanish(h as int, SCALE as int);
        vstd::arithmetic::div_mod::lemma_mod_sub_multiples_vanish(h as int, SCALE as int);
        vstd::arithmetic::div_mod::lemma_small_mod(h as nat, SCALE as nat);
    }
}

/// A gray color (equal channels) converts to HSV and back without any loss:
/// the hue and saturation are zero and the value carries the channel.
pub proof fn lemma_gray_round_trip(c: u64)
    requires
        in_unit(c),
    ensures
        spec_hue_from_rgb(c, c, c) == 0,
        spec_sat_from_rgb(c, c, c) == 0,
        spec_val_from_rgb(c, c, c) == c,
        spec_rgb_from_hsv_r(0, 0, c) == c,
        spec_rgb_from_hsv_g(0, 0, c) == c,
        spec_rgb_from_hsv_b(0, 0, c) == c,
{
    if c > 0 {
        assert(c * SCALE / (c as int) == SCALE) by (nonlinear_arith)
            requires
                c > 0,
        ;
    }
    assert(c * (SCALE as int) / (SCALE as int) == c) by (nonlinear_arith);
    assert(spec_mul_unit(c, SCALE as u64) == c);
}

/// Converting to HSV keeps every component normalized: the spec-level
/// counterpart of what the conversion function establishes.
pub proof fn lemma_hsv_components_bounded(r: u64, g: u64, b: u64)
    requires
        in_unit(r),
        in_unit(g),
        in_unit(b),
    ensures
        0 <= spec_sat_from_rgb(r, g, b) <= SCALE,
        0 <= spec_val_from_rgb(r, g, b) <= SCALE,
{
    let mx = spec_max3(r, g, b);
    let mn = spec_min3(r, g, b);
    if mx > 0 {
        assert(mn * SCALE <= mx * SCALE) by (nonlinear_arith)
            requires
                mn <= mx,
        ;
        assert(mx * SCALE / (mx as int) == SCALE) by (nonlinear_arith)
            requires
                mx > 0,
        ;
        vstd::arithmetic::div_mod::lemma_div_is_ordered(
            (mn * SCALE) as int,
            (mx * SCALE) as int,
            mx as int,
        );
        vstd::arithmetic::div_mod::lemma_div_pos_is_pos((mn * SCALE) as int, mx as int);
    }
}

/// The round trip through HSV returns the largest channel untouched: the
/// reconstructed color's maximum is exactly the original maximum.
pub proof fn lemma_round_trip_keeps_max(r: u64, g: u64, b: u64)
    requires
        in_unit(r),
        in_unit(g),
        in_unit(b),
    ensures
        ({
            let h = spec_hue_from_rgb(r, g, b) as u64;
            let s = spec_sat_from_rgb(r, g, b) as u64;
            let v = spec_val_from_rgb(r, g, b) as u64;
            spec_max3(
                spec_rgb_from_hsv_r(h, s, v) as u64,
                spec_rgb_from_hsv_g(h, s, v) as u64,
                spec_rgb_from_hsv_b(h, s, v) as u64,
            ) == spec_max3(r, g, b)
        }),
{
    lemma_hsv_components_bounded(r, g, b);
    let h = spec_hue_from_rgb(r, g, b) as u64;
    let s = spec_sat_from_rgb(r, g, b) as u64;
    let v = spec_val_from_rgb(r, g, b) as u64;
    let i = spec_sector(h);
    let f = spec_sector_pos(h) as u64;
    lemma_hue_bounded(r, g, b);
    lemma_sector_pos_bounded(h);
    crate::fixed::lemma_mul_unit_bounds((SCALE - f) as u64, s);
    crate::fixed::lemma_mul_unit_bounds(f, s);
    crate::fixed::lemma_mul_unit_bounds(v, (SCALE - s) as u64);
    crate::fixed::lemma_mul_unit_bounds(v, (SCALE - spec_mul_unit((SCALE - f) as u64, s)) as u64);
    crate::fixed::lemma_mul_unit_bounds(v, (SCALE - spec_mul_unit(f, s)) as u64);
}

/// The hue of any normalized RGB triple is itself normalized.
pub proof fn lemma_hue_bounded(r: u64, g: u64, b: u64)
    requires
        in_unit(r),
        in_unit(g),
        in_unit(b),
    ensures
        0 <= spec_hue_from_rgb(r, g, b) <= SCALE,
{
    let mx = spec_max3(r, g, b);
    let mn = spec_min3(r, g, b);
    let d = (mx - mn) as int;
    if d != 0 {
        if mx == r {
            if g >= b {
                lemma_sector_frac_bounded((g - b) as u64, (mx - mn) as u64);
            } else {
                lemma_sector_frac_bounded((b - g) as u64, (mx - mn) as u64);
            }
        } else if mx == g {
            if b >= r {
                lemma_sector_frac_bounded((b - r) as u64, (mx - mn) as u64);
            } else {
                lemma_sector_frac_bounded((r - b) as u64, (mx - mn) as u64);
            }
        } else {
            if r >= g {
                lemma_sector_frac_bounded((r - g) as u64, (mx - mn) as u64);
            } else {
                lemma_sector_frac_bounded((g - r) as u64, (mx - mn) as u64);
            }
        }
    }
}

/// A sector fraction never passes a sixth of a turn.
proof fn lemma_sector_frac_bounded(diff: u64, d: u64)
    requires
        d > 0,
        diff <= d,
    ensures
        0 <= diff * SCALE / (6 * d as int) <= SCALE / 6,
{
    assert(diff * SCALE <= d * SCALE) by (nonlinear_arith)
        requires
            diff <= d,
    ;
    assert(d * SCALE / (6 * d as int) == SCALE / 6) by (nonlinear_arith)
        requires
            d > 0 && SCALE == 3060000,
    ;
    vstd::arithmetic::div_mod::lemma_div_is_ordered(
        (diff * SCALE) as int,
        (d * SCALE) as int,
        6 * d as int,
    );
    vstd::arithmetic::div_mod::lemma_div_pos_is_pos((diff * SCALE) as int, 6 * d as int);
}

/// A hue's position within its sector is normalized.
pub proof fn lemma_sector_pos_bounded(h: u64)
    requires
        in_unit(h),
    ensures
        0 <= spec_sector_pos(h) <= SCALE,
        0 <= spec_sector(h) <= 5,
{
    let t6 = 6 * h as int;
    let i0 = t6 / (SCALE as int);
    assert(t6 - t6 / (SCALE as int) * SCALE < SCALE && t6 - t6 / (SCALE as int) * SCALE >= 0 && (
    t6 / (SCALE as int)) * SCALE <= t6) by (nonlinear_arith)
        requires
            t6 >= 0 && SCALE > 0,
    ;
    assert(i0 <= 6) by (nonlinear_arith)
        requires
            i0 == t6 / (SCALE as int) && t6 <= 6 * SCALE && SCALE > 0,
    ;
    assert(i0 >= 0) by (nonlinear_arith)
        requires
            i0 == t6 / (SCALE as int) && t6 >= 0 && SCALE > 0,
    ;
}

/// Wrapping an already-wrapped hue composes: offsetting in steps lands at
/// the same hue as offsetting by the sum.
pub proof fn lemma_hue_wrap_add(x: int, y: int)
    ensures
        spec_hue_wrap(spec_hue_wrap(x) + y) == spec_hue_wrap(x + y),
{
    let m = SCALE as int;
    vstd::arithmetic::div_mod::lemma_mod_twice(x, m);
    vstd::arithmetic::div_mod::lemma_add_mod_noop(x % m, y, m);
    vstd::arithmetic::div_mod::lemma_add_mod_noop(x, y, m);
}

/// A value congruent to `offset` modulo `SCALE` and lying in `[0, SCALE)`
/// equals the Euclidean remainder `offset % SCALE`.
proof fn lemma_offset_mod(offset: int, o: int, k: int)
    requires
        0 <= o < SCALE,
        offset == k * (SCALE as int) + o,
    ensures
        o == offset % (SCALE as int),
{
    vstd::arithmetic::div_mod::lemma_mod_multiples_vanish(k, o, SCALE as int);
    vstd::arithmetic::div_mod::lemma_small_mod(o as nat, SCALE as nat);
}

/// Adds a signed offset to a normalized value, saturating at the bounds.
pub(crate) fn saturating_add_unit(v: u64, offset: i64) -> (r: u64)
    requires
        in_unit(v),
    ensures
        r == spec_saturate(v + offset),
{
    if offset >= 0 {
        let o = offset as u64;
        if o > SCALE {
            SCALE
        } else {
            clamp_unit(v + o)
        }
    } else {
        let m128 = (-(offset as i128)) as u128;
        if m128 >= v as u128 {
            0
        } else {
            v - (m128 as u64)
        }
    }
}

} // verus!
