//! The CMYK color type and its conversions from and to RGB.

use vstd::prelude::*;

use crate::fixed::{in_unit, mul_unit, spec_max3, spec_mul_unit, SCALE};
use crate::hsv::spec_percent_input;
use crate::rgb::Rgb;

verus! {

/// A color as cyan, magenta, yellow and black components, each in
/// `[0.0, 1.0]`.
#[derive(Clone, Copy, Debug, PartialEq, Eq, Structural)]
pub struct Cmyk {
    pub c: u64,
    pub m: u64,
    pub y: u64,
    pub k: u64,
}

/// The black component of an RGB triple: `1 - max(r, g, b)`.
pub open spec fn spec_k_from_rgb(r: u64, g: u64, b: u64) -> int {
    SCALE - spec_max3(r, g, b)
}

/// A chromatic CMYK component: `(1 - channel - k) / (1 - k)`, or zero for
/// pure black (avoiding the division by zero).
pub open spec fn spec_cmy_from_rgb(channel: u64, r: u64, g: u64, b: u64) -> int {
    let mx = spec_max3(r, g, b);
    if mx == 0 {
        0
    } else {
        (mx - channel) * SCALE / (mx as int)
    }
}

/// An RGB channel recovered from CMYK: `(1 - component) * (1 - k)`.
pub open spec fn spec_rgb_from_cmyk(component: u64, k: u64) -> int {
    spec_mul_unit((SCALE - component) as u64, (SCALE - k) as u64)
}

impl Cmyk {
    /// All components lie in the normalized range.
    pub open spec fn wf(&self) -> bool {
        in_unit(self.c) && in_unit(self.m) && in_unit(self.y) && in_unit(self.k)
    }

    /// Builds a color from components, each read as a percentage when above
    /// `1.0`.
    pub fn new(c: u64, m: u64, y: u64, k: u64) -> (r: Self)
        ensures
            r.wf(),
            r.c == spec_percent_input(c),
            r.m == spec_percent_input(m),
            r.y == spec_percent_input(y),
            r.k == spec_percent_input(k),
    {
        Cmyk {
            c: crate::hsv::sanitize_percent(c),
            m: crate::hsv::sanitize_percent(m),
            y: crate::hsv::sanitize_percent(y),
            k: crate::hsv::sanitize_percent(k),
        }
    }

    /// Builds a color from components already known to be normalized.
    pub fn new_unchecked(c: u64, m: u64, y: u64, k: u64) -> (r: Self)
        requires
            in_unit(c),
            in_unit(m),
            in_unit(y),
            in_unit(k),
        ensures
            r.wf(),
            r.c == c && r.m == m && r.y == y && r.k == k,
    {
        Cmyk { c, m, y, k }
    }

    /// Converts an RGB color: the black component is one minus the largest
    /// channel, and pure black has no chromatic components.
    pub fn from_rgb(rgb: Rgb) -> (r: Self)
        requires
            rgb.wf(),
        ensures
            r.wf(),
            r.c == spec_cmy_from_rgb(rgb.r, rgb.r, rgb.g, rgb.b),
            r.m == spec_cmy_from_rgb(rgb.g, rgb.r, rgb.g, rgb.b),
            r.y == spec_cmy_from_rgb(rgb.b, rgb.r, rgb.g, rgb.b),
            r.k == spec_k_from_rgb(rgb.r, rgb.g, rgb.b),
    {
        let mx = crate::fixed::max3(rgb.r(), rgb.g(), rgb.b());
        let k = SCALE - mx;
        if mx == 0 {
            Cmyk { c: 0, m: 0, y: 0, k }
        } else {
            Cmyk {
                c: cmy_component(rgb.r(), mx),
                m: cmy_component(rgb.g(), mx),
                y: cmy_component(rgb.b(), mx),
                k,
            }
        }
    }

    /// Converts to RGB: each channel is `(1 - component) * (1 - k)`.
    pub fn to_rgb(&self) -> (r: Rgb)
        requires
            self.wf(),
        ensures
            r.wf(),
            r.r == spec_rgb_from_cmyk(self.c, self.k),
            r.g == spec_rgb_from_cmyk(self.m, self.k),
            r.b == spec_rgb_from_cmyk(self.y, self.k),
    {
        let w = SCALE - self.k;
        Rgb::new_unchecked(
            mul_unit(SCALE - self.c, w),
            mul_unit(SCALE - self.m, w),
            mul_unit(SCALE - self.y, w),
        )
    }
}

/// `(mx - channel) * SCALE / mx`, bounded by `SCALE`.
fn cmy_component(channel: u64, mx: u64) -> (r: u64)
    requires
        0 < mx <= SCALE,
        channel <= mx,
    ensures
        r == (mx - channel) * SCALE / (mx as int),
        in_unit(r),
{
    let r = (mx - channel) * SCALE / mx;
    assert(r <= SCALE) by {
        assert((mx - channel) * SCALE <= mx * SCALE) by (nonlinear_arith)
            requires
                channel <= mx,
        ;
        assert(mx * SCALE / (mx as int) == SCALE) by (nonlinear_arith)
            requires
                mx > 0,
        ;
        vstd::arithmetic::div_mod::lemma_div_is_ordered(
            ((mx - channel) * SCALE) as int,
            (mx * SCALE) as int,
            mx as int,
        );
    };
    r
}

} // verus!
