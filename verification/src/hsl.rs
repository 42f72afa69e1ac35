//! The HSL color type and its conversions from and to HSV and RGB.

use vstd::prelude::*;

use crate::fixed::{in_unit, SCALE};
use crate::hsv::{
    spec_hue_from_rgb, spec_hue_input, spec_percent_input, spec_rgb_from_hsv_b,
    spec_rgb_from_hsv_g, spec_rgb_from_hsv_r, spec_sat_from_rgb, spec_val_from_rgb, Hsv,
};
use crate::rgb::Rgb;

verus! {

/// A color as hue, saturation and lightness, each in `[0.0, 1.0]`.
#[derive(Clone, Copy, Debug, PartialEq, Eq, Structural)]
pub struct Hsl {
    pub h: u64,
    pub s: u64,
    pub l: u64,
}

/// Lightness of an HSV color: `v * (1 - s/2)`, by the doubled-lightness
/// identity.
pub open spec fn spec_lightness_from_hsv(s: u64, v: u64) -> int {
    v * (2 * SCALE - s) / (2 * SCALE as int)
}

/// Saturation of an HSL color derived from HSV: `(v - l) / min(l, 1 - l)`,
/// zero at the black and white poles, capped at one to absorb fixed-point
/// rounding.
pub open spec fn spec_hsl_sat_from_hsv(s: u64, v: u64) -> int {
    let l = spec_lightness_from_hsv(s, v);
    if l == 0 || l >= SCALE {
        0
    } else {
        let m = if l < SCALE - l {
            l
        } else {
            SCALE - l
        };
        let q = (v - l) * SCALE / m;
        if q > SCALE {
            SCALE as int
        } else {
            q
        }
    }
}

/// The doubled saturation-lightness product used when mapping HSL to HSV.
pub open spec fn spec_hsl_ss(s: u64, l: u64) -> int {
    let l2 = 2 * l;
    if l2 <= SCALE {
        s * l2 / (SCALE as int)
    } else {
        s * (2 * SCALE - l2) / (SCALE as int)
    }
}

/// Value of an HSL color: `(2l + ss) / 2`.
pub open spec fn spec_val_from_hsl(s: u64, l: u64) -> int {
    (2 * l + spec_hsl_ss(s, l)) / 2
}

/// HSV saturation of an HSL color: `2ss / (2l + ss)`, zero for black.
pub open spec fn spec_hsv_sat_from_hsl(s: u64, l: u64) -> int {
    let ss = spec_hsl_ss(s, l);
    if 2 * l + ss == 0 {
        0
    } else {
        2 * ss * SCALE / (2 * l + ss)
    }
}

impl Hsl {
    /// All components lie in the normalized range.
    pub open spec fn wf(&self) -> bool {
        in_unit(self.h) && in_unit(self.s) && in_unit(self.l)
    }

    /// Builds a color from components, applying the sanity mappings: a hue
    /// above `1.0` is read as degrees, the rest as percentages.
    pub fn new(hue: u64, saturation: u64, lightness: u64) -> (c: Self)
        ensures
            c.wf(),
            c.h == spec_hue_input(hue),
            c.s == spec_percent_input(saturation),
            c.l == spec_percent_input(lightness),
    {
        let t = Hsv::new(hue, saturation, lightness);
        Hsl { h: t.h(), s: t.s(), l: t.v() }
    }

    /// Builds a color from components already known to be normalized.
    pub fn new_unchecked(h: u64, s: u64, l: u64) -> (c: Self)
        requires
            in_unit(h),
            in_unit(s),
            in_unit(l),
        ensures
            c.wf(),
            c.h == h && c.s == s && c.l == l,
    {
        Hsl { h, s, l }
    }

    /// Hue in `[0.0, 1.0]`.
    pub fn h(&self) -> (r: u64)
        ensures
            r == self.h,
    {
        self.h
    }

    /// Saturation in `[0.0, 1.0]`.
    pub fn s(&self) -> (r: u64)
        ensures
            r == self.s,
    {
        self.s
    }

    /// Lightness in `[0.0, 1.0]`.
    pub fn l(&self) -> (r: u64)
        ensures
            r == self.l,
    {
        self.l
    }

    /// The same hue and saturation with another lightness.
    pub fn with_lightness(&self, l: u64) -> (c: Self)
        requires
            self.wf(),
            in_unit(l),
        ensures
            c.wf(),
            c.h == self.h && c.s == self.s && c.l == l,
    {
        Hsl { h: self.h, s: self.s, l }
    }

    /// Converts an HSV color by the doubled-lightness identity.
    pub fn from_hsv(hsv: Hsv) -> (c: Self)
        requires
            hsv.wf(),
        ensures
            c.wf(),
            c.h == hsv.h,
            c.s == spec_hsl_sat_from_hsv(hsv.s, hsv.v),
            c.l == spec_lightness_from_hsv(hsv.s, hsv.v),
    {
        let s = hsv.s;
        let v = hsv.v;
        proof {
            assert(v * (2 * SCALE - s) <= 2 * SCALE * SCALE) by (nonlinear_arith)
                requires
                    v <= SCALE && s <= SCALE,
            ;
        }
        let l = v * (2 * SCALE - s) / (2 * SCALE);
        assert(l <= v) by {
            assert(v * (2 * SCALE - s) <= v * 2 * SCALE) by (nonlinear_arith)
                requires
                    s <= SCALE && v <= SCALE,
            ;
            assert(v * 2 * (SCALE as int) / (2 * SCALE as int) == v) by (nonlinear_arith);
            vstd::arithmetic::div_mod::lemma_div_is_ordered(
                (v * (2 * SCALE - s)) as int,
                v * 2 * (SCALE as int),
                2 * SCALE as int,
            );
        };
        let sl: u64 = if l == 0 || l >= SCALE {
            0
        } else {
            let m = if l < SCALE - l {
                l
            } else {
                SCALE - l
            };
            let q = (v - l) * SCALE / m;
            if q > SCALE {
                SCALE
            } else {
                q
            }
        };
        Hsl { h: hsv.h, s: sl, l }
    }

    /// Converts to HSV by the doubled-lightness identity.
    pub fn to_hsv(&self) -> (c: Hsv)
        requires
            self.wf(),
        ensures
            c.wf(),
            c.h == self.h,
            c.s == spec_hsv_sat_from_hsl(self.s, self.l),
            c.v == spec_val_from_hsl(self.s, self.l),
    {
        let s = self.s;
        let l = self.l;
        let l2 = 2 * l;
        let ss: u64 = if l2 <= SCALE {
            proof {
                assert(s * l2 <= 2 * SCALE * SCALE) by (nonlinear_arith)
                    requires
                        s <= SCALE && l2 <= 2 * SCALE,
                ;
            }
            let x = s * l2 / SCALE;
            assert(x <= l2) by {
                assert(s * l2 <= SCALE * l2) by (nonlinear_arith)
                    requires
                        s <= SCALE,
                ;
                assert((SCALE as int) * l2 / (SCALE as int) == l2) by (nonlinear_arith);
                vstd::arithmetic::div_mod::lemma_div_is_ordered(
                    (s * l2) as int,
                    (SCALE * l2) as int,
                    SCALE as int,
                );
            };
            x
        } else {
            proof {
                assert(s * (2 * SCALE - l2) <= 2 * SCALE * SCALE) by (nonlinear_arith)
                    requires
                        s <= SCALE && l2 <= 2 * SCALE,
                ;
            }
            let x = s * (2 * SCALE - l2) / SCALE;
            assert(x <= 2 * SCALE - l2) by {
                assert(s * (2 * SCALE - l2) <= SCALE * (2 * SCALE - l2)) by (nonlinear_arith)
                    requires
                        s <= SCALE && l2 <= 2 * SCALE,
                ;
                assert((SCALE as int) * (2 * SCALE - l2) / (SCALE as int) == 2 * SCALE - l2)
                    by (nonlinear_arith)
                    requires
                        l2 <= 2 * SCALE,
                ;
                vstd::arithmetic::div_mod::lemma_div_is_ordered(
                    (s * (2 * SCALE - l2)) as int,
                    (SCALE * (2 * SCALE - l2)) as int,
                    SCALE as int,
                );
            };
            x
        };
        let v = (l2 + ss) / 2;
        let sv: u64 = if l2 + ss == 0 {
            0
        } else {
            let q = 2 * ss * SCALE / (l2 + ss);
            assert(q <= SCALE) by {
                assert(2 * ss <= l2 + ss);
                assert(2 * ss * SCALE <= (l2 + ss) * SCALE) by (nonlinear_arith)
                    requires
                        2 * ss <= l2 + ss,
                ;
                assert((l2 + ss) * (SCALE as int) / (l2 + ss) as int == SCALE) by (nonlinear_arith)
                    requires
                        l2 + ss > 0,
                ;
                vstd::arithmetic::div_mod::lemma_div_is_ordered(
                    (2 * ss * SCALE) as int,
                    ((l2 + ss) * SCALE) as int,
                    (l2 + ss) as int,
                );
            };
            q
        };
        Hsv::new_unchecked(self.h, sv, v)
    }

    /// Converts an RGB color, with RGB as the hub: first to HSV, then by the
    /// doubled-lightness identity.
    pub fn from_rgb(rgb: Rgb) -> (c: Self)
        requires
            rgb.wf(),
        ensures
            c.wf(),
            c.h == spec_hue_from_rgb(rgb.r, rgb.g, rgb.b),
            c.s == spec_hsl_sat_from_hsv(
                spec_sat_from_rgb(rgb.r, rgb.g, rgb.b) as u64,
                spec_val_from_rgb(rgb.r, rgb.g, rgb.b) as u64,
            ),
            c.l == spec_lightness_from_hsv(
                spec_sat_from_rgb(rgb.r, rgb.g, rgb.b) as u64,
                spec_val_from_rgb(rgb.r, rgb.g, rgb.b) as u64,
            ),
    {
        Hsl::from_hsv(Hsv::from_rgb(rgb))
    }

    /// Converts to RGB, with HSV as the intermediate step.
    pub fn to_rgb(&self) -> (c: Rgb)
        requires
            self.wf(),
        ensures
            c.wf(),
            c.r == spec_rgb_from_hsv_r(
                self.h,
                spec_hsv_sat_from_hsl(self.s, self.l) as u64,
                spec_val_from_hsl(self.s, self.l) as u64,
            ),
            c.g == spec_rgb_from_hsv_g(
                self.h,
                spec_hsv_sat_from_hsl(self.s, self.l) as u64,
                spec_val_from_hsl(self.s, self.l) as u64,
            ),
            c.b == spec_rgb_from_hsv_b(
                self.h,
                spec_hsv_sat_from_hsl(self.s, self.l) as u64,
                spec_val_from_hsl(self.s, self.l) as u64,
            ),
    {
        self.to_hsv().to_rgb()
    }
}

} // verus!
