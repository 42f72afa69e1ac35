//! The CIE-derived color types beyond XYZ: chromaticity-luminance (xyY),
//! Lab and Luv, each with its exact fixed-point transform from and to XYZ.

use vstd::prelude::*;

use crate::adapt::spec_tdiv;
use crate::fixed::SCALE;
use crate::illuminant::{spec_white_point, Illuminant};
use crate::pow::{iroot, spec_iroot};
use crate::xyz::Xyz;

verus! {

/// A color as chromaticity coordinates and luminance.
#[derive(Clone, Copy, Debug, PartialEq, Eq, Structural)]
pub struct XyY {
    pub x: u64,
    pub y: u64,
    pub yy: u64,
}

/// The chromaticity sum `X + Y + Z` that xyY normalizes by.
pub open spec fn spec_xyz_sum(v: Xyz) -> int {
    v.x + v.y + v.z
}

/// The xyY resolution of an XYZ color: chromaticities are the shares of the
/// component sum; black keeps zero chromaticity.
#[verifier::opaque]
pub open spec fn spec_xyy_from_xyz(v: Xyz) -> XyY {
    let s = spec_xyz_sum(v);
    if s == 0 {
        XyY { x: 0u64, y: 0u64, yy: v.y as u64 }
    } else {
        XyY {
            x: (v.x * SCALE / s) as u64,
            y: (v.y * SCALE / s) as u64,
            yy: v.y as u64,
        }
    }
}

/// The XYZ resolution of an xyY color: `X = x Y / y`, `Z = (1 - x - y) Y / y`,
/// clipped into the XYZ range; a zero chromaticity `y` gives black.
#[verifier::opaque]
pub open spec fn spec_xyz_from_xyy(c: XyY) -> Xyz {
    if c.y == 0 {
        Xyz { x: 0i64, y: 0i64, z: 0i64 }
    } else {
        Xyz {
            x: spec_clip_xyz(c.x * c.yy / (c.y as int)) as i64,
            y: c.yy as i64,
            z: spec_clip_xyz((SCALE - c.x - c.y) * c.yy / (c.y as int)) as i64,
        }
    }
}

/// Clips a value into the XYZ component range `[0, 2.0]`.
pub open spec fn spec_clip_xyz(v: int) -> int {
    if v < 0 {
        0
    } else if v > 2 * SCALE {
        2 * SCALE as int
    } else {
        v
    }
}

impl XyY {
    /// Chromaticities are normalized shares and the luminance is a valid
    /// XYZ component.
    pub open spec fn wf(&self) -> bool {
        self.x + self.y <= SCALE && self.yy <= 2 * SCALE
    }

    /// Builds from components already in range.
    pub fn new_unchecked(x: u64, y: u64, yy: u64) -> (r: Self)
        requires
            x + y <= SCALE,
            yy <= 2 * SCALE,
        ensures
            r.wf(),
            r.x == x && r.y == y && r.yy == yy,
    {
        XyY { x, y, yy }
    }

    /// Converts an XYZ color to chromaticity and luminance.
    pub fn from_xyz(v: Xyz) -> (r: Self)
        requires
            v.wf(),
        ensures
            r == spec_xyy_from_xyz(v),
            r.wf(),
    {
        proof {
            reveal(spec_xyy_from_xyz);
        }
        let s = v.x() + v.y() + v.z();
        if s == 0 {
            XyY { x: 0, y: 0, yy: v.y() as u64 }
        } else {
            let sx = share(v.x(), s);
            let sy = share(v.y(), s);
            proof {
                lemma_share_sum(v.x as int, v.y as int, s as int);
            }
            XyY { x: sx, y: sy, yy: v.y() as u64 }
        }
    }

    /// Converts back to XYZ, clipping into range.
    pub fn to_xyz(&self) -> (r: Xyz)
        requires
            self.wf(),
        ensures
            r == spec_xyz_from_xyy(*self),
            r.wf(),
    {
        proof {
            reveal(spec_xyz_from_xyy);
        }
        if self.y == 0 {
            Xyz { x: 0, y: 0, z: 0 }
        } else {
            proof {
                assert(self.x * self.yy <= SCALE * (2 * SCALE as int)) by (nonlinear_arith)
                    requires
                        self.x <= SCALE && self.yy <= 2 * SCALE,
                ;
                assert((SCALE - self.x - self.y) * self.yy <= SCALE * (2 * SCALE as int) && (SCALE
                    - self.x - self.y) * self.yy >= 0) by (nonlinear_arith)
                    requires
                        self.x + self.y <= SCALE && self.yy <= 2 * SCALE,
                ;
            }
            let x = clip_xyz(self.x * self.yy / self.y);
            let z = clip_xyz((SCALE - self.x - self.y) * self.yy / self.y);
            Xyz { x, y: self.yy as i64, z }
        }
    }
}

/// One component's share of the sum, at fixed-point scale.
fn share(c: i64, s: i64) -> (r: u64)
    requires
        0 <= c <= s,
        0 < s <= 6 * SCALE,
    ensures
        r == c * SCALE / (s as int),
        r <= SCALE,
{
    let r = (c as u64) * SCALE / (s as u64);
    assert(r <= SCALE) by {
        assert(c * SCALE <= s * SCALE) by (nonlinear_arith)
            requires
                c <= s,
        ;
        assert(s * (SCALE as int) / (s as int) == SCALE) by (nonlinear_arith)
            requires
                s > 0,
        ;
        vstd::arithmetic::div_mod::lemma_div_is_ordered(c * SCALE, s * (SCALE as int), s as int);
    };
    r
}

/// Two shares of the same sum never pass the whole.
proof fn lemma_share_sum(a: int, b: int, s: int)
    requires
        0 <= a,
        0 <= b,
        a + b <= s,
        0 < s,
    ensures
        a * SCALE / s + b * SCALE / s <= SCALE,
{
    let q1 = a * SCALE / s;
    let q2 = b * SCALE / s;
    vstd::arithmetic::div_mod::lemma_fundamental_div_mod(a * SCALE, s);
    vstd::arithmetic::div_mod::lemma_fundamental_div_mod(b * SCALE, s);
    vstd::arithmetic::div_mod::lemma_mod_division_less_than_divisor(a * SCALE, s);
    vstd::arithmetic::div_mod::lemma_mod_division_less_than_divisor(b * SCALE, s);
    assert((a + b) * SCALE == a * SCALE + b * SCALE) by (nonlinear_arith);
    assert(s * q1 + s * q2 == s * (q1 + q2)) by (nonlinear_arith);
    assert((a + b) * SCALE >= s * (q1 + q2));
    vstd::arithmetic::div_mod::lemma_div_is_ordered(s * (q1 + q2), (a + b) * SCALE, s);
    vstd::arithmetic::div_mod::lemma_div_multiples_vanish(q1 + q2, s);
    assert((a + b) * SCALE <= s * SCALE) by (nonlinear_arith)
        requires
            a + b <= s && SCALE > 0,
    ;
    vstd::arithmetic::div_mod::lemma_div_is_ordered((a + b) * SCALE, s * SCALE, s);
    assert(s * (SCALE as int) / s == SCALE) by (nonlinear_arith)
        requires
            s > 0,
    ;
}

/// Clips a value into the XYZ component range.
fn clip_xyz(v: u64) -> (r: i64)
    ensures
        r as int == spec_clip_xyz(v as int),
        0 <= r <= 2 * SCALE,
{
    if v > 2 * SCALE {
        2 * SCALE as i64
    } else {
        v as i64
    }
}

/// A color as CIE Lab: lightness (1.0 stands for L = 100) and the two
/// opponent axes (1.0 stands for 100).
#[derive(Clone, Copy, Debug, PartialEq, Eq, Structural)]
pub struct Lab {
    pub l: i64,
    pub a: i64,
    pub b: i64,
}

/// The Lab forward function `f`: the cube root above the `(6/29)^3`
/// threshold, else the linear segment `(kappa t + 16) / 116` with
/// `kappa = 24389/27`; thresholds compare exactly as rationals.
pub open spec fn spec_lab_f(t: u64) -> int {
    if t * 24389 > 216 * SCALE {
        spec_iroot(t * 9363600000000, 3)
    } else {
        (t * 24389 / 27 + 16 * SCALE) / 116
    }
}

/// The inverse of the Lab `f`: the cube above `6/29`, else the inverse
/// linear segment, floored at zero.
pub open spec fn spec_lab_f_inv(f: u64) -> int {
    if f * 29 > 6 * SCALE {
        f * f / (SCALE as int) * f / (SCALE as int)
    } else {
        let t = (f * 116 - 16 * SCALE) * 27 / 24389;
        if t < 0 {
            0
        } else {
            t
        }
    }
}

/// A ratio against a white component, clipped to `[0, 4.0]`.
pub open spec fn spec_white_ratio(c: i64, w: i64) -> int {
    let t = c * SCALE / (w as int);
    if t > 4 * SCALE {
        4 * SCALE as int
    } else {
        t
    }
}

/// The Lab resolution of an XYZ color under an illuminant.
#[verifier::opaque]
pub open spec fn spec_lab_from_xyz(v: Xyz, ill: Illuminant) -> Lab {
    let wp = spec_white_point(ill);
    let fx = spec_lab_f(spec_white_ratio(v.x, wp.x) as u64);
    let fy = spec_lab_f(spec_white_ratio(v.y, wp.y) as u64);
    let fz = spec_lab_f(spec_white_ratio(v.z, wp.z) as u64);
    Lab {
        l: (if 116 * fy <= 16 * SCALE {
            0
        } else {
            (116 * fy - 16 * SCALE) / 100
        }) as i64,
        a: (5 * (fx - fy)) as i64,
        b: (2 * (fy - fz)) as i64,
    }
}

/// The XYZ resolution of a Lab color under an illuminant, clipped into the
/// XYZ range.
#[verifier::opaque]
pub open spec fn spec_xyz_from_lab(c: Lab, ill: Illuminant) -> Xyz {
    let wp = spec_white_point(ill);
    let fy = spec_clip_f((c.l * 100 + 16 * SCALE) / 116);
    let fx = spec_clip_f(fy + spec_tdiv(c.a as int, 5));
    let fz = spec_clip_f(fy - spec_tdiv(c.b as int, 2));
    Xyz {
        x: spec_clip_xyz(spec_lab_f_inv(fx as u64) * wp.x / (SCALE as int)) as i64,
        y: spec_clip_xyz(spec_lab_f_inv(fy as u64) * wp.y / (SCALE as int)) as i64,
        z: spec_clip_xyz(spec_lab_f_inv(fz as u64) * wp.z / (SCALE as int)) as i64,
    }
}

/// Clips an `f` value into `[0, 2.0]`, the domain the inverse works on.
pub open spec fn spec_clip_f(v: int) -> int {
    if v < 0 {
        0
    } else if v > 2 * SCALE {
        2 * SCALE as int
    } else {
        v
    }
}

impl Lab {
    /// Lightness and the opponent axes lie in their carried ranges.
    pub open spec fn wf(&self) -> bool {
        0 <= self.l <= 3 * SCALE && -10 * SCALE <= self.a <= 10 * SCALE && -10 * SCALE <= self.b
            <= 10 * SCALE
    }

    /// Builds from components already in range.
    pub fn new_unchecked(l: i64, a: i64, b: i64) -> (r: Self)
        requires
            0 <= l <= 3 * SCALE,
            -10 * SCALE <= a <= 10 * SCALE,
            -10 * SCALE <= b <= 10 * SCALE,
        ensures
            r.wf(),
            r.l == l && r.a == a && r.b == b,
    {
        Lab { l, a, b }
    }

    /// Converts an XYZ color under the given reference white.
    pub fn from_xyz(v: Xyz, ill: Illuminant) -> (r: Self)
        requires
            v.wf(),
        ensures
            r == spec_lab_from_xyz(v, ill),
            r.wf(),
    {
        proof {
            reveal(spec_lab_from_xyz);
        }
        let wp = ill.white_point();
        let fx = lab_f(white_ratio(v.x(), wp.x()));
        let fy = lab_f(white_ratio(v.y(), wp.y()));
        let fz = lab_f(white_ratio(v.z(), wp.z()));
        let lnum = 116 * (fy as u64);
        let l: u64 = if lnum <= 16 * SCALE {
            0
        } else {
            let q = (lnum - 16 * SCALE) / 100;
            proof {
                vstd::arithmetic::div_mod::lemma_div_is_ordered(
                    (lnum - 16 * SCALE) as int,
                    300 * SCALE,
                    100,
                );
            }
            q
        };
        Lab { l: l as i64, a: 5 * (fx - fy), b: 2 * (fy - fz) }
    }

    /// Converts back to XYZ under the given reference white.
    pub fn to_xyz(&self, ill: Illuminant) -> (r: Xyz)
        requires
            self.wf(),
        ensures
            r == spec_xyz_from_lab(*self, ill),
            r.wf(),
    {
        proof {
            reveal(spec_xyz_from_lab);
        }
        let wp = ill.white_point();
        let fy = clip_f((((self.l as u64) * 100 + 16 * SCALE) / 116) as i64);
        let fx = clip_f(fy as i64 + tdiv5(self.a));
        let fz = clip_f(fy as i64 - tdiv2(self.b));
        Xyz {
            x: scale_white(lab_f_inv(fx), wp.x() as u64),
            y: scale_white(lab_f_inv(fy), wp.y() as u64),
            z: scale_white(lab_f_inv(fz), wp.z() as u64),
        }
    }
}

/// The ratio of an XYZ component against its white component.
fn white_ratio(c: i64, w: i64) -> (r: u64)
    requires
        0 <= c <= 2 * SCALE,
        SCALE / 4 <= w <= 2 * SCALE,
    ensures
        r == spec_white_ratio(c, w),
        r <= 4 * SCALE,
{
    let t = (c as u64) * SCALE / (w as u64);
    if t > 4 * SCALE {
        4 * SCALE
    } else {
        t
    }
}

/// The Lab forward function `f`.
fn lab_f(t: u64) -> (r: i64)
    requires
        t <= 4 * SCALE,
    ensures
        r as int == spec_lab_f(t),
        0 <= r <= 2 * SCALE,
{
    if t * 24389 > 216 * SCALE {
        proof {
            crate::pow::lemma_pow3_wide();
            assert(t * 9363600000000 <= 229220928000000000000int) by (nonlinear_arith)
                requires
                    t <= 4 * SCALE,
            ;
        }
        let r = iroot((t as u128) * 9363600000000u128, 3, 2 * SCALE);
        r as i64
    } else {
        let r = (t * 24389 / 27 + 16 * SCALE) / 116;
        proof {
            vstd::arithmetic::div_mod::lemma_div_pos_is_pos((t * 24389) as int, 27);
            vstd::arithmetic::div_mod::lemma_div_is_ordered(
                (t * 24389) as int,
                (216 * SCALE) as int,
                27,
            );
            vstd::arithmetic::div_mod::lemma_div_is_ordered(
                (t * 24389 / 27 + 16 * SCALE) as int,
                (216 * SCALE as int / 27 + 16 * SCALE) as int,
                116,
            );
            vstd::arithmetic::div_mod::lemma_div_pos_is_pos(
                (t * 24389 / 27 + 16 * SCALE) as int,
                116,
            );
        }
        r as i64
    }
}

/// The inverse of the Lab `f`.
fn lab_f_inv(f: u64) -> (r: u64)
    requires
        f <= 2 * SCALE,
    ensures
        r as int == spec_lab_f_inv(f),
        r <= 8 * SCALE,
{
    if f * 29 > 6 * SCALE {
        proof {
            assert(f * f <= 2 * SCALE * (2 * SCALE as int)) by (nonlinear_arith)
                requires
                    f <= 2 * SCALE,
            ;
            assert((2 * SCALE * (2 * SCALE as int)) / (SCALE as int) == 4 * SCALE)
                by (nonlinear_arith);
            vstd::arithmetic::div_mod::lemma_div_is_ordered(
                (f * f) as int,
                2 * SCALE * (2 * SCALE as int),
                SCALE as int,
            );
        }
        let f2 = f * f / SCALE;
        proof {
            assert(f2 * f <= 4 * SCALE * (2 * SCALE as int)) by (nonlinear_arith)
                requires
                    f2 <= 4 * SCALE && f <= 2 * SCALE,
            ;
            assert((4 * SCALE * (2 * SCALE as int)) / (SCALE as int) == 8 * SCALE)
                by (nonlinear_arith);
            vstd::arithmetic::div_mod::lemma_div_is_ordered(
                (f2 * f) as int,
                4 * SCALE * (2 * SCALE as int),
                SCALE as int,
            );
        }
        let f3 = f2 * f / SCALE;
        f3
    } else {
        if f * 116 <= 16 * SCALE {
            0
        } else {
            let t = (f * 116 - 16 * SCALE) * 27 / 24389;
            proof {
                vstd::arithmetic::div_mod::lemma_div_is_ordered(
                    ((f * 116 - 16 * SCALE) * 27) as int,
                    ((2 * SCALE * 116 - 16 * SCALE) * 27) as int,
                    24389,
                );
                vstd::arithmetic::div_mod::lemma_div_pos_is_pos(
                    ((f * 116 - 16 * SCALE) * 27) as int,
                    24389,
                );
            }
            t
        }
    }
}

/// Clips an `f` value into its domain.
fn clip_f(v: i64) -> (r: u64)
    ensures
        r as int == spec_clip_f(v as int),
        r <= 2 * SCALE,
{
    if v < 0 {
        0
    } else if v > 2 * SCALE as i64 {
        2 * SCALE
    } else {
        v as u64
    }
}

/// Truncating division by five.
fn tdiv5(a: i64) -> (r: i64)
    requires
        -10 * SCALE <= a <= 10 * SCALE,
    ensures
        r as int == spec_tdiv(a as int, 5),
{
    if a >= 0 {
        (a as u64 / 5) as i64
    } else {
        -((((-a) as u64) / 5) as i64)
    }
}

/// Truncating division by two.
fn tdiv2(b: i64) -> (r: i64)
    requires
        -10 * SCALE <= b <= 10 * SCALE,
    ensures
        r as int == spec_tdiv(b as int, 2),
{
    if b >= 0 {
        (b as u64 / 2) as i64
    } else {
        -((((-b) as u64) / 2) as i64)
    }
}

/// A color as CIE Luv: lightness (1.0 stands for L = 100) and the two
/// chromaticity axes (1.0 stands for 100).
#[derive(Clone, Copy, Debug, PartialEq, Eq, Structural)]
pub struct Luv {
    pub l: i64,
    pub u: i64,
    pub v: i64,
}

/// The denominator of the prime chromaticities: `X + 15Y + 3Z`.
pub open spec fn spec_luv_den(v: Xyz) -> int {
    v.x + 15 * v.y + 3 * v.z
}

/// The `u'` chromaticity of an XYZ color: `4X` over the denominator, zero
/// for black.
pub open spec fn spec_u_prime(v: Xyz) -> int {
    if spec_luv_den(v) == 0 {
        0
    } else {
        4 * v.x * SCALE / spec_luv_den(v)
    }
}

/// The `v'` chromaticity of an XYZ color: `9Y` over the denominator, zero
/// for black.
pub open spec fn spec_v_prime(v: Xyz) -> int {
    if spec_luv_den(v) == 0 {
        0
    } else {
        9 * v.y * SCALE / spec_luv_den(v)
    }
}

/// The Luv lightness: the same curve as the Lab lightness.
pub open spec fn spec_luv_l(v: Xyz, ill: Illuminant) -> int {
    let wp = spec_white_point(ill);
    let fy = spec_lab_f(spec_white_ratio(v.y, wp.y) as u64);
    if 116 * fy <= 16 * SCALE {
        0
    } else {
        (116 * fy - 16 * SCALE) / 100
    }
}

/// The Luv resolution of an XYZ color under an illuminant:
/// `u = 13 L (u' - u'_n)` and likewise for `v`.
#[verifier::opaque]
pub open spec fn spec_luv_from_xyz(v: Xyz, ill: Illuminant) -> Luv {
    let wp = spec_white_point(ill);
    let l = spec_luv_l(v, ill);
    Luv {
        l: l as i64,
        u: spec_clip_term(spec_tdiv(13 * l * (spec_u_prime(v) - spec_u_prime(wp)), SCALE as int)) as i64,
        v: spec_clip_term(spec_tdiv(13 * l * (spec_v_prime(v) - spec_v_prime(wp)), SCALE as int)) as i64,
    }
}

/// Clips a chromatic term into its carried range.
pub open spec fn spec_clip_term(v: int) -> int {
    if v > 128 * SCALE {
        128 * SCALE as int
    } else if v < -128 * SCALE {
        -128 * (SCALE as int)
    } else {
        v
    }
}

/// The XYZ resolution of a Luv color under an illuminant: the chromaticities
/// are recovered around the white's, then `X` and `Z` follow from `Y`;
/// everything is clipped into the XYZ range and a zero lightness is black.
#[verifier::opaque]
pub open spec fn spec_xyz_from_luv(c: Luv, ill: Illuminant) -> Xyz {
    let wp = spec_white_point(ill);
    if c.l == 0 {
        Xyz { x: 0i64, y: 0i64, z: 0i64 }
    } else {
        let fy = spec_clip_f((c.l * 100 + 16 * SCALE) / 116);
        let y = spec_clip_xyz(spec_lab_f_inv(fy as u64) * wp.y / (SCALE as int));
        let up = spec_clip_chroma(spec_u_prime(wp) + spec_tdiv(c.u * SCALE, 13 * c.l));
        let vp = spec_clip_chroma(spec_v_prime(wp) + spec_tdiv(c.v * SCALE, 13 * c.l));
        if vp == 0 {
            Xyz { x: 0i64, y: y as i64, z: 0i64 }
        } else {
            Xyz {
                x: spec_clip_xyz(9 * up * y / (4 * vp)) as i64,
                y: y as i64,
                z: spec_clip_xyz((12 * SCALE - 3 * up - 20 * vp) * y / (4 * vp)) as i64,
            }
        }
    }
}

/// Clips a chromaticity into `[0, 4.0]`.
pub open spec fn spec_clip_chroma(v: int) -> int {
    if v < 0 {
        0
    } else if v > 4 * SCALE {
        4 * SCALE as int
    } else {
        v
    }
}

impl Luv {
    /// Lightness and the chromaticity axes lie in their carried ranges.
    pub open spec fn wf(&self) -> bool {
        0 <= self.l <= 3 * SCALE && -128 * SCALE <= self.u <= 128 * SCALE && -128 * SCALE <= self.v
            <= 128 * SCALE
    }

    /// Builds from components already in range.
    pub fn new_unchecked(l: i64, u: i64, v: i64) -> (r: Self)
        requires
            0 <= l <= 3 * SCALE,
            -128 * SCALE <= u <= 128 * SCALE,
            -128 * SCALE <= v <= 128 * SCALE,
        ensures
            r.wf(),
            r.l == l && r.u == u && r.v == v,
    {
        Luv { l, u, v }
    }

    /// Converts an XYZ color under the given reference white.
    pub fn from_xyz(v: Xyz, ill: Illuminant) -> (r: Self)
        requires
            v.wf(),
        ensures
            r == spec_luv_from_xyz(v, ill),
            r.wf(),
    {
        proof {
            reveal(spec_luv_from_xyz);
        }
        let wp = ill.white_point();
        let fy = lab_f(white_ratio(v.y(), wp.y()));
        let lnum = 116 * (fy as u64);
        let l: u64 = if lnum <= 16 * SCALE {
            0
        } else {
            let q = (lnum - 16 * SCALE) / 100;
            proof {
                vstd::arithmetic::div_mod::lemma_div_is_ordered(
                    (lnum - 16 * SCALE) as int,
                    300 * SCALE,
                    100,
                );
            }
            q
        };
        let u = chroma_term(l, u_prime(v), u_prime(wp));
        let vv = chroma_term(l, v_prime(v), v_prime(wp));
        Luv { l: l as i64, u, v: vv }
    }

    /// Converts back to XYZ under the given reference white.
    pub fn to_xyz(&self, ill: Illuminant) -> (r: Xyz)
        requires
            self.wf(),
        ensures
            r == spec_xyz_from_luv(*self, ill),
            r.wf(),
    {
        proof {
            reveal(spec_xyz_from_luv);
        }
        let wp = ill.white_point();
        if self.l == 0 {
            Xyz { x: 0, y: 0, z: 0 }
        } else {
            let fy = clip_f((((self.l as u64) * 100 + 16 * SCALE) / 116) as i64);
            let y = scale_white(lab_f_inv(fy), wp.y() as u64);
            let up = clip_chroma(u_prime(wp), self.u, self.l);
            let vp = clip_chroma(v_prime(wp), self.v, self.l);
            if vp == 0 {
                Xyz { x: 0, y, z: 0 }
            } else {
                let x = luv_x(up, y as u64, vp);
                let z = luv_z(up, vp, y as u64);
                Xyz { x, y, z }
            }
        }
    }
}

/// The `u'` chromaticity of an XYZ color.
fn u_prime(v: Xyz) -> (r: u64)
    requires
        v.wf(),
    ensures
        r == spec_u_prime(v),
        r <= 4 * SCALE,
{
    prime_share(4 * (v.x() as u64), v)
}

/// The `v'` chromaticity of an XYZ color.
fn v_prime(v: Xyz) -> (r: u64)
    requires
        v.wf(),
    ensures
        r == spec_v_prime(v),
        r <= 4 * SCALE,
{
    prime_share(9 * (v.y() as u64), v)
}

/// A prime chromaticity: the numerator over `X + 15Y + 3Z`, which bounds it.
fn prime_share(num: u64, v: Xyz) -> (r: u64)
    requires
        v.wf(),
        num <= 4 * (v.x + 15 * v.y + 3 * v.z),
        num <= 72 * SCALE,
    ensures
        r == (if spec_luv_den(v) == 0 {
            0int
        } else {
            num * SCALE / spec_luv_den(v)
        }),
        r <= 4 * SCALE,
{
    let den = (v.x() as u64) + 15 * (v.y() as u64) + 3 * (v.z() as u64);
    if den == 0 {
        0
    } else {
        let r = num * SCALE / den;
        assert(r <= 4 * SCALE) by {
            assert(num * SCALE <= (4 * den) * SCALE) by (nonlinear_arith)
                requires
                    num <= 4 * den,
            ;
            assert((4 * den) * (SCALE as int) == den * (4 * SCALE as int)) by (nonlinear_arith);
            assert(den * (4 * SCALE as int) / (den as int) == 4 * SCALE) by (nonlinear_arith)
                requires
                    den > 0,
            ;
            vstd::arithmetic::div_mod::lemma_div_is_ordered(
                (num * SCALE) as int,
                den * (4 * SCALE as int),
                den as int,
            );
        };
        r
    }
}

/// One chromatic term `13 L (p - p_n)`, at fixed-point scale, saturating at
/// its carried range.
fn chroma_term(l: u64, p: u64, pn: u64) -> (r: i64)
    requires
        l <= 3 * SCALE,
        p <= 4 * SCALE,
        pn <= 4 * SCALE,
    ensures
        r as int == spec_clip_term(spec_tdiv(13 * l * (p - pn), SCALE as int)),
        -128 * SCALE <= r <= 128 * SCALE,
{
    if p >= pn {
        proof {
            assert(0 <= 13 * l * ((p - pn) as int) <= 1460721600000000) by (nonlinear_arith)
                requires
                    l <= 9180000 && 0 <= ((p - pn) as int) <= 12240000,
            ;
        }
        let t = 13 * l * (p - pn) / SCALE;
        proof {
            vstd::arithmetic::div_mod::lemma_div_is_ordered(
                (13 * l * (p - pn)) as int,
                1460721600000000,
                SCALE as int,
            );
            assert(1460721600000000int / (SCALE as int) == 477360000);
            vstd::arithmetic::div_mod::lemma_div_pos_is_pos(
                (13 * l * (p - pn)) as int,
                SCALE as int,
            );
        }
        if t > 128 * SCALE {
            128 * SCALE as i64
        } else {
            t as i64
        }
    } else {
        proof {
            assert(0 <= 13 * l * ((pn - p) as int) <= 1460721600000000) by (nonlinear_arith)
                requires
                    l <= 9180000 && 0 <= ((pn - p) as int) <= 12240000,
            ;
            lemma_chroma_sign(13 * (l as int), (p as int) - (pn as int));
        }
        let t = 13 * l * (pn - p) / SCALE;
        proof {
            vstd::arithmetic::div_mod::lemma_div_is_ordered(
                (13 * l * (pn - p)) as int,
                1460721600000000,
                SCALE as int,
            );
            assert(1460721600000000int / (SCALE as int) == 477360000);
            vstd::arithmetic::div_mod::lemma_div_pos_is_pos(
                (13 * l * (pn - p)) as int,
                SCALE as int,
            );
        }
        if t > 128 * SCALE {
            -(128 * SCALE as i64)
        } else {
            -(t as i64)
        }
    }
}

/// The chromatic product of a negative difference is the negated product of
/// its magnitude.
proof fn lemma_chroma_sign(m: int, d: int)
    requires
        m >= 0,
        d < 0,
    ensures
        m * d == -(m * (-d)),
        m * (-d) >= 0,
{
    assert(m * d == -(m * (-d)) && m * (-d) >= 0) by (nonlinear_arith)
        requires
            m >= 0 && d < 0,
    ;
}

/// A chromaticity recovered around the white's own: `p_n + u / (13 L)`,
/// clipped into range.
fn clip_chroma(pn: u64, term: i64, l: i64) -> (r: u64)
    requires
        pn <= 4 * SCALE,
        -128 * SCALE <= term <= 128 * SCALE,
        0 < l <= 3 * SCALE,
    ensures
        r as int == spec_clip_chroma(pn + spec_tdiv(term * SCALE, 13 * l)),
        r <= 4 * SCALE,
{
    proof {
        assert(-1198540800000000 <= term * SCALE <= 1198540800000000) by (nonlinear_arith)
            requires
                -391680000 <= term <= 391680000 && SCALE == 3060000,
        ;
        lemma_tdiv13_bound(term * SCALE, 13 * (l as int));
    }
    let q = tdiv_pos(term * (SCALE as i64), 13 * l);
    let shifted = (pn as i64) + q;
    if shifted < 0 {
        0
    } else if shifted > 4 * SCALE as i64 {
        4 * SCALE
    } else {
        shifted as u64
    }
}

/// A truncated quotient is never larger in magnitude than its dividend.
proof fn lemma_tdiv13_bound(n: int, d: int)
    requires
        d >= 13,
        -1198540800000000 <= n <= 1198540800000000,
    ensures
        -1198540800000000 <= spec_tdiv(n, d) <= 1198540800000000,
{
    if n >= 0 {
        vstd::arithmetic::div_mod::lemma_div_nonincreasing(n, d);
        vstd::arithmetic::div_mod::lemma_div_pos_is_pos(n, d);
    } else {
        vstd::arithmetic::div_mod::lemma_div_nonincreasing(-n, d);
        vstd::arithmetic::div_mod::lemma_div_pos_is_pos(-n, d);
    }
}

/// Truncating division of an i64 by a positive i64.
fn tdiv_pos(n: i64, d: i64) -> (r: i64)
    requires
        d > 0,
        n > i64::MIN,
    ensures
        r as int == spec_tdiv(n as int, d as int),
        -(n as int) <= r <= n as int || n < 0 && (n as int) <= r <= -(n as int),
{
    proof {
        if n >= 0 {
            vstd::arithmetic::div_mod::lemma_div_nonincreasing(n as int, d as int);
            vstd::arithmetic::div_mod::lemma_div_pos_is_pos(n as int, d as int);
        } else {
            vstd::arithmetic::div_mod::lemma_div_nonincreasing(-(n as int), d as int);
            vstd::arithmetic::div_mod::lemma_div_pos_is_pos(-(n as int), d as int);
        }
    }
    if n >= 0 {
        ((n as u64) / (d as u64)) as i64
    } else {
        -((((-n) as u64) / (d as u64)) as i64)
    }
}

/// The X of a Luv inverse: `9 u' Y / (4 v')`, clipped.
fn luv_x(up: u64, y: u64, vp: u64) -> (r: i64)
    requires
        up <= 4 * SCALE,
        y <= 2 * SCALE,
        0 < vp <= 4 * SCALE,
    ensures
        r as int == spec_clip_xyz(9 * up * y / (4 * vp as int)),
        0 <= r <= 2 * SCALE,
{
    proof {
        assert(0 <= 9 * up * y <= 674179200000000) by (nonlinear_arith)
            requires
                up <= 12240000 && y <= 6120000,
        ;
        vstd::arithmetic::div_mod::lemma_div_pos_is_pos((9 * up * y) as int, 4 * vp as int);
    }
    let q = 9 * up * y / (4 * vp);
    if q > 2 * SCALE {
        2 * SCALE as i64
    } else {
        q as i64
    }
}

/// The Z of a Luv inverse: `(12 - 3u' - 20v') Y / (12 v')`, clipped.
fn luv_z(up: u64, vp: u64, y: u64) -> (r: i64)
    requires
        up <= 4 * SCALE,
        0 < vp <= 4 * SCALE,
        y <= 2 * SCALE,
    ensures
        r as int == spec_clip_xyz((12 * SCALE - 3 * up - 20 * vp) * y / (4 * vp as int)),
        0 <= r <= 2 * SCALE,
{
    let num: i64 = 12 * SCALE as i64 - 3 * (up as i64) - 20 * (vp as i64);
    if num <= 0 {
        proof {
            lemma_neg_num_clips(num as int, y as int, 4 * (vp as int));
        }
        0
    } else {
        proof {
            assert(0 <= num * y <= 224726400000000) by (nonlinear_arith)
                requires
                    0 < num <= 36720000 && y <= 6120000,
            ;
            vstd::arithmetic::div_mod::lemma_div_pos_is_pos((num as int) * (y as int), 4 * (
            vp as int));
        }
        let q = (num as u64) * y / (4 * vp);
        if q > 2 * SCALE {
            2 * SCALE as i64
        } else {
            q as i64
        }
    }
}

/// A non-positive numerator clips to zero: its scaled product stays
/// non-positive under division by a positive value.
proof fn lemma_neg_num_clips(num: int, y: int, d: int)
    requires
        num <= 0,
        y >= 0,
        d > 0,
    ensures
        spec_clip_xyz(num * y / d) == 0,
{
    assert(num * y <= 0) by (nonlinear_arith)
        requires
            num <= 0 && y >= 0,
    ;
    if num * y == 0 {
        vstd::arithmetic::div_mod::lemma_div_of0(d);
    } else {
        vstd::arithmetic::div_mod::lemma_div_is_ordered(num * y, 0, d);
        vstd::arithmetic::div_mod::lemma_div_of0(d);
    }
}

/// A linear-light value scaled by a white component, clipped into range.
fn scale_white(t: u64, w: u64) -> (r: i64)
    requires
        t <= 8 * SCALE,
        0 < w <= 2 * SCALE,
    ensures
        r as int == spec_clip_xyz(t * w / (SCALE as int)),
        0 <= r <= 2 * SCALE,
{
    proof {
        assert(t * w <= 149817600000000) by (nonlinear_arith)
            requires
                t <= 24480000 && w <= 6120000,
        ;
        vstd::arithmetic::div_mod::lemma_div_is_ordered(t * w, 149817600000000, SCALE as int);
        assert(149817600000000int / (SCALE as int) == 48960000);
        vstd::arithmetic::div_mod::lemma_div_pos_is_pos((t as int) * (w as int), SCALE as int);
    }
    let v = t * w / SCALE;
    if v > 2 * SCALE {
        2 * SCALE as i64
    } else {
        v as i64
    }
}

} // verus!
