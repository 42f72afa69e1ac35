//! The registry of named RGB working spaces: reference illuminants,
//! companding curves, and the RGB-to-XYZ matrices derived from each space's
//! primaries and white point by the standard construction. Each inverse is
//! held exactly, as the adjugate over the determinant.

use vstd::prelude::*;

use crate::adapt::{dot, lemma_tdiv_bound, spec_dot, spec_tdiv, tdiv, Mat3, Row3};
use crate::fixed::{in_unit, SCALE};
use crate::illuminant::Illuminant;
use crate::pow::{
    gamma_decode, gamma_encode, iroot, lemma_pow3_scale, lemma_pow_int_monotone, spec_gamma_decode,
    spec_gamma_encode, spec_iroot, spec_pow_int, spec_spow, spow, POW_PRECISION,
};
use crate::rgb::Rgb;
use crate::xyz::Xyz;

verus! {

/// A named RGB working space: a fixed set of primaries, a reference white
/// and a companding rule.
#[derive(Clone, Copy, Debug, PartialEq, Eq, Structural)]
pub enum RgbWorkingSpace {
    Adobe,
    Apple,
    CIE,
    ECI,
    NTSC,
    PAL,
    ProPhoto,
    SRGB,
    WideGamut,
}

/// The reference illuminant that each working space is defined against.
pub open spec fn spec_reference_illuminant(ws: RgbWorkingSpace) -> Illuminant {
    match ws {
        RgbWorkingSpace::Adobe => Illuminant::D65,
        RgbWorkingSpace::Apple => Illuminant::D65,
        RgbWorkingSpace::CIE => Illuminant::E,
        RgbWorkingSpace::ECI => Illuminant::D50,
        RgbWorkingSpace::NTSC => Illuminant::C,
        RgbWorkingSpace::PAL => Illuminant::D65,
        RgbWorkingSpace::ProPhoto => Illuminant::D50,
        RgbWorkingSpace::SRGB => Illuminant::D65,
        RgbWorkingSpace::WideGamut => Illuminant::D50,
    }
}

impl RgbWorkingSpace {
    /// The reference illuminant of the working space.
    pub fn reference_illuminant(&self) -> (r: Illuminant)
        ensures
            r == spec_reference_illuminant(*self),
    {
        match *self {
            RgbWorkingSpace::Adobe => Illuminant::D65,
            RgbWorkingSpace::Apple => Illuminant::D65,
            RgbWorkingSpace::CIE => Illuminant::E,
            RgbWorkingSpace::ECI => Illuminant::D50,
            RgbWorkingSpace::NTSC => Illuminant::C,
            RgbWorkingSpace::PAL => Illuminant::D65,
            RgbWorkingSpace::ProPhoto => Illuminant::D50,
            RgbWorkingSpace::SRGB => Illuminant::D65,
            RgbWorkingSpace::WideGamut => Illuminant::D50,
        }
    }
}

impl Default for RgbWorkingSpace {
    /// The sRGB working space.
    fn default() -> (r: Self)
        ensures
            r == RgbWorkingSpace::SRGB,
    {
        RgbWorkingSpace::SRGB
    }
}

/// The companding rule of a working space: a plain power curve with the
/// given decoding exponent, the sRGB piecewise curve, or the L* curve.
#[derive(Clone, Copy, Debug, PartialEq, Eq, Structural)]
pub enum Companding {
    Srgb,
    LStar,
    Power { num: u64 },
}

/// A companding rule whose power exponent (in fifths: 11 stands for gamma
/// 2.2, 9 for gamma 1.8) is in the supported range.
pub open spec fn companding_wf(c: Companding) -> bool {
    match c {
        Companding::Power { num } => 1 <= num <= 16,
        _ => true,
    }
}

/// The companding rule of each working space.
pub open spec fn spec_companding(ws: RgbWorkingSpace) -> Companding {
    match ws {
        RgbWorkingSpace::Adobe => Companding::Power { num: 11u64 },
        RgbWorkingSpace::Apple => Companding::Power { num: 9u64 },
        RgbWorkingSpace::CIE => Companding::Power { num: 11u64 },
        RgbWorkingSpace::ECI => Companding::LStar,
        RgbWorkingSpace::NTSC => Companding::Power { num: 11u64 },
        RgbWorkingSpace::PAL => Companding::Power { num: 11u64 },
        RgbWorkingSpace::ProPhoto => Companding::Power { num: 9u64 },
        RgbWorkingSpace::SRGB => Companding::Srgb,
        RgbWorkingSpace::WideGamut => Companding::Power { num: 11u64 },
    }
}

/// Gamma decoding: a companded channel value becomes a linear one. The
/// thresholds of the piecewise curves are compared exactly as rationals.
pub open spec fn spec_decode(v: u64, c: Companding) -> int {
    match c {
        Companding::Power { num } => spec_gamma_decode(v, num),
        Companding::Srgb => if v * 100000 <= 4045 * SCALE {
            v * 100 / 1292
        } else {
            spec_srgb_curve(v)
        },
        Companding::LStar => if v * 100 <= 8 * SCALE {
            v * 2700 / 24389
        } else {
            spec_spow(((v + 489600) * 25 / 29) as u64, 3) / (POW_PRECISION as int)
        },
    }
}

/// The power part of the sRGB curve: `((v + 0.055) / 1.055)^2.4`.
pub open spec fn spec_srgb_curve(v: u64) -> int {
    spec_gamma_decode(((v + 168300) * 1000 / 1055) as u64, 12)
}

/// The inverse of the sRGB power part: the smallest channel whose curve
/// value reaches `v`; the curve tops out at the scale, so one always
/// exists.
pub open spec fn spec_srgb_curve_inverse(v: u64) -> int {
    choose|r: int|
        #![trigger spec_srgb_curve(r as u64)]
        0 <= r <= SCALE && spec_srgb_curve(r as u64) >= v && (r == 0 || spec_srgb_curve(
            (r - 1) as u64,
        ) < v)
}

/// Gamma encoding: a linear channel value becomes a companded one.
pub open spec fn spec_encode(v: u64, c: Companding) -> int {
    match c {
        Companding::Power { num } => spec_gamma_encode(v, num),
        Companding::Srgb => if v * 10000000 <= 31308 * SCALE {
            v * 1292 / 100
        } else {
            spec_srgb_curve_inverse(v)
        },
        Companding::LStar => if v * 24389 <= 216 * SCALE {
            v * 24389 / 2700
        } else {
            let t = spec_iroot(v * 9363600000000, 3) * 29 / 25;
            if t > 489600 {
                t - 489600
            } else {
                0
            }
        },
    }
}

impl RgbWorkingSpace {
    /// The companding rule of the working space.
    pub fn companding(&self) -> (r: Companding)
        ensures
            r == spec_companding(*self),
            companding_wf(r),
    {
        match *self {
            RgbWorkingSpace::Adobe => Companding::Power { num: 11u64 },
            RgbWorkingSpace::Apple => Companding::Power { num: 9u64 },
            RgbWorkingSpace::CIE => Companding::Power { num: 11u64 },
            RgbWorkingSpace::ECI => Companding::LStar,
            RgbWorkingSpace::NTSC => Companding::Power { num: 11u64 },
            RgbWorkingSpace::PAL => Companding::Power { num: 11u64 },
            RgbWorkingSpace::ProPhoto => Companding::Power { num: 9u64 },
            RgbWorkingSpace::SRGB => Companding::Srgb,
            RgbWorkingSpace::WideGamut => Companding::Power { num: 11u64 },
        }
    }
}

/// Decodes one companded channel to linear light.
pub fn decode_channel(v: u64, c: Companding) -> (r: u64)
    requires
        in_unit(v),
        companding_wf(c),
    ensures
        r == spec_decode(v, c),
        in_unit(r),
{
    match c {
        Companding::Power { num } => gamma_decode(v, num),
        Companding::Srgb => {
            if v * 100000 <= 4045 * SCALE {
                let r = v * 100 / 1292;
                proof {
                    vstd::arithmetic::div_mod::lemma_div_is_ordered(
                        (v * 100) as int,
                        (SCALE * 100) as int,
                        1292,
                    );
                }
                r
            } else {
                srgb_curve(v)
            }
        },
        Companding::LStar => {
            if v * 100 <= 8 * SCALE {
                let r = v * 2700 / 24389;
                proof {
                    vstd::arithmetic::div_mod::lemma_div_is_ordered(
                        (v * 2700) as int,
                        (SCALE * 2700) as int,
                        24389,
                    );
                }
                r
            } else {
                let x = (v + 489600) * 25 / 29;
                proof {
                    vstd::arithmetic::div_mod::lemma_div_is_ordered(
                        ((v + 489600) * 25) as int,
                        ((SCALE + 489600) * 25) as int,
                        29,
                    );
                    crate::pow::lemma_spow_bounds(x as u64, 3nat);
                    vstd::arithmetic::div_mod::lemma_div_is_ordered(
                        spec_spow(x as u64, 3nat),
                        SCALE * POW_PRECISION,
                        POW_PRECISION as int,
                    );
                    assert(SCALE * (POW_PRECISION as int) / (POW_PRECISION as int) == SCALE)
                        by (nonlinear_arith);
                    vstd::arithmetic::div_mod::lemma_div_pos_is_pos(
                        spec_spow(x as u64, 3nat),
                        POW_PRECISION as int,
                    );
                }
                spow(x, 3) / POW_PRECISION
            }
        },
    }
}

/// Encodes one linear channel back to its companded form.
pub fn encode_channel(v: u64, c: Companding) -> (r: u64)
    requires
        in_unit(v),
        companding_wf(c),
    ensures
        r == spec_encode(v, c),
        in_unit(r),
{
    match c {
        Companding::Power { num } => gamma_encode(v, num),
        Companding::Srgb => {
            if v * 10000000 <= 31308 * SCALE {
                v * 1292 / 100
            } else {
                srgb_curve_inverse(v)
            }
        },
        Companding::LStar => {
            if v * 24389 <= 216 * SCALE {
                v * 24389 / 2700
            } else {
                proof {
                    lemma_pow3_scale();
                    assert(v * 9363600000000 <= 3060000int * 9363600000000int)
                        by (nonlinear_arith)
                        requires
                            v <= 3060000,
                    ;
                }
                let root = iroot((v as u128) * 9363600000000u128, 3, SCALE);
                let t = root * 29 / 25;
                proof {
                    vstd::arithmetic::div_mod::lemma_div_is_ordered(
                        (root * 29) as int,
                        (SCALE * 29) as int,
                        25,
                    );
                }
                if t > 489600 {
                    t - 489600
                } else {
                    0
                }
            }
        },
    }
}

/// The power part of the sRGB decode curve.
fn srgb_curve(v: u64) -> (r: u64)
    requires
        in_unit(v),
    ensures
        r == spec_srgb_curve(v),
        in_unit(r),
{
    let x = (v + 168300) * 1000 / 1055;
    proof {
        vstd::arithmetic::div_mod::lemma_div_is_ordered(
            ((v + 168300) * 1000) as int,
            ((SCALE + 168300) * 1000) as int,
            1055,
        );
    }
    gamma_decode(x, 12)
}

/// The sRGB power part never comes out lower for a higher input.
proof fn lemma_srgb_curve_monotone(a: u64, b: u64)
    requires
        a <= b,
        in_unit(b),
    ensures
        spec_srgb_curve(a) <= spec_srgb_curve(b),
{
    vstd::arithmetic::div_mod::lemma_div_is_ordered(
        ((a + 168300) * 1000) as int,
        ((b + 168300) * 1000) as int,
        1055,
    );
    vstd::arithmetic::div_mod::lemma_div_is_ordered(
        ((b + 168300) * 1000) as int,
        ((SCALE + 168300) * 1000) as int,
        1055,
    );
    crate::pow::lemma_gamma_decode_monotone(
        ((a + 168300) * 1000 / 1055) as u64,
        ((b + 168300) * 1000 / 1055) as u64,
        12,
    );
}

/// Only one value satisfies the sRGB inverse characterization.
proof fn lemma_srgb_inverse_unique(v: u64, r1: int, r2: int)
    requires
        0 <= r1 <= SCALE,
        0 <= r2 <= SCALE,
        spec_srgb_curve(r1 as u64) >= v,
        r1 == 0 || spec_srgb_curve((r1 - 1) as u64) < v,
        spec_srgb_curve(r2 as u64) >= v,
        r2 == 0 || spec_srgb_curve((r2 - 1) as u64) < v,
    ensures
        r1 == r2,
{
    if r1 < r2 {
        lemma_srgb_curve_monotone(r1 as u64, (r2 - 1) as u64);
    }
    if r2 < r1 {
        lemma_srgb_curve_monotone(r2 as u64, (r1 - 1) as u64);
    }
}

/// The sRGB power part reaches the scale exactly at the scale.
proof fn lemma_srgb_curve_at_scale()
    ensures
        spec_srgb_curve(SCALE) == SCALE,
{
    assert(((SCALE + 168300) * 1000 / 1055) as u64 == SCALE);
    crate::pow::lemma_gamma_decode_at_scale(12);
}

/// Inverts the power part of the sRGB curve by binary search.
fn srgb_curve_inverse(v: u64) -> (r: u64)
    requires
        in_unit(v),
    ensures
        r == spec_srgb_curve_inverse(v),
        in_unit(r),
{
    proof {
        lemma_srgb_curve_at_scale();
    }
    let mut lo: u64 = 0;
    let mut hi: u64 = SCALE;
    while lo < hi
        invariant
            in_unit(v),
            lo <= hi <= SCALE,
            spec_srgb_curve(hi) >= v,
            lo == 0 || spec_srgb_curve((lo - 1) as u64) < v,
        decreases hi - lo,
    {
        let mid = lo + (hi - lo) / 2;
        if srgb_curve(mid) >= v {
            hi = mid;
        } else {
            lo = mid + 1;
        }
    }
    proof {
        let li: int = lo as int;
        assert(0 <= li <= SCALE && spec_srgb_curve(li as u64) >= v && (li == 0 || spec_srgb_curve(
            (li - 1) as u64,
        ) < v));
        assert(exists|r: int|
            #![trigger spec_srgb_curve(r as u64)]
            0 <= r <= SCALE && spec_srgb_curve(r as u64) >= v && (r == 0 || spec_srgb_curve(
                (r - 1) as u64,
            ) < v));
        let c = spec_srgb_curve_inverse(v);
        lemma_srgb_inverse_unique(v, c, li);
    }
    lo
}

/// The RGB-to-XYZ matrix of each working space, derived from its primaries
/// and reference white, at a scale of 1e-5 per unit.
pub open spec fn spec_xyz_matrix(ws: RgbWorkingSpace) -> Mat3 {
    match ws {
        RgbWorkingSpace::Adobe => (
            (57673i64, 18555i64, 18819i64),
            (29738i64, 62735i64, 7527i64),
            (2703i64, 7069i64, 99111i64),
        ),
        RgbWorkingSpace::Apple => (
            (44973i64, 31625i64, 18449i64),
            (24465i64, 67203i64, 8332i64),
            (2518i64, 14118i64, 92246i64),
        ),
        RgbWorkingSpace::CIE => (
            (48872i64, 31068i64, 20060i64),
            (17620i64, 81298i64, 1081i64),
            (0i64, 1020i64, 98980i64),
        ),
        RgbWorkingSpace::ECI => (
            (65020i64, 17808i64, 13594i64),
            (32025i64, 60207i64, 7768i64),
            (0i64, 6784i64, 75737i64),
        ),
        RgbWorkingSpace::NTSC => (
            (60689i64, 17350i64, 20035i64),
            (29892i64, 58660i64, 11448i64),
            (0i64, 6610i64, 111622i64),
        ),
        RgbWorkingSpace::PAL => (
            (43062i64, 34154i64, 17831i64),
            (22204i64, 70664i64, 7132i64),
            (2019i64, 12955i64, 93909i64),
        ),
        RgbWorkingSpace::ProPhoto => (
            (79767i64, 13519i64, 3135i64),
            (28804i64, 71187i64, 9i64),
            (0i64, 0i64, 82521i64),
        ),
        RgbWorkingSpace::SRGB => (
            (41246i64, 35758i64, 18044i64),
            (21267i64, 71515i64, 7217i64),
            (1933i64, 11919i64, 95030i64),
        ),
        RgbWorkingSpace::WideGamut => (
            (71610i64, 10093i64, 14719i64),
            (25819i64, 72494i64, 1687i64),
            (0i64, 5178i64, 77343i64),
        ),
    }
}

/// The adjugate of the RGB-to-XYZ matrix: its exact inverse times the
/// determinant.
pub open spec fn spec_xyz_adjugate(ws: RgbWorkingSpace) -> Mat3 {
    match ws {
        RgbWorkingSpace::Adobe => (
            (6164520222i64, -1705973094i64, -1040946480i64),
            (-2927017437i64, 5665160946i64, 125534751i64),
            (40645217i64, -357536272i64, 3066327065i64),
        ),
        RgbWorkingSpace::Apple => (
            (6081576762i64, -2656816768i64, -976328647i64),
            (-2235818414i64, 4102124776i64, 76639749i64),
            (176179716i64, -555297064i64, 2248614894i64),
        ),
        RgbWorkingSpace::CIE => (
            (8045773420i64, -3054649440i64, -1597253372i64),
            (-1744027600i64, 4837350560i64, 300626568i64),
            (17972400i64, -49849440i64, 3425777696i64),
        ),
        RgbWorkingSpace::ECI => (
            (4507199447i64, -1256502800i64, -680121414i64),
            (-2425477425i64, 4924419740i64, -69727510i64),
            (217257600i64, -441095680i64, 3344357940i64),
        ),
        RgbWorkingSpace::NTSC => (
            (6472075240i64, -1804210350i64, -976630300i64),
            (-3336604824i64, 6774227558i64, -95881452i64),
            (197586120i64, -401154290i64, 3041390540i64),
        ),
        RgbWorkingSpace::PAL => (
            (6543590516i64, -2976367381i64, -1016423456i64),
            (-2070755928i64, 4007908569i64, 88801340i64),
            (144982204i64, -488911284i64, 2284577752i64),
        ),
        RgbWorkingSpace::ProPhoto => (
            (5874422427i64, -1115601399i64, -223049574i64),
            (-2376934884i64, 6582452607i64, 89582637i64),
            (0i64, 0i64, 5288972153i64),
        ),
        RgbWorkingSpace::SRGB => (
            (6710051027i64, -3183016304i64, -1032351174i64),
            (-2007052549i64, 3884728328i64, 86069366i64),
            (115242878i64, -422490860i64, 2189242304i64),
        ),
        RgbWorkingSpace::WideGamut => (
            (5598168156i64, -704407917i64, -1050012295i64),
            (-1996918917i64, 5538532230i64, 259223791i64),
            (133690782i64, -370796580i64, 4930704173i64),
        ),
    }
}

/// The determinant of the RGB-to-XYZ matrix.
pub open spec fn spec_xyz_determinant(ws: RgbWorkingSpace) -> int {
    match ws {
        RgbWorkingSpace::Adobe => 301980468558594int,
        RgbWorkingSpace::Apple => 206049333955160int,
        RgbWorkingSpace::CIE => 339390115449440int,
        RgbWorkingSpace::ECI => 252818605873940int,
        RgbWorkingSpace::NTSC => 338852318458160int,
        RgbWorkingSpace::PAL => 213640674514604int,
        RgbWorkingSpace::ProPhoto => 436451271037713int,
        RgbWorkingSpace::SRGB => 207074022103132int,
        RgbWorkingSpace::WideGamut => 382697713642137int,
    }
}

/// A row with non-negative entries summing to at most `b`.
pub open spec fn row_sum_bounded(row: Row3, b: int) -> bool {
    row.0 >= 0 && row.1 >= 0 && row.2 >= 0 && row.0 + row.1 + row.2 <= b
}

impl RgbWorkingSpace {
    /// The RGB-to-XYZ matrix, every row non-negative with a bounded sum.
    pub fn xyz_matrix(&self) -> (r: Mat3)
        ensures
            r == spec_xyz_matrix(*self),
            row_sum_bounded(r.0, 200000),
            row_sum_bounded(r.1, 200000),
            row_sum_bounded(r.2, 200000),
    {
        match *self {
            RgbWorkingSpace::Adobe => (
                (57673i64, 18555i64, 18819i64),
                (29738i64, 62735i64, 7527i64),
                (2703i64, 7069i64, 99111i64),
            ),
            RgbWorkingSpace::Apple => (
                (44973i64, 31625i64, 18449i64),
                (24465i64, 67203i64, 8332i64),
                (2518i64, 14118i64, 92246i64),
            ),
            RgbWorkingSpace::CIE => (
                (48872i64, 31068i64, 20060i64),
                (17620i64, 81298i64, 1081i64),
                (0i64, 1020i64, 98980i64),
            ),
            RgbWorkingSpace::ECI => (
                (65020i64, 17808i64, 13594i64),
                (32025i64, 60207i64, 7768i64),
                (0i64, 6784i64, 75737i64),
            ),
            RgbWorkingSpace::NTSC => (
                (60689i64, 17350i64, 20035i64),
                (29892i64, 58660i64, 11448i64),
                (0i64, 6610i64, 111622i64),
            ),
            RgbWorkingSpace::PAL => (
                (43062i64, 34154i64, 17831i64),
                (22204i64, 70664i64, 7132i64),
                (2019i64, 12955i64, 93909i64),
            ),
            RgbWorkingSpace::ProPhoto => (
                (79767i64, 13519i64, 3135i64),
                (28804i64, 71187i64, 9i64),
                (0i64, 0i64, 82521i64),
            ),
            RgbWorkingSpace::SRGB => (
                (41246i64, 35758i64, 18044i64),
                (21267i64, 71515i64, 7217i64),
                (1933i64, 11919i64, 95030i64),
            ),
            RgbWorkingSpace::WideGamut => (
                (71610i64, 10093i64, 14719i64),
                (25819i64, 72494i64, 1687i64),
                (0i64, 5178i64, 77343i64),
            ),
        }
    }

    /// The adjugate of the RGB-to-XYZ matrix and its determinant.
    pub fn xyz_inverse(&self) -> (r: (Mat3, i64))
        ensures
            r.0 == spec_xyz_adjugate(*self),
            r.1 == spec_xyz_determinant(*self),
            crate::adapt::row_bounded(r.0.0, 10000000000),
            crate::adapt::row_bounded(r.0.1, 10000000000),
            crate::adapt::row_bounded(r.0.2, 10000000000),
            200000000000000 <= r.1 <= 500000000000000,
    {
        match *self {
            RgbWorkingSpace::Adobe => (
                (
                    (6164520222i64, -1705973094i64, -1040946480i64),
                    (-2927017437i64, 5665160946i64, 125534751i64),
                    (40645217i64, -357536272i64, 3066327065i64),
                ),
                301980468558594i64,
            ),
            RgbWorkingSpace::Apple => (
                (
                    (6081576762i64, -2656816768i64, -976328647i64),
                    (-2235818414i64, 4102124776i64, 76639749i64),
                    (176179716i64, -555297064i64, 2248614894i64),
                ),
                206049333955160i64,
            ),
            RgbWorkingSpace::CIE => (
                (
                    (8045773420i64, -3054649440i64, -1597253372i64),
                    (-1744027600i64, 4837350560i64, 300626568i64),
                    (17972400i64, -49849440i64, 3425777696i64),
                ),
                339390115449440i64,
            ),
            RgbWorkingSpace::ECI => (
                (
                    (4507199447i64, -1256502800i64, -680121414i64),
                    (-2425477425i64, 4924419740i64, -69727510i64),
                    (217257600i64, -441095680i64, 3344357940i64),
                ),
                252818605873940i64,
            ),
            RgbWorkingSpace::NTSC => (
                (
                    (6472075240i64, -1804210350i64, -976630300i64),
                    (-3336604824i64, 6774227558i64, -95881452i64),
                    (197586120i64, -401154290i64, 3041390540i64),
                ),
                338852318458160i64,
            ),
            RgbWorkingSpace::PAL => (
                (
                    (6543590516i64, -2976367381i64, -1016423456i64),
                    (-2070755928i64, 4007908569i64, 88801340i64),
                    (144982204i64, -488911284i64, 2284577752i64),
                ),
                213640674514604i64,
            ),
            RgbWorkingSpace::ProPhoto => (
                (
                    (5874422427i64, -1115601399i64, -223049574i64),
                    (-2376934884i64, 6582452607i64, 89582637i64),
                    (0i64, 0i64, 5288972153i64),
                ),
                436451271037713i64,
            ),
            RgbWorkingSpace::SRGB => (
                (
                    (6710051027i64, -3183016304i64, -1032351174i64),
                    (-2007052549i64, 3884728328i64, 86069366i64),
                    (115242878i64, -422490860i64, 2189242304i64),
                ),
                207074022103132i64,
            ),
            RgbWorkingSpace::WideGamut => (
                (
                    (5598168156i64, -704407917i64, -1050012295i64),
                    (-1996918917i64, 5538532230i64, 259223791i64),
                    (133690782i64, -370796580i64, 4930704173i64),
                ),
                382697713642137i64,
            ),
        }
    }
}

/// An RGB color carried to XYZ under a working space: each channel is gamma
/// decoded, then the space's matrix applies.
#[verifier::opaque]
pub open spec fn spec_rgb_to_xyz(rgb: Rgb, ws: RgbWorkingSpace) -> (int, int, int) {
    let c = spec_companding(ws);
    let lin = (
        spec_decode(rgb.r, c) as u64,
        spec_decode(rgb.g, c) as u64,
        spec_decode(rgb.b, c) as u64,
    );
    let m = spec_xyz_matrix(ws);
    (
        spec_tdiv(spec_dot(m.0, (lin.0 as int, lin.1 as int, lin.2 as int)), 100000),
        spec_tdiv(spec_dot(m.1, (lin.0 as int, lin.1 as int, lin.2 as int)), 100000),
        spec_tdiv(spec_dot(m.2, (lin.0 as int, lin.1 as int, lin.2 as int)), 100000),
    )
}

/// An XYZ color carried back to RGB under a working space: the exact inverse
/// matrix applies, each linear channel is clipped into gamut, then gamma
/// encoded.
#[verifier::opaque]
pub open spec fn spec_xyz_to_rgb(v: Xyz, ws: RgbWorkingSpace) -> (int, int, int) {
    let c = spec_companding(ws);
    let adj = spec_xyz_adjugate(ws);
    let det = spec_xyz_determinant(ws);
    let vv = (v.x as int, v.y as int, v.z as int);
    let l0 = crate::hsv::spec_saturate(spec_tdiv(spec_dot(adj.0, vv) * 100000, det));
    let l1 = crate::hsv::spec_saturate(spec_tdiv(spec_dot(adj.1, vv) * 100000, det));
    let l2 = crate::hsv::spec_saturate(spec_tdiv(spec_dot(adj.2, vv) * 100000, det));
    (
        spec_encode(l0 as u64, c),
        spec_encode(l1 as u64, c),
        spec_encode(l2 as u64, c),
    )
}

/// Converts an RGB color to XYZ under a working space.
pub fn rgb_to_xyz(rgb: Rgb, ws: RgbWorkingSpace) -> (r: Xyz)
    requires
        rgb.wf(),
    ensures
        (r.x as int, r.y as int, r.z as int) == spec_rgb_to_xyz(rgb, ws),
        r.wf(),
{
    proof {
        reveal(spec_rgb_to_xyz);
    }
    let c = ws.companding();
    let lin = (decode_channel(rgb.r(), c), decode_channel(rgb.g(), c), decode_channel(rgb.b(), c));
    let m = ws.xyz_matrix();
    let x = forward_component(m.0, lin);
    let y = forward_component(m.1, lin);
    let z = forward_component(m.2, lin);
    Xyz { x, y, z }
}

/// Converts an XYZ color back to RGB under a working space, clipping
/// out-of-gamut channels.
pub fn xyz_to_rgb(v: Xyz, ws: RgbWorkingSpace) -> (r: Rgb)
    requires
        v.wf(),
    ensures
        (r.r as int, r.g as int, r.b as int) == spec_xyz_to_rgb(v, ws),
        r.wf(),
{
    proof {
        reveal(spec_xyz_to_rgb);
    }
    let c = ws.companding();
    let (adj, det) = ws.xyz_inverse();
    let l0 = back_linear(adj.0, v, det);
    let l1 = back_linear(adj.1, v, det);
    let l2 = back_linear(adj.2, v, det);
    Rgb::new_unchecked(encode_channel(l0, c), encode_channel(l1, c), encode_channel(l2, c))
}

/// One XYZ component of the forward transform.
fn forward_component(row: Row3, lin: (u64, u64, u64)) -> (r: i64)
    requires
        row_sum_bounded(row, 200000),
        in_unit(lin.0),
        in_unit(lin.1),
        in_unit(lin.2),
    ensures
        r as int == spec_tdiv(spec_dot(row, (lin.0 as int, lin.1 as int, lin.2 as int)), 100000),
        0 <= r <= 2 * SCALE,
{
    let d = dot(
        row,
        (lin.0 as i128, lin.1 as i128, lin.2 as i128),
        Ghost(3060000int),
        Ghost(200000int),
    );
    proof {
        assert(0 <= (row.0 as int) * (lin.0 as int) <= (row.0 as int) * (SCALE as int))
            by (nonlinear_arith)
            requires
                row.0 >= 0 && 0 <= lin.0 <= SCALE,
        ;
        assert(0 <= (row.1 as int) * (lin.1 as int) <= (row.1 as int) * (SCALE as int))
            by (nonlinear_arith)
            requires
                row.1 >= 0 && 0 <= lin.1 <= SCALE,
        ;
        assert(0 <= (row.2 as int) * (lin.2 as int) <= (row.2 as int) * (SCALE as int))
            by (nonlinear_arith)
            requires
                row.2 >= 0 && 0 <= lin.2 <= SCALE,
        ;
        assert((row.0 as int) * (SCALE as int) + (row.1 as int) * (SCALE as int) + (row.2 as int)
            * (SCALE as int) <= 200000 * (SCALE as int)) by (nonlinear_arith)
            requires
                row.0 + row.1 + row.2 <= 200000 && row.0 >= 0 && row.1 >= 0 && row.2 >= 0,
        ;
        lemma_tdiv_bound(d as int, 100000, 2 * SCALE as int);
    }
    let q = tdiv(d, 100000);
    q as i64
}

/// One linear RGB component of the inverse transform, clipped into gamut.
fn back_linear(row: Row3, v: Xyz, det: i64) -> (r: u64)
    requires
        crate::adapt::row_bounded(row, 10000000000),
        v.wf(),
        200000000000000 <= det <= 500000000000000,
    ensures
        r as int == crate::hsv::spec_saturate(
            spec_tdiv(spec_dot(row, (v.x as int, v.y as int, v.z as int)) * 100000, det as int),
        ),
        in_unit(r),
{
    let d = dot(
        row,
        (v.x as i128, v.y as i128, v.z as i128),
        Ghost(6120000int),
        Ghost(10000000000int),
    );
    proof {
        assert(-(3 * (10000000000int * 6120000int)) * 100000 <= (d as int) * 100000 <= 3 * (
        10000000000int * 6120000int) * 100000) by (nonlinear_arith)
            requires
                -(3 * (10000000000int * 6120000int)) <= d as int <= 3 * (10000000000int
                    * 6120000int),
        ;
        assert(3 * (10000000000int * 6120000int) * 100000 <= 100000000 * (det as int))
            by (nonlinear_arith)
            requires
                det >= 200000000000000,
        ;
        lemma_tdiv_bound((d as int) * 100000, det as int, 100000000int);
    }
    let q = tdiv(d * 100000, det as i128);
    let qi = q as i64;
    if qi < 0 {
        0
    } else if qi > SCALE as i64 {
        SCALE
    } else {
        qi as u64
    }
}

} // verus!
