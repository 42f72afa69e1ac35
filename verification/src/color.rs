//! The tagged union over the color representations, the single entry point
//! for conversions, equality and harmony derivation.

use vstd::prelude::*;

use crate::cmyk::{spec_cmy_from_rgb, spec_k_from_rgb, spec_rgb_from_cmyk, Cmyk};
use crate::fixed::SCALE;
use crate::hsl::{
    spec_hsl_sat_from_hsv, spec_hsv_sat_from_hsl, spec_lightness_from_hsv, spec_val_from_hsl, Hsl,
};
use crate::fixed::in_unit;
use crate::hsv::{
    lemma_hue_wrap_add, saturating_add_unit, spec_hue_from_rgb, spec_hue_wrap,
    spec_rgb_from_hsv_b, spec_rgb_from_hsv_g, spec_rgb_from_hsv_r, spec_sat_from_rgb,
    spec_saturate, spec_val_from_rgb, Hsv,
};
use crate::cie::{spec_xyz_from_lab, spec_xyz_from_luv, spec_xyz_from_xyy, Lab, Luv, XyY};
use crate::illuminant::Illuminant;
use crate::rgb::Rgb;
use crate::workspace::{spec_xyz_to_rgb, xyz_to_rgb, RgbWorkingSpace};
use crate::xyz::Xyz;

verus! {

/// The XYZ value of a color under a working space: an XYZ color stands as
/// it is, the rest go through their canonical RGB value and the working
/// space's forward transform.
pub open spec fn spec_as_xyz(c: Color, ws: RgbWorkingSpace) -> Xyz {
    match c {
        Color::Xyz(x, _) => x,
        _ => {
            let rgb = c.spec_rgb();
            let t = crate::workspace::spec_rgb_to_xyz(rgb, ws);
            Xyz { x: t.0 as i64, y: t.1 as i64, z: t.2 as i64 }
        },
    }
}

/// A color in one of the supported representations.
#[derive(Clone, Copy, Debug)]
pub enum Color {
    Rgb(Rgb),
    Cmyk(Cmyk),
    Hsv(Hsv),
    Hsl(Hsl),
    Xyz(Xyz, RgbWorkingSpace),
    XyY(XyY, RgbWorkingSpace),
    Luv(Luv, RgbWorkingSpace, Illuminant),
    Lab(Lab, RgbWorkingSpace, Illuminant),
}

impl Color {
    /// The carried components lie in their normalized ranges.
    pub open spec fn wf(&self) -> bool {
        match *self {
            Color::Rgb(c) => c.wf(),
            Color::Cmyk(c) => c.wf(),
            Color::Hsv(c) => c.wf(),
            Color::Hsl(c) => c.wf(),
            Color::Xyz(c, _) => c.wf(),
            Color::XyY(c, _) => c.wf(),
            Color::Luv(c, _, _) => c.wf(),
            Color::Lab(c, _, _) => c.wf(),
        }
    }

    /// The canonical RGB value that the color resolves to.
    pub open spec fn spec_rgb(&self) -> Rgb {
        match *self {
            Color::Rgb(c) => c,
            Color::Cmyk(c) => Rgb {
                r: spec_rgb_from_cmyk(c.c, c.k) as u64,
                g: spec_rgb_from_cmyk(c.m, c.k) as u64,
                b: spec_rgb_from_cmyk(c.y, c.k) as u64,
            },
            Color::Hsv(c) => Rgb {
                r: spec_rgb_from_hsv_r(c.h, c.s, c.v) as u64,
                g: spec_rgb_from_hsv_g(c.h, c.s, c.v) as u64,
                b: spec_rgb_from_hsv_b(c.h, c.s, c.v) as u64,
            },
            Color::Hsl(c) => {
                let s = spec_hsv_sat_from_hsl(c.s, c.l) as u64;
                let v = spec_val_from_hsl(c.s, c.l) as u64;
                Rgb {
                    r: spec_rgb_from_hsv_r(c.h, s, v) as u64,
                    g: spec_rgb_from_hsv_g(c.h, s, v) as u64,
                    b: spec_rgb_from_hsv_b(c.h, s, v) as u64,
                }
            },
            Color::Xyz(c, ws) => {
                let t = spec_xyz_to_rgb(c, ws);
                Rgb { r: t.0 as u64, g: t.1 as u64, b: t.2 as u64 }
            },
            Color::XyY(c, ws) => {
                let t = spec_xyz_to_rgb(spec_xyz_from_xyy(c), ws);
                Rgb { r: t.0 as u64, g: t.1 as u64, b: t.2 as u64 }
            },
            Color::Luv(c, ws, ill) => {
                let t = spec_xyz_to_rgb(spec_xyz_from_luv(c, ill), ws);
                Rgb { r: t.0 as u64, g: t.1 as u64, b: t.2 as u64 }
            },
            Color::Lab(c, ws, ill) => {
                let t = spec_xyz_to_rgb(spec_xyz_from_lab(c, ill), ws);
                Rgb { r: t.0 as u64, g: t.1 as u64, b: t.2 as u64 }
            },
        }
    }

    /// The HSV value that the color resolves to: an HSV color stands as it
    /// is, an HSL color converts by the doubled-lightness identity, the rest
    /// resolve through their canonical RGB value.
    pub open spec fn spec_hsv(&self) -> Hsv {
        match *self {
            Color::Hsv(c) => c,
            Color::Hsl(c) => Hsv {
                h: c.h,
                s: spec_hsv_sat_from_hsl(c.s, c.l) as u64,
                v: spec_val_from_hsl(c.s, c.l) as u64,
            },
            _ => {
                let rgb = self.spec_rgb();
                Hsv {
                    h: spec_hue_from_rgb(rgb.r, rgb.g, rgb.b) as u64,
                    s: spec_sat_from_rgb(rgb.r, rgb.g, rgb.b) as u64,
                    v: spec_val_from_rgb(rgb.r, rgb.g, rgb.b) as u64,
                }
            },
        }
    }

    /// The HSL value that the color resolves to.
    pub open spec fn spec_hsl(&self) -> Hsl {
        match *self {
            Color::Hsl(c) => c,
            _ => {
                let hsv = self.spec_hsv();
                Hsl {
                    h: hsv.h,
                    s: spec_hsl_sat_from_hsv(hsv.s, hsv.v) as u64,
                    l: spec_lightness_from_hsv(hsv.s, hsv.v) as u64,
                }
            },
        }
    }

    /// Pure black, as RGB.
    pub fn black() -> (c: Color)
        ensures
            c.wf(),
            c == Color::Rgb(Rgb { r: 0u64, g: 0u64, b: 0u64 }),
    {
        Color::Rgb(Rgb::new_unchecked(0, 0, 0))
    }

    /// Pure white, as RGB.
    pub fn white() -> (c: Color)
        ensures
            c.wf(),
            c == Color::Rgb(Rgb { r: SCALE, g: SCALE, b: SCALE }),
    {
        Color::Rgb(Rgb::new_unchecked(SCALE, SCALE, SCALE))
    }

    /// Resolves the color to its canonical RGB value.
    pub fn as_rgb(&self) -> (r: Rgb)
        requires
            self.wf(),
        ensures
            r == self.spec_rgb(),
            r.wf(),
    {
        match *self {
            Color::Rgb(c) => c,
            Color::Cmyk(c) => c.to_rgb(),
            Color::Hsv(c) => c.to_rgb(),
            Color::Hsl(c) => c.to_rgb(),
            Color::Xyz(c, ws) => xyz_to_rgb(c, ws),
            Color::XyY(c, ws) => xyz_to_rgb(c.to_xyz(), ws),
            Color::Luv(c, ws, ill) => xyz_to_rgb(c.to_xyz(ill), ws),
            Color::Lab(c, ws, ill) => xyz_to_rgb(c.to_xyz(ill), ws),
        }
    }

    /// Resolves the color to HSV.
    pub fn as_hsv(&self) -> (r: Hsv)
        requires
            self.wf(),
        ensures
            r == self.spec_hsv(),
            r.wf(),
    {
        match *self {
            Color::Hsv(c) => c,
            Color::Hsl(c) => c.to_hsv(),
            Color::Rgb(c) => Hsv::from_rgb(c),
            Color::Cmyk(c) => Hsv::from_rgb(c.to_rgb()),
            Color::Xyz(c, ws) => Hsv::from_rgb(xyz_to_rgb(c, ws)),
            Color::XyY(c, ws) => Hsv::from_rgb(xyz_to_rgb(c.to_xyz(), ws)),
            Color::Luv(c, ws, ill) => Hsv::from_rgb(xyz_to_rgb(c.to_xyz(ill), ws)),
            Color::Lab(c, ws, ill) => Hsv::from_rgb(xyz_to_rgb(c.to_xyz(ill), ws)),
        }
    }

    /// Resolves the color to HSL.
    pub fn as_hsl(&self) -> (r: Hsl)
        requires
            self.wf(),
        ensures
            r == self.spec_hsl(),
            r.wf(),
    {
        match *self {
            Color::Hsl(c) => c,
            _ => Hsl::from_hsv(self.as_hsv()),
        }
    }

    /// The CMYK value that the color resolves to: a CMYK color stands as it
    /// is, the rest resolve through their canonical RGB value.
    pub open spec fn spec_cmyk(&self) -> Cmyk {
        match *self {
            Color::Cmyk(c) => c,
            _ => {
                let rgb = self.spec_rgb();
                Cmyk {
                    c: spec_cmy_from_rgb(rgb.r, rgb.r, rgb.g, rgb.b) as u64,
                    m: spec_cmy_from_rgb(rgb.g, rgb.r, rgb.g, rgb.b) as u64,
                    y: spec_cmy_from_rgb(rgb.b, rgb.r, rgb.g, rgb.b) as u64,
                    k: spec_k_from_rgb(rgb.r, rgb.g, rgb.b) as u64,
                }
            },
        }
    }

    /// Resolves the color to CMYK.
    pub fn as_cmyk(&self) -> (r: Cmyk)
        requires
            self.wf(),
        ensures
            r == self.spec_cmyk(),
            r.wf(),
    {
        match *self {
            Color::Cmyk(c) => c,
            _ => Cmyk::from_rgb(self.as_rgb()),
        }
    }

    /// Resolves the color to XYZ under a working space.
    pub fn as_xyz(&self, ws: RgbWorkingSpace) -> (r: Xyz)
        requires
            self.wf(),
        ensures
            r == spec_as_xyz(*self, ws),
            r.wf(),
    {
        match *self {
            Color::Xyz(c, _) => c,
            _ => crate::workspace::rgb_to_xyz(self.as_rgb(), ws),
        }
    }

    /// Two colors are the same exactly when their canonical RGB values are.
    pub open spec fn spec_same(&self, other: &Color) -> bool {
        self.spec_rgb() == other.spec_rgb()
    }

    /// Compares two colors by their canonical RGB values.
    pub fn same_color(&self, other: &Color) -> (r: bool)
        requires
            self.wf(),
            other.wf(),
        ensures
            r == self.spec_same(other),
    {
        let a = self.as_rgb();
        let b = other.as_rgb();
        a.r() == b.r() && a.g() == b.g() && a.b() == b.b()
    }

    /// The same color with the hue shifted by `offset`, wrapping.
    fn hue_offset(&self, offset: i64) -> (c: Color)
        requires
            self.wf(),
        ensures
            c == spec_hue_offset(*self, offset as int),
            c.wf(),
    {
        let mut hsv = self.as_hsv();
        hsv.offset_hue(offset);
        Color::Hsv(hsv)
    }

    /// The one color opposite on the hue wheel, at hue + 180 degrees.
    pub fn complementary(&self) -> (c: Color)
        requires
            self.wf(),
        ensures
            c == spec_hue_offset(*self, SCALE as int / 2),
            c.wf(),
    {
        self.hue_offset((SCALE / 2) as i64)
    }

    /// The two other colors of the triad: hue + 120 and hue + 240 degrees.
    pub fn triadic(&self) -> (r: (Color, Color))
        requires
            self.wf(),
        ensures
            r.0 == spec_hue_offset(*self, SCALE as int / 3),
            r.1 == spec_hue_offset(*self, 2 * (SCALE as int / 3)),
            r.0.wf() && r.1.wf(),
    {
        (self.hue_offset((SCALE / 3) as i64), self.hue_offset((2 * (SCALE / 3)) as i64))
    }

    /// The three other colors of the tetrad: hue + 90, 180 and 270 degrees.
    pub fn tetradic(&self) -> (r: (Color, Color, Color))
        requires
            self.wf(),
        ensures
            r.0 == spec_hue_offset(*self, SCALE as int / 4),
            r.1 == spec_hue_offset(*self, SCALE as int / 2),
            r.2 == spec_hue_offset(*self, 3 * (SCALE as int / 4)),
            r.0.wf() && r.1.wf() && r.2.wf(),
    {
        (
            self.hue_offset((SCALE / 4) as i64),
            self.hue_offset((SCALE / 2) as i64),
            self.hue_offset((3 * (SCALE / 4)) as i64),
        )
    }

    /// The two adjacent colors, at hue - 30 and hue + 30 degrees.
    pub fn analogous(&self) -> (r: (Color, Color))
        requires
            self.wf(),
        ensures
            r.0 == spec_hue_offset(*self, -(SCALE as int / 12)),
            r.1 == spec_hue_offset(*self, SCALE as int / 12),
            r.0.wf() && r.1.wf(),
    {
        (self.hue_offset(-((SCALE / 12) as i64)), self.hue_offset((SCALE / 12) as i64))
    }

    /// The two colors flanking the complement: hue + 180 -/+ 30 degrees.
    pub fn split_complementary(&self) -> (r: (Color, Color))
        requires
            self.wf(),
        ensures
            r.0 == spec_hue_offset(*self, SCALE as int / 2 - SCALE as int / 12),
            r.1 == spec_hue_offset(*self, SCALE as int / 2 + SCALE as int / 12),
            r.0.wf() && r.1.wf(),
    {
        (
            self.hue_offset((SCALE / 2 - SCALE / 12) as i64),
            self.hue_offset((SCALE / 2 + SCALE / 12) as i64),
        )
    }

    /// Four colors evenly spaced on the hue wheel: the same construction as
    /// the tetrad, at 90 degree steps.
    pub fn square(&self) -> (r: (Color, Color, Color))
        requires
            self.wf(),
        ensures
            r.0 == spec_hue_offset(*self, SCALE as int / 4),
            r.1 == spec_hue_offset(*self, SCALE as int / 2),
            r.2 == spec_hue_offset(*self, 3 * (SCALE as int / 4)),
            r.0.wf() && r.1.wf() && r.2.wf(),
    {
        self.tetradic()
    }

    /// Three colors of the same hue with the lightness varied around the
    /// base: one step up and two steps down, saturating at the bounds.
    pub fn monochromatic(&self) -> (r: (Color, Color, Color))
        requires
            self.wf(),
        ensures
            r.0 == spec_lightness_offset(*self, MONO_STEP as int),
            r.1 == spec_lightness_offset(*self, -(MONO_STEP as int)),
            r.2 == spec_lightness_offset(*self, -2 * (MONO_STEP as int)),
            r.0.wf() && r.1.wf() && r.2.wf(),
    {
        (
            self.lightness_offset(MONO_STEP as i64),
            self.lightness_offset(-(MONO_STEP as i64)),
            self.lightness_offset(-2 * (MONO_STEP as i64)),
        )
    }

    /// The same color with the lightness shifted by `offset`, saturating.
    fn lightness_offset(&self, offset: i64) -> (c: Color)
        requires
            self.wf(),
        ensures
            c == spec_lightness_offset(*self, offset as int),
            c.wf(),
    {
        let hsl = self.as_hsl();
        Color::Hsl(hsl.with_lightness(saturating_add_unit(hsl.l, offset)))
    }

    /// `n` colors stepping the lightness from the base toward white, the
    /// base included: step `i` adds `(1 - l) * i / n`.
    pub fn tints(&self, n: u8) -> (r: Vec<Color>)
        requires
            self.wf(),
        ensures
            r@.len() == n as int,
            forall|i: int| 0 <= i < n as int ==> r@[i] == spec_tint_at(self.spec_hsl(), i, n),
    {
        let base = self.as_hsl();
        let mut out: Vec<Color> = Vec::new();
        if n == 0 {
            return out;
        }
        let mut i: u64 = 0;
        while i < n as u64
            invariant
                self.wf(),
                base == self.spec_hsl(),
                base.wf(),
                n > 0,
                i <= n as u64,
                out@.len() == i as int,
                forall|j: int| 0 <= j < i as int ==> out@[j] == spec_tint_at(base, j, n),
            decreases n as int - i,
        {
            let step = step_toward(SCALE - base.l, i, n);
            out.push(Color::Hsl(base.with_lightness(base.l + step)));
            i += 1;
        }
        out
    }

    /// `n` colors stepping the lightness from the base toward black, the
    /// base included: step `i` removes `l * i / n`.
    pub fn shades(&self, n: u8) -> (r: Vec<Color>)
        requires
            self.wf(),
        ensures
            r@.len() == n as int,
            forall|i: int| 0 <= i < n as int ==> r@[i] == spec_shade_at(self.spec_hsl(), i, n),
    {
        let base = self.as_hsl();
        let mut out: Vec<Color> = Vec::new();
        if n == 0 {
            return out;
        }
        let mut i: u64 = 0;
        while i < n as u64
            invariant
                self.wf(),
                base == self.spec_hsl(),
                base.wf(),
                n > 0,
                i <= n as u64,
                out@.len() == i as int,
                forall|j: int| 0 <= j < i as int ==> out@[j] == spec_shade_at(base, j, n),
            decreases n as int - i,
        {
            let step = step_toward(base.l, i, n);
            out.push(Color::Hsl(base.with_lightness(base.l - step)));
            i += 1;
        }
        out
    }

    /// `n` colors each rotated one more `step` around the hue wheel, at
    /// constant saturation and value; the base itself is not included.
    #[verifier::rlimit(30)]
    pub fn hues(&self, n: u8, step: i64) -> (r: Vec<Color>)
        requires
            self.wf(),
        ensures
            r@.len() == n as int,
            forall|i: int| 0 <= i < n as int ==> r@[i] == spec_hue_offset(
                *self,
                (i + 1) * step as int,
            ),
    {
        let base = self.as_hsv();
        let mut cur = base;
        let mut out: Vec<Color> = Vec::new();
        let mut i: u64 = 0;
        while i < n as u64
            invariant
                self.wf(),
                base == self.spec_hsv(),
                base.wf(),
                cur.wf(),
                i <= n as u64,
                cur.s == base.s && cur.v == base.v,
                cur.h == spec_hue_wrap(base.h + i * step as int) || (i == 0 && cur == base),
                out@.len() == i as int,
                forall|j: int| 0 <= j < i as int ==> out@[j] == spec_hue_offset(
                    *self,
                    (j + 1) * step as int,
                ),
            decreases n as int - i,
        {
            proof {
                if i > 0 {
                    lemma_hue_wrap_add(base.h + i * step as int, step as int);
                    assert(base.h + i * step as int + step as int == base.h + (i + 1)
                        * step as int) by (nonlinear_arith);
                }
            }
            cur.offset_hue(step);
            out.push(Color::Hsv(cur));
            i += 1;
        }
        out
    }
}

/// The lightness offset used by the monochromatic harmony: a sixth.
pub const MONO_STEP: u64 = 510000;

/// A fixed geometric rule deriving related colors from a base color.
#[derive(Clone, Copy, Debug, PartialEq, Eq, Structural)]
pub enum ColorHarmony {
    Complementary,
    Triadic,
    Tetradic,
    Analogous,
    SplitComplementary,
    Square,
    Monochromatic,
}

impl ColorHarmony {
    /// The display name of the harmony.
    pub fn name(&self) -> (r: String)
        ensures
            r@ == spec_harmony_name(*self),
    {
        proof {
            reveal_strlit("complementary");
            reveal_strlit("triadic");
            reveal_strlit("tetradic");
            reveal_strlit("analogous");
            reveal_strlit("split complementary");
            reveal_strlit("square");
            reveal_strlit("monochromatic");
        }
        match *self {
            ColorHarmony::Complementary => "complementary".to_owned(),
            ColorHarmony::Triadic => "triadic".to_owned(),
            ColorHarmony::Tetradic => "tetradic".to_owned(),
            ColorHarmony::Analogous => "analogous".to_owned(),
            ColorHarmony::SplitComplementary => "split complementary".to_owned(),
            ColorHarmony::Square => "square".to_owned(),
            ColorHarmony::Monochromatic => "monochromatic".to_owned(),
        }
    }
}

/// The display name of each harmony.
pub open spec fn spec_harmony_name(h: ColorHarmony) -> Seq<char> {
    match h {
        ColorHarmony::Complementary => "complementary"@,
        ColorHarmony::Triadic => "triadic"@,
        ColorHarmony::Tetradic => "tetradic"@,
        ColorHarmony::Analogous => "analogous"@,
        ColorHarmony::SplitComplementary => "split complementary"@,
        ColorHarmony::Square => "square"@,
        ColorHarmony::Monochromatic => "monochromatic"@,
    }
}

impl Default for ColorHarmony {
    /// The complementary pair.
    fn default() -> (r: Self)
        ensures
            r == ColorHarmony::Complementary,
    {
        ColorHarmony::Complementary
    }
}

/// An ordered, never empty run of colors meant to be sampled smoothly.
#[derive(Clone, Debug)]
pub struct Gradient {
    pub colors: Vec<Color>,
}

impl Gradient {
    /// At least one color, all well-formed.
    pub open spec fn wf(&self) -> bool {
        self.colors@.len() > 0 && (forall|i: int|
            0 <= i < self.colors@.len() ==> (#[trigger] self.colors@[i]).wf())
    }

    /// Wraps a non-empty run of colors.
    pub fn from_colors(colors: Vec<Color>) -> (g: Self)
        requires
            colors@.len() > 0,
            forall|i: int| 0 <= i < colors@.len() ==> (#[trigger] colors@[i]).wf(),
        ensures
            g.wf(),
            g.colors@ == colors@,
    {
        Gradient { colors }
    }

    /// The number of stops.
    pub fn len(&self) -> (r: usize)
        ensures
            r == self.colors@.len(),
    {
        self.colors.len()
    }

    /// The stop at a position.
    pub fn get(&self, i: usize) -> (r: &Color)
        requires
            i < self.colors@.len(),
        ensures
            *r == self.colors@[i as int],
    {
        &self.colors[i]
    }

    /// The `i`-th of `n` evenly spaced samples, linearly interpolated in RGB
    /// between the two stops around its position.
    pub fn color_at(&self, i: usize, n: usize) -> (r: Rgb)
        requires
            self.wf(),
            2 <= n <= 65536,
            i < n,
            self.colors@.len() <= 256,
        ensures
            r == spec_gradient_sample(self, i as int, n as int),
            r.wf(),
    {
        let k = self.colors.len();
        if k == 1 {
            return self.colors[0].as_rgb();
        }
        proof {
            assert((i as int) * ((k - 1) as int) * SCALE <= 65535 * 255 * (SCALE as int))
                by (nonlinear_arith)
                requires
                    0 <= i <= 65535 && 1 <= (k - 1) as int <= 255 && SCALE > 0,
            ;
            lemma_gradient_pos_bound(i as int, k as int, n as int);
        }
        let pos = (i as u64) * ((k - 1) as u64) * SCALE / ((n - 1) as u64);
        let seg = (pos / SCALE) as usize;
        let f = pos % SCALE;
        if seg + 1 >= k {
            self.colors[k - 1].as_rgb()
        } else {
            let a = self.colors[seg].as_rgb();
            let b = self.colors[seg + 1].as_rgb();
            Rgb::new_unchecked(
                lerp_unit(a.r(), b.r(), f),
                lerp_unit(a.g(), b.g(), f),
                lerp_unit(a.b(), b.b(), f),
            )
        }
    }
}

/// Where the `i`-th of `n` samples falls, in fixed-point stop units: sample
/// positions run evenly from the first stop to the last.
pub open spec fn spec_gradient_pos(g: &Gradient, i: int, n: int) -> int {
    i * (g.colors@.len() - 1) * SCALE / (n - 1)
}

/// The `i`-th of `n` gradient samples: the canonical RGB values of the two
/// stops around the position, interpolated linearly.
pub open spec fn spec_gradient_sample(g: &Gradient, i: int, n: int) -> Rgb {
    let k = g.colors@.len() as int;
    if k == 1 {
        g.colors@[0].spec_rgb()
    } else {
        let pos = spec_gradient_pos(g, i, n);
        let seg = pos / (SCALE as int);
        let f = (pos % (SCALE as int)) as u64;
        if seg + 1 >= k {
            g.colors@[k - 1].spec_rgb()
        } else {
            let a = g.colors@[seg].spec_rgb();
            let b = g.colors@[seg + 1].spec_rgb();
            Rgb {
                r: spec_lerp_unit(a.r, b.r, f) as u64,
                g: spec_lerp_unit(a.g, b.g, f) as u64,
                b: spec_lerp_unit(a.b, b.b, f) as u64,
            }
        }
    }
}

/// A linear mix of two normalized values: `a + (b - a) * f`.
pub open spec fn spec_lerp_unit(a: u64, b: u64, f: u64) -> int {
    if b >= a {
        a + (b - a) * f / (SCALE as int)
    } else {
        a - (a - b) * f / (SCALE as int)
    }
}

/// Linearly mixes two normalized values.
fn lerp_unit(a: u64, b: u64, f: u64) -> (r: u64)
    requires
        in_unit(a),
        in_unit(b),
        f < SCALE,
    ensures
        r == spec_lerp_unit(a, b, f),
        in_unit(r),
{
    if b >= a {
        let d = crate::fixed::mul_unit(b - a, f);
        a + d
    } else {
        let d = crate::fixed::mul_unit(a - b, f);
        a - d
    }
}

/// A sample position never runs past the last stop by more than rounding:
/// its segment index stays below the stop count.
proof fn lemma_gradient_pos_bound(i: int, k: int, n: int)
    requires
        0 <= i < n,
        2 <= n,
        2 <= k <= 256,
    ensures
        0 <= i * (k - 1) * SCALE / (n - 1) <= (k - 1) * SCALE,
        i * (k - 1) <= 255 * (n - 1),
{
    assert(i * (k - 1) * SCALE <= (n - 1) * ((k - 1) * SCALE) && i * (k - 1) * SCALE >= 0 && i * (
    k - 1) <= 255 * (n - 1)) by (nonlinear_arith)
        requires
            0 <= i <= n - 1 && 1 <= k - 1 <= 255 && SCALE > 0,
    ;
    vstd::arithmetic::div_mod::lemma_div_is_ordered(
        i * (k - 1) * SCALE,
        (n - 1) * ((k - 1) * SCALE),
        n - 1,
    );
    vstd::arithmetic::div_mod::lemma_div_multiples_vanish((k - 1) * SCALE, n - 1);
    vstd::arithmetic::div_mod::lemma_div_pos_is_pos(i * (k - 1) * SCALE, n - 1);
}

/// A color with its hue shifted by `offset`, wrapping around the wheel.
pub open spec fn spec_hue_offset(c: Color, offset: int) -> Color {
    let hsv = c.spec_hsv();
    Color::Hsv(Hsv { h: spec_hue_wrap(hsv.h + offset) as u64, s: hsv.s, v: hsv.v })
}

/// A color with its lightness shifted by `offset`, saturating at the bounds.
pub open spec fn spec_lightness_offset(c: Color, offset: int) -> Color {
    let hsl = c.spec_hsl();
    Color::Hsl(Hsl { h: hsl.h, s: hsl.s, l: spec_saturate(hsl.l + offset) as u64 })
}

/// The lightness of the `i`-th tint: `l + (1 - l) * i / n`.
pub open spec fn spec_tint_lightness(l: u64, i: int, n: u8) -> int {
    l + (SCALE - l) * i / (n as int)
}

/// The `i`-th tint of a base HSL color.
pub open spec fn spec_tint_at(base: Hsl, i: int, n: u8) -> Color {
    Color::Hsl(Hsl { h: base.h, s: base.s, l: spec_tint_lightness(base.l, i, n) as u64 })
}

/// The lightness of the `i`-th shade: `l - l * i / n`.
pub open spec fn spec_shade_lightness(l: u64, i: int, n: u8) -> int {
    l - l * i / (n as int)
}

/// The `i`-th shade of a base HSL color.
pub open spec fn spec_shade_at(base: Hsl, i: int, n: u8) -> Color {
    Color::Hsl(Hsl { h: base.h, s: base.s, l: spec_shade_lightness(base.l, i, n) as u64 })
}

/// `amount * i / n`, never exceeding `amount`; the step of a tint or shade.
fn step_toward(amount: u64, i: u64, n: u8) -> (r: u64)
    requires
        amount <= SCALE,
        n > 0,
        i < n as u64,
    ensures
        r == amount * i / (n as int),
        r <= amount,
{
    proof {
        assert(amount * i <= SCALE * 255) by (nonlinear_arith)
            requires
                amount <= SCALE && i < 256,
        ;
    }
    let r = amount * i / (n as u64);
    assert(r <= amount) by {
        assert(amount * i <= amount * (n as int)) by (nonlinear_arith)
            requires
                i <= n as int && amount >= 0,
        ;
        assert(amount * (n as int) / (n as int) == amount) by (nonlinear_arith)
            requires
                n > 0,
        ;
        vstd::arithmetic::div_mod::lemma_div_is_ordered(
            (amount * i) as int,
            amount * (n as int),
            n as int,
        );
    };
    r
}

/// Along a tint sequence the lightness never decreases and stays normalized.
pub proof fn lemma_tints_nondecreasing(l: u64, i: int, j: int, n: u8)
    requires
        in_unit(l),
        0 <= i <= j < n as int,
    ensures
        spec_tint_lightness(l, i, n) <= spec_tint_lightness(l, j, n),
        spec_tint_lightness(l, j, n) <= SCALE,
{
    let a = (SCALE - l) as int;
    assert(a * i <= a * j) by (nonlinear_arith)
        requires
            0 <= i <= j && a >= 0,
    ;
    vstd::arithmetic::div_mod::lemma_div_is_ordered(a * i, a * j, n as int);
    assert(a * j <= a * (n as int)) by (nonlinear_arith)
        requires
            j <= n as int && a >= 0,
    ;
    assert(a * (n as int) / (n as int) == a) by (nonlinear_arith)
        requires
            n > 0,
    ;
    vstd::arithmetic::div_mod::lemma_div_is_ordered(a * j, a * (n as int), n as int);
}

/// The last tint is within one step (and one rounding unit) of pure white:
/// `n * (1 - last)` is at most `(1 - l) + (n - 1)`.
pub proof fn lemma_tints_reach_white(l: u64, n: u8)
    requires
        in_unit(l),
        n > 0,
    ensures
        (SCALE - spec_tint_lightness(l, n as int - 1, n)) * (n as int) <= SCALE - l + n - 1,
{
    let a = (SCALE - l) as int;
    let m = n as int;
    let q = a * (m - 1) / m;
    vstd::arithmetic::div_mod::lemma_fundamental_div_mod(a * (m - 1), m);
    let rem = a * (m - 1) % m;
    vstd::arithmetic::div_mod::lemma_mod_division_less_than_divisor(a * (m - 1), m);
    assert((a - q) * m == a + rem) by (nonlinear_arith)
        requires
            a * (m - 1) == m * q + rem && m > 0,
    ;
}

/// Along a shade sequence the lightness never increases and stays normalized.
pub proof fn lemma_shades_nonincreasing(l: u64, i: int, j: int, n: u8)
    requires
        in_unit(l),
        0 <= i <= j < n as int,
    ensures
        spec_shade_lightness(l, i, n) >= spec_shade_lightness(l, j, n),
        0 <= spec_shade_lightness(l, j, n) <= SCALE,
{
    let a = l as int;
    assert(a * i <= a * j) by (nonlinear_arith)
        requires
            0 <= i <= j && a >= 0,
    ;
    vstd::arithmetic::div_mod::lemma_div_is_ordered(a * i, a * j, n as int);
    assert(a * j <= a * (n as int)) by (nonlinear_arith)
        requires
            j <= n as int && a >= 0,
    ;
    assert(a * (n as int) / (n as int) == a) by (nonlinear_arith)
        requires
            n > 0,
    ;
    vstd::arithmetic::div_mod::lemma_div_is_ordered(a * j, a * (n as int), n as int);
    vstd::arithmetic::div_mod::lemma_div_pos_is_pos(a * i, n as int);
    vstd::arithmetic::div_mod::lemma_div_pos_is_pos(a * j, n as int);
}

/// The last shade is within one step (and one rounding unit) of pure black:
/// `n * last` is at most `l + (n - 1)`.
pub proof fn lemma_shades_reach_black(l: u64, n: u8)
    requires
        in_unit(l),
        n > 0,
    ensures
        spec_shade_lightness(l, n as int - 1, n) * (n as int) <= l + n - 1,
{
    let a = l as int;
    let m = n as int;
    let q = a * (m - 1) / m;
    vstd::arithmetic::div_mod::lemma_fundamental_div_mod(a * (m - 1), m);
    let rem = a * (m - 1) % m;
    vstd::arithmetic::div_mod::lemma_mod_division_less_than_divisor(a * (m - 1), m);
    assert((a - q) * m == a + rem) by (nonlinear_arith)
        requires
            a * (m - 1) == m * q + rem && m > 0,
    ;
}

} // verus!
