//! The RGB color type: the hub for the CMYK, HSV and HSL conversions.

use vstd::prelude::*;

use crate::fixed::{clamp_unit, in_unit, SCALE};

verus! {

/// A color as red, green and blue components, each in `[0.0, 1.0]`.
#[derive(Clone, Copy, Debug, PartialEq, Eq, Structural)]
pub struct Rgb {
    pub r: u64,
    pub g: u64,
    pub b: u64,
}

/// Sanity mapping applied by constructors: a component above `1.0` is taken
/// to be on the 0-255 channel scale and is divided down, then clamped.
pub open spec fn spec_rgb_component(v: u64) -> int {
    let scaled = if v > SCALE { v as int / 255 } else { v as int };
    if scaled > SCALE {
        SCALE as int
    } else {
        scaled
    }
}

/// The byte value (0-255) nearest to a normalized component.
pub open spec fn spec_component_byte(v: u64) -> int {
    (v * 255 + SCALE / 2) as int / (SCALE as int)
}

/// Fixed-point units per byte step: `SCALE / 255`.
pub const BYTE_UNIT: u64 = 12000;

impl Rgb {
    /// All components lie in the normalized range.
    pub open spec fn wf(&self) -> bool {
        in_unit(self.r) && in_unit(self.g) && in_unit(self.b)
    }

    /// Builds a color from components, applying the sanity mapping to each.
    pub fn new(r: u64, g: u64, b: u64) -> (c: Self)
        ensures
            c.wf(),
            c.r == spec_rgb_component(r),
            c.g == spec_rgb_component(g),
            c.b == spec_rgb_component(b),
    {
        Rgb { r: sanitize_component(r), g: sanitize_component(g), b: sanitize_component(b) }
    }

    /// Builds a color from components already known to be normalized.
    pub fn new_unchecked(r: u64, g: u64, b: u64) -> (c: Self)
        requires
            in_unit(r),
            in_unit(g),
            in_unit(b),
        ensures
            c.wf(),
            c.r == r && c.g == g && c.b == b,
    {
        Rgb { r, g, b }
    }

    /// Builds a color from 8-bit channels; every byte triple is exact.
    pub fn from_u8(r: u8, g: u8, b: u8) -> (c: Self)
        ensures
            c.wf(),
            c.r == r * BYTE_UNIT,
            c.g == g * BYTE_UNIT,
            c.b == b * BYTE_UNIT,
    {
        Rgb { r: (r as u64) * BYTE_UNIT, g: (g as u64) * BYTE_UNIT, b: (b as u64) * BYTE_UNIT }
    }

    /// Red in `[0.0, 1.0]`.
    pub fn r(&self) -> (v: u64)
        ensures
            v == self.r,
    {
        self.r
    }

    /// Green in `[0.0, 1.0]`.
    pub fn g(&self) -> (v: u64)
        ensures
            v == self.g,
    {
        self.g
    }

    /// Blue in `[0.0, 1.0]`.
    pub fn b(&self) -> (v: u64)
        ensures
            v == self.b,
    {
        self.b
    }

    /// Red on the 0-255 scale (still in fixed-point units).
    pub fn r_scaled(&self) -> (v: u64)
        requires
            self.wf(),
        ensures
            v == self.r * 255,
    {
        self.r * 255
    }

    /// Green on the 0-255 scale (still in fixed-point units).
    pub fn g_scaled(&self) -> (v: u64)
        requires
            self.wf(),
        ensures
            v == self.g * 255,
    {
        self.g * 255
    }

    /// Blue on the 0-255 scale (still in fixed-point units).
    pub fn b_scaled(&self) -> (v: u64)
        requires
            self.wf(),
        ensures
            v == self.b * 255,
    {
        self.b * 255
    }

    /// The nearest 8-bit red channel value.
    pub fn r_byte(&self) -> (v: u8)
        requires
            self.wf(),
        ensures
            v == spec_component_byte(self.r),
    {
        component_byte(self.r)
    }

    /// The nearest 8-bit green channel value.
    pub fn g_byte(&self) -> (v: u8)
        requires
            self.wf(),
        ensures
            v == spec_component_byte(self.g),
    {
        component_byte(self.g)
    }

    /// The nearest 8-bit blue channel value.
    pub fn b_byte(&self) -> (v: u8)
        requires
            self.wf(),
        ensures
            v == spec_component_byte(self.b),
    {
        component_byte(self.b)
    }
}

/// Rounding to bytes undoes `from_u8` exactly: the 8-bit encoding is lossless.
pub proof fn lemma_byte_round_trip(b: u8)
    ensures
        spec_component_byte((b * BYTE_UNIT) as u64) == b,
{
    let v = (b as int) * (BYTE_UNIT as int);
    assert(v * 255 == (b as int) * 3060000) by (nonlinear_arith)
        requires
            v == (b as int) * 12000,
    ;
    assert(((b as int) * 3060000 + 1530000) / 3060000 == b as int) by (nonlinear_arith)
        requires
            0 <= b < 256,
    ;
}

fn sanitize_component(v: u64) -> (r: u64)
    ensures
        r == spec_rgb_component(v),
        in_unit(r),
{
    let scaled = if v > SCALE { v / 255 } else { v };
    clamp_unit(scaled)
}

fn component_byte(v: u64) -> (r: u8)
    requires
        in_unit(v),
    ensures
        r == spec_component_byte(v),
{
    let q = (v * 255 + SCALE / 2) / SCALE;
    assert(q <= 255) by {
        assert(v * 255 + SCALE / 2 <= SCALE * 255 + SCALE / 2) by (nonlinear_arith)
            requires
                v <= SCALE,
        ;
        assert((SCALE * 255 + SCALE / 2) as int / (SCALE as int) == 255) by (nonlinear_arith);
        vstd::arithmetic::div_mod::lemma_div_is_ordered(
            (v * 255 + SCALE / 2) as int,
            (SCALE * 255 + SCALE / 2) as int,
            SCALE as int,
        );
    };
    q as u8
}

} // verus!
