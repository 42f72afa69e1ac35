//! The CIE XYZ tristimulus type.

use vstd::prelude::*;

use crate::fixed::SCALE;

verus! {

/// A color as CIE XYZ tristimulus values at fixed-point scale. A valid
/// color keeps every component within `[0.0, 2.0]`; the reference whites
/// all lie inside that range.
#[derive(Clone, Copy, Debug, PartialEq, Eq, Structural)]
pub struct Xyz {
    pub x: i64,
    pub y: i64,
    pub z: i64,
}

impl Xyz {
    /// All components lie in `[0.0, 2.0]`.
    pub open spec fn wf(&self) -> bool {
        0 <= self.x <= 2 * SCALE && 0 <= self.y <= 2 * SCALE && 0 <= self.z <= 2 * SCALE
    }

    /// Builds from components already in range.
    pub fn new_unchecked(x: i64, y: i64, z: i64) -> (r: Self)
        requires
            0 <= x <= 2 * SCALE,
            0 <= y <= 2 * SCALE,
            0 <= z <= 2 * SCALE,
        ensures
            r.wf(),
            r.x == x && r.y == y && r.z == z,
    {
        Xyz { x, y, z }
    }

    /// The X component.
    pub fn x(&self) -> (r: i64)
        ensures
            r == self.x,
    {
        self.x
    }

    /// The Y component.
    pub fn y(&self) -> (r: i64)
        ensures
            r == self.y,
    {
        self.y
    }

    /// The Z component.
    pub fn z(&self) -> (r: i64)
        ensures
            r == self.z,
    {
        self.z
    }
}

} // verus!
