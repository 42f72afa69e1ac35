//! The registry of standard illuminants and their reference white points.

use vstd::prelude::*;

use crate::fixed::SCALE;
use crate::xyz::Xyz;

verus! {

/// A standard illuminant, named by its CIE designation.
#[derive(Clone, Copy, Debug, PartialEq, Eq, Structural)]
pub enum Illuminant {
    A,
    B,
    C,
    D50,
    D55,
    D65,
    D75,
    E,
    F2,
    F7,
    F11,
}

/// The reference white of an illuminant as XYZ tristimulus values, at
/// fixed-point scale (Y is always 1.0).
pub open spec fn spec_white_point(i: Illuminant) -> Xyz {
    match i {
        Illuminant::A => Xyz { x: 3361410, y: 3060000, z: 1088901 },
        Illuminant::B => Xyz { x: 3031603, y: 3060000, z: 2607824 },
        Illuminant::C => Xyz { x: 3001064, y: 3060000, z: 3617899 },
        Illuminant::D50 => Xyz { x: 2950513, y: 3060000, z: 2525143 },
        Illuminant::D55 => Xyz { x: 2927869, y: 3060000, z: 2819759 },
        Illuminant::D65 => Xyz { x: 2908438, y: 3060000, z: 3331820 },
        Illuminant::D75 => Xyz { x: 2906143, y: 3060000, z: 3752723 },
        Illuminant::E => Xyz { x: 3060000, y: 3060000, z: 3060000 },
        Illuminant::F2 => Xyz { x: 3035092, y: 3060000, z: 2062226 },
        Illuminant::F7 => Xyz { x: 2908255, y: 3060000, z: 3327658 },
        Illuminant::F11 => Xyz { x: 3089437, y: 3060000, z: 1969110 },
    }
}

impl Illuminant {
    /// The reference white point, as XYZ at fixed-point scale.
    pub fn white_point(&self) -> (r: Xyz)
        ensures
            r == spec_white_point(*self),
            r.wf(),
            r.x >= SCALE as i64 / 4 && r.y >= SCALE as i64 / 4 && r.z >= SCALE as i64 / 4,
    {
        match *self {
            Illuminant::A => Xyz { x: 3361410, y: 3060000, z: 1088901 },
            Illuminant::B => Xyz { x: 3031603, y: 3060000, z: 2607824 },
            Illuminant::C => Xyz { x: 3001064, y: 3060000, z: 3617899 },
            Illuminant::D50 => Xyz { x: 2950513, y: 3060000, z: 2525143 },
            Illuminant::D55 => Xyz { x: 2927869, y: 3060000, z: 2819759 },
            Illuminant::D65 => Xyz { x: 2908438, y: 3060000, z: 3331820 },
            Illuminant::D75 => Xyz { x: 2906143, y: 3060000, z: 3752723 },
            Illuminant::E => Xyz { x: 3060000, y: 3060000, z: 3060000 },
            Illuminant::F2 => Xyz { x: 3035092, y: 3060000, z: 2062226 },
            Illuminant::F7 => Xyz { x: 2908255, y: 3060000, z: 3327658 },
            Illuminant::F11 => Xyz { x: 3089437, y: 3060000, z: 1969110 },
        }
    }
}

impl Default for Illuminant {
    /// D65, the daylight reference that the default working space uses.
    fn default() -> (r: Self)
        ensures
            r == Illuminant::D65,
    {
        Illuminant::D65
    }
}

} // verus!
