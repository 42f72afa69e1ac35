//! Color model and color-space conversion core of a palette tool.
//!
//! All component values are fixed-point integers (see [`fixed`]); every
//! conversion, harmony derivation, formatting routine and palette operation
//! is a pure function of its inputs with a verified contract.

pub mod adapt;
pub mod cie;
pub mod cmyk;
pub mod color;
pub mod display;
pub mod error;
pub mod fixed;
pub mod hsl;
pub mod hsv;
pub mod illuminant;
pub mod palette;
pub mod pow;
pub mod rgb;
pub mod settings;
pub mod text;
pub mod window;
pub mod workspace;
pub mod xyz;
