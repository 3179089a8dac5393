//! The transform-matrix engine of a 2D canvas: the rules of a DOMMatrix-style
//! 4x4 matrix that do not need floating-point arithmetic.
//!
//! Each coefficient is held as the bit pattern of its IEEE-754 binary64 value,
//! which is exactly what the engine's rules test (is a coefficient zero, is it
//! one, is it the NaN of a singular inverse, are two matrices bit for bit the
//! same). The arithmetic itself is done by the caller on the decoded values
//! and handed back through the composition and inversion entry points.

pub mod coefficient;
pub mod error;
pub mod matrix;
pub mod number;
pub mod steps;
pub mod text;
pub mod transform_list;
