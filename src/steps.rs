//! The arguments of the transform steps (translate, scale, rotate, rotate
//! from a vector, rotate about an axis) and what each step does to the 2D flag.
//!
//! A step is composed onto a matrix with [`crate::matrix::DOMMatrix::compose`],
//! whose 2D flag survives only when the step itself is 2D.

use vstd::prelude::*;

use crate::coefficient::{coefficient_is_one, coefficient_is_zero, is_one, is_zero, ONE, ZERO};

verus! {

/// A translation by `(tx, ty, tz)` is 2D exactly when `tz` is zero.
pub fn translation_is_2d(tz: u64) -> (r: bool)
    ensures
        r == is_zero(tz),
{
    coefficient_is_zero(tz)
}

/// The factors of `scale(sx, sy, sz)`: `sx` defaults to one, `sy` to `sx`
/// and `sz` to one.
pub fn scale_factors(sx: Option<u64>, sy: Option<u64>, sz: Option<u64>) -> (r: (u64, u64, u64))
    ensures
        r.0 == (match sx {
            Some(x) => x,
            None => ONE,
        }),
        r.1 == (match sy {
            Some(y) => y,
            None => r.0,
        }),
        r.2 == (match sz {
            Some(z) => z,
            None => ONE,
        }),
{
    let x = match sx {
        Some(x) => x,
        None => ONE,
    };
    let y = match sy {
        Some(y) => y,
        None => x,
    };
    let z = match sz {
        Some(z) => z,
        None => ONE,
    };
    (x, y, z)
}

/// A scale about an origin is 2D exactly when its `z` factor is one and the
/// origin's `z` is zero.
pub fn scale_is_2d(sz: u64, origin_z: u64) -> (r: bool)
    ensures
        r == (is_one(sz) && is_zero(origin_z)),
{
    coefficient_is_one(sz) && coefficient_is_zero(origin_z)
}

/// The three angles of `rotate(rx, ry, rz)`, in the order `(x, y, z)`. A
/// call with one angle alone turns about the z axis by it; otherwise an
/// absent angle is zero.
pub fn rotation_angles(rx: u64, ry: Option<u64>, rz: Option<u64>) -> (r: (u64, u64, u64))
    ensures
        ry is None && rz is None ==> r == (ZERO, ZERO, rx),
        !(ry is None && rz is None) ==> r == (rx, match ry {
            Some(y) => y,
            None => ZERO,
        }, match rz {
            Some(z) => z,
            None => ZERO,
        }),
{
    match (ry, rz) {
        (None, None) => (ZERO, ZERO, rx),
        _ => {
            let y = match ry {
                Some(y) => y,
                None => ZERO,
            };
            let z = match rz {
                Some(z) => z,
                None => ZERO,
            };
            (rx, y, z)
        },
    }
}

/// A rotation by the angles `(rx, ry, rz)` is 2D exactly when it turns
/// about the z axis alone.
pub fn rotation_is_2d(rx: u64, ry: u64) -> (r: bool)
    ensures
        r == (is_zero(rx) && is_zero(ry)),
{
    coefficient_is_zero(rx) && coefficient_is_zero(ry)
}

/// A rotation about the normalized axis `(x, y, z)` is 2D exactly when the
/// axis is the z axis.
pub fn axis_rotation_is_2d(x: u64, y: u64) -> (r: bool)
    ensures
        r == (is_zero(x) && is_zero(y)),
{
    coefficient_is_zero(x) && coefficient_is_zero(y)
}

/// The vector `(x, y)` is zero and gives no direction: `rotateFromVector`
/// then turns by no angle.
pub fn is_zero_vector(x: u64, y: u64) -> (r: bool)
    ensures
        r == (is_zero(x) && is_zero(y)),
{
    coefficient_is_zero(x) && coefficient_is_zero(y)
}

} // verus!
