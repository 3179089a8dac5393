//! The 4x4 transform matrix and its 2D flag.
//!
//! Coefficients are laid out row-major, `m11` to `m44`, with the translation
//! in the last row. The six 2D-affine aliases `a` to `f` are `m11`, `m12`,
//! `m21`, `m22`, `m41` and `m42`.

use vstd::prelude::*;

use crate::coefficient::{coefficient_is_one, coefficient_is_zero, is_one, is_zero, NAN, ONE, ZERO};
use crate::error::MatrixError;

verus! {

pub const M11: usize = 0;
pub const M12: usize = 1;
pub const M13: usize = 2;
pub const M14: usize = 3;
pub const M21: usize = 4;
pub const M22: usize = 5;
pub const M23: usize = 6;
pub const M24: usize = 7;
pub const M31: usize = 8;
pub const M32: usize = 9;
pub const M33: usize = 10;
pub const M34: usize = 11;
pub const M41: usize = 12;
pub const M42: usize = 13;
pub const M43: usize = 14;
pub const M44: usize = 15;

pub const A: usize = M11;
pub const B: usize = M12;
pub const C: usize = M21;
pub const D: usize = M22;
pub const E: usize = M41;
pub const F: usize = M42;

/// The coefficients of a pure 2D affine transform: the out-of-plane slots
/// hold their identity values.
pub open spec fn flat(v: Seq<u64>) -> bool {
    &&& is_zero(v[M13 as int])
    &&& is_zero(v[M14 as int])
    &&& is_zero(v[M23 as int])
    &&& is_zero(v[M24 as int])
    &&& is_zero(v[M31 as int])
    &&& is_zero(v[M32 as int])
    &&& is_one(v[M33 as int])
    &&& is_zero(v[M34 as int])
    &&& is_zero(v[M43 as int])
    &&& is_one(v[M44 as int])
}

/// A slot on the main diagonal.
pub open spec fn on_diagonal(i: int) -> bool {
    i == M11 || i == M22 || i == M33 || i == M44
}

/// The identity matrix.
pub open spec fn identity_values() -> Seq<u64> {
    seq![
        ONE, ZERO, ZERO, ZERO,
        ZERO, ONE, ZERO, ZERO,
        ZERO, ZERO, ONE, ZERO,
        ZERO, ZERO, ZERO, ONE,
    ]
}

/// Every coefficient compares equal to the identity's.
pub open spec fn is_identity_values(v: Seq<u64>) -> bool {
    forall|i: int|
        0 <= i < 16 ==> if on_diagonal(i) {
            is_one(#[trigger] v[i])
        } else {
            is_zero(v[i])
        }
}

/// The identity with its six 2D-affine slots set from `six` (`a` to `f`).
pub open spec fn affine_values(six: Seq<u64>) -> Seq<u64> {
    identity_values().update(A as int, six[0]).update(B as int, six[1]).update(
        C as int,
        six[2],
    ).update(D as int, six[3]).update(E as int, six[4]).update(F as int, six[5])
}

/// `v` with its six 2D-affine slots set from `six`, the rest kept.
pub open spec fn with_affine(v: Seq<u64>, six: Seq<u64>) -> Seq<u64> {
    v.update(A as int, six[0]).update(B as int, six[1]).update(C as int, six[2]).update(
        D as int,
        six[3],
    ).update(E as int, six[4]).update(F as int, six[5])
}

/// The sixteen NaN coefficients of a singular inverse.
pub open spec fn singular_values() -> Seq<u64> {
    Seq::new(16, |i: int| NAN)
}

/// A transform matrix: sixteen coefficients, as binary64 encodings, and
/// whether the matrix is 2D.
///
/// Every constructor sets `is_2d` by the rule of [`flat`]; the setters of the
/// out-of-plane slots recompute it by the same rule, and a composition with a
/// 3D operand clears it.
#[derive(Clone, Copy, Debug)]
pub struct DOMMatrix {
    values: [u64; 16],
    is_2d: bool,
}

impl View for DOMMatrix {
    type V = Seq<u64>;

    closed spec fn view(&self) -> Seq<u64> {
        self.values@
    }
}

impl DOMMatrix {
    /// The 2D flag.
    pub closed spec fn spec_is_2d(&self) -> bool {
        self.is_2d
    }

    /// Whether the matrix is 2D.
    #[verifier::when_used_as_spec(spec_is_2d)]
    pub fn is_2d(&self) -> (r: bool)
        ensures
            r == self.spec_is_2d(),
    {
        self.is_2d
    }
}

/// Whether the sixteen coefficients describe a pure 2D transform.
pub fn is_2d_from_values(values: &[u64; 16]) -> (r: bool)
    ensures
        r == flat(values@),
{
    coefficient_is_zero(values[M13]) && coefficient_is_zero(values[M14])
        && coefficient_is_zero(values[M23]) && coefficient_is_zero(values[M24])
        && coefficient_is_zero(values[M31]) && coefficient_is_zero(values[M32])
        && coefficient_is_one(values[M33]) && coefficient_is_zero(values[M34])
        && coefficient_is_zero(values[M43]) && coefficient_is_one(values[M44])
}

impl DOMMatrix {
    /// The identity matrix, which is 2D.
    pub fn identity() -> (r: Self)
        ensures
            r@ == identity_values(),
            r.is_2d(),
    {
        let values = [
            ONE, ZERO, ZERO, ZERO,
            ZERO, ONE, ZERO, ZERO,
            ZERO, ZERO, ONE, ZERO,
            ZERO, ZERO, ZERO, ONE,
        ];
        let r = DOMMatrix { values, is_2d: true };
        assert(r@ =~= identity_values());
        r
    }

    /// The 2D matrix whose `a` to `f` are `values6`.
    pub fn from_values6(values6: [u64; 6]) -> (r: Self)
        ensures
            r@ == affine_values(values6@),
            r.is_2d(),
    {
        let mut m = DOMMatrix::identity();
        m.values[A] = values6[0];
        m.values[B] = values6[1];
        m.values[C] = values6[2];
        m.values[D] = values6[3];
        m.values[E] = values6[4];
        m.values[F] = values6[5];
        m.is_2d = true;
        assert(m@ =~= affine_values(values6@));
        m
    }

    /// The matrix with these sixteen coefficients, 2D when they are flat.
    pub fn from_values16(values16: [u64; 16]) -> (r: Self)
        ensures
            r@ == values16@,
            r.is_2d() == flat(values16@),
    {
        let is_2d = is_2d_from_values(&values16);
        DOMMatrix { values: values16, is_2d }
    }

    /// The matrix of a list of 6 coefficients (`a` to `f`) or of 16
    /// (`m11` to `m44`); any other length is refused.
    pub fn from_values(values: Vec<u64>) -> (r: Result<Self, MatrixError>)
        ensures
            values.len() == 6 ==> (r matches Ok(m) && m@ == affine_values(values@) && m.is_2d()),
            values.len() == 16 ==> (r matches Ok(m) && m@ == values@ && m.is_2d() == flat(
                values@,
            )),
            values.len() != 6 && values.len() != 16 ==> r == Err::<Self, MatrixError>(
                MatrixError::InvalidArgument { count: values.len() },
            ),
    {
        if values.len() == 6 {
            let mut arr = [ZERO; 6];
            let mut i: usize = 0;
            while i < 6
                invariant
                    i <= 6,
                    values.len() == 6,
                    forall|j: int| 0 <= j < i ==> arr@[j] == values@[j],
                decreases 6 - i,
            {
                arr[i] = values[i];
                i = i + 1;
            }
            assert(arr@ =~= values@);
            Ok(DOMMatrix::from_values6(arr))
        } else if values.len() == 16 {
            let mut arr = [ZERO; 16];
            let mut i: usize = 0;
            while i < 16
                invariant
                    i <= 16,
                    values.len() == 16,
                    forall|j: int| 0 <= j < i ==> arr@[j] == values@[j],
                decreases 16 - i,
            {
                arr[i] = values[i];
                i = i + 1;
            }
            assert(arr@ =~= values@);
            Ok(DOMMatrix::from_values16(arr))
        } else {
            Err(MatrixError::InvalidArgument { count: values.len() })
        }
    }
}

impl DOMMatrix {
    /// Writes slot `i`; the 2D flag is left alone.
    fn write_slot(&mut self, i: usize, value: u64)
        requires
            i < 16,
        ensures
            final(self)@ == old(self)@.update(i as int, value),
            final(self).is_2d() == old(self).is_2d(),
    {
        self.values[i] = value;
    }

    /// Writes out-of-plane slot `i` and recomputes the 2D flag from the
    /// coefficients.
    fn write_out_of_plane_slot(&mut self, i: usize, value: u64)
        requires
            i < 16,
        ensures
            final(self)@ == old(self)@.update(i as int, value),
            final(self).is_2d() == flat(final(self)@),
    {
        self.values[i] = value;
        self.is_2d = is_2d_from_values(&self.values);
    }

    /// Coefficient `a` (`m11`).
    pub fn get_a(&self) -> (r: u64)
        ensures
            r == self@[A as int],
    {
        self.values[A]
    }

    /// Sets `a` (`m11`), a 2D-affine slot: the 2D flag is kept.
    pub fn set_a(&mut self, value: u64)
        ensures
            final(self)@ == old(self)@.update(A as int, value),
            final(self).is_2d() == old(self).is_2d(),
    {
        self.write_slot(A, value);
    }

    /// Coefficient `b` (`m12`).
    pub fn get_b(&self) -> (r: u64)
        ensures
            r == self@[B as int],
    {
        self.values[B]
    }

    /// Sets `b` (`m12`), a 2D-affine slot: the 2D flag is kept.
    pub fn set_b(&mut self, value: u64)
        ensures
            final(self)@ == old(self)@.update(B as int, value),
            final(self).is_2d() == old(self).is_2d(),
    {
        self.write_slot(B, value);
    }

    /// Coefficient `c` (`m21`).
    pub fn get_c(&self) -> (r: u64)
        ensures
            r == self@[C as int],
    {
        self.values[C]
    }

    /// Sets `c` (`m21`), a 2D-affine slot: the 2D flag is kept.
    pub fn set_c(&mut self, value: u64)
        ensures
            final(self)@ == old(self)@.update(C as int, value),
            final(self).is_2d() == old(self).is_2d(),
    {
        self.write_slot(C, value);
    }

    /// Coefficient `d` (`m22`).
    pub fn get_d(&self) -> (r: u64)
        ensures
            r == self@[D as int],
    {
        self.values[D]
    }

    /// Sets `d` (`m22`), a 2D-affine slot: the 2D flag is kept.
    pub fn set_d(&mut self, value: u64)
        ensures
            final(self)@ == old(self)@.update(D as int, value),
            final(self).is_2d() == old(self).is_2d(),
    {
        self.write_slot(D, value);
    }

    /// Coefficient `e` (`m41`).
    pub fn get_e(&self) -> (r: u64)
        ensures
            r == self@[E as int],
    {
        self.values[E]
    }

    /// Sets `e` (`m41`), a 2D-affine slot: the 2D flag is kept.
    pub fn set_e(&mut self, value: u64)
        ensures
            final(self)@ == old(self)@.update(E as int, value),
            final(self).is_2d() == old(self).is_2d(),
    {
        self.write_slot(E, value);
    }

    /// Coefficient `f` (`m42`).
    pub fn get_f(&self) -> (r: u64)
        ensures
            r == self@[F as int],
    {
        self.values[F]
    }

    /// Sets `f` (`m42`), a 2D-affine slot: the 2D flag is kept.
    pub fn set_f(&mut self, value: u64)
        ensures
            final(self)@ == old(self)@.update(F as int, value),
            final(self).is_2d() == old(self).is_2d(),
    {
        self.write_slot(F, value);
    }

    /// Coefficient `m11`.
    pub fn get_m11(&self) -> (r: u64)
        ensures
            r == self@[M11 as int],
    {
        self.values[M11]
    }

    /// Sets `m11`, a 2D-affine slot: the 2D flag is kept.
    pub fn set_m11(&mut self, value: u64)
        ensures
            final(self)@ == old(self)@.update(M11 as int, value),
            final(self).is_2d() == old(self).is_2d(),
    {
        self.write_slot(M11, value);
    }

    /// Coefficient `m12`.
    pub fn get_m12(&self) -> (r: u64)
        ensures
            r == self@[M12 as int],
    {
        self.values[M12]
    }

    /// Sets `m12`, a 2D-affine slot: the 2D flag is kept.
    pub fn set_m12(&mut self, value: u64)
        ensures
            final(self)@ == old(self)@.update(M12 as int, value),
            final(self).is_2d() == old(self).is_2d(),
    {
        self.write_slot(M12, value);
    }

    /// Coefficient `m13`.
    pub fn get_m13(&self) -> (r: u64)
        ensures
            r == self@[M13 as int],
    {
        self.values[M13]
    }

    /// Sets `m13`, an out-of-plane slot: the 2D flag is recomputed.
    pub fn set_m13(&mut self, value: u64)
        ensures
            final(self)@ == old(self)@.update(M13 as int, value),
            final(self).is_2d() == flat(final(self)@),
    {
        self.write_out_of_plane_slot(M13, value);
    }

    /// Coefficient `m14`.
    pub fn get_m14(&self) -> (r: u64)
        ensures
            r == self@[M14 as int],
    {
        self.values[M14]
    }

    /// Sets `m14`, an out-of-plane slot: the 2D flag is recomputed.
    pub fn set_m14(&mut self, value: u64)
        ensures
            final(self)@ == old(self)@.update(M14 as int, value),
            final(self).is_2d() == flat(final(self)@),
    {
        self.write_out_of_plane_slot(M14, value);
    }

    /// Coefficient `m21`.
    pub fn get_m21(&self) -> (r: u64)
        ensures
            r == self@[M21 as int],
    {
        self.values[M21]
    }

    /// Sets `m21`, a 2D-affine slot: the 2D flag is kept.
    pub fn set_m21(&mut self, value: u64)
        ensures
            final(self)@ == old(self)@.update(M21 as int, value),
            final(self).is_2d() == old(self).is_2d(),
    {
        self.write_slot(M21, value);
    }

    /// Coefficient `m22`.
    pub fn get_m22(&self) -> (r: u64)
        ensures
            r == self@[M22 as int],
    {
        self.values[M22]
    }

    /// Sets `m22`, a 2D-affine slot: the 2D flag is kept.
    pub fn set_m22(&mut self, value: u64)
        ensures
            final(self)@ == old(self)@.update(M22 as int, value),
            final(self).is_2d() == old(self).is_2d(),
    {
        self.write_slot(M22, value);
    }

    /// Coefficient `m23`.
    pub fn get_m23(&self) -> (r: u64)
        ensures
            r == self@[M23 as int],
    {
        self.values[M23]
    }

    /// Sets `m23`, an out-of-plane slot: the 2D flag is recomputed.
    pub fn set_m23(&mut self, value: u64)
        ensures
            final(self)@ == old(self)@.update(M23 as int, value),
            final(self).is_2d() == flat(final(self)@),
    {
        self.write_out_of_plane_slot(M23, value);
    }

    /// Coefficient `m24`.
    pub fn get_m24(&self) -> (r: u64)
        ensures
            r == self@[M24 as int],
    {
        self.values[M24]
    }

    /// Sets `m24`, an out-of-plane slot: the 2D flag is recomputed.
    pub fn set_m24(&mut self, value: u64)
        ensures
            final(self)@ == old(self)@.update(M24 as int, value),
            final(self).is_2d() == flat(final(self)@),
    {
        self.write_out_of_plane_slot(M24, value);
    }

    /// Coefficient `m31`.
    pub fn get_m31(&self) -> (r: u64)
        ensures
            r == self@[M31 as int],
    {
        self.values[M31]
    }

    /// Sets `m31`, an out-of-plane slot: the 2D flag is recomputed.
    pub fn set_m31(&mut self, value: u64)
        ensures
            final(self)@ == old(self)@.update(M31 as int, value),
            final(self).is_2d() == flat(final(self)@),
    {
        self.write_out_of_plane_slot(M31, value);
    }

    /// Coefficient `m32`.
    pub fn get_m32(&self) -> (r: u64)
        ensures
            r == self@[M32 as int],
    {
        self.values[M32]
    }

    /// Sets `m32`, an out-of-plane slot: the 2D flag is recomputed.
    pub fn set_m32(&mut self, value: u64)
        ensures
            final(self)@ == old(self)@.update(M32 as int, value),
            final(self).is_2d() == flat(final(self)@),
    {
        self.write_out_of_plane_slot(M32, value);
    }

    /// Coefficient `m33`.
    pub fn get_m33(&self) -> (r: u64)
        ensures
            r == self@[M33 as int],
    {
        self.values[M33]
    }

    /// Sets `m33`, an out-of-plane slot: the 2D flag is recomputed.
    pub fn set_m33(&mut self, value: u64)
        ensures
            final(self)@ == old(self)@.update(M33 as int, value),
            final(self).is_2d() == flat(final(self)@),
    {
        self.write_out_of_plane_slot(M33, value);
    }

    /// Coefficient `m34`.
    pub fn get_m34(&self) -> (r: u64)
        ensures
            r == self@[M34 as int],
    {
        self.values[M34]
    }

    /// Sets `m34`, an out-of-plane slot: the 2D flag is recomputed.
    pub fn set_m34(&mut self, value: u64)
        ensures
            final(self)@ == old(self)@.update(M34 as int, value),
            final(self).is_2d() == flat(final(self)@),
    {
        self.write_out_of_plane_slot(M34, value);
    }

    /// Coefficient `m41`.
    pub fn get_m41(&self) -> (r: u64)
        ensures
            r == self@[M41 as int],
    {
        self.values[M41]
    }

    /// Sets `m41`, a 2D-affine slot: the 2D flag is kept.
    pub fn set_m41(&mut self, value: u64)
        ensures
            final(self)@ == old(self)@.update(M41 as int, value),
            final(self).is_2d() == old(self).is_2d(),
    {
        self.write_slot(M41, value);
    }

    /// Coefficient `m42`.
    pub fn get_m42(&self) -> (r: u64)
        ensures
            r == self@[M42 as int],
    {
        self.values[M42]
    }

    /// Sets `m42`, a 2D-affine slot: the 2D flag is kept.
    pub fn set_m42(&mut self, value: u64)
        ensures
            final(self)@ == old(self)@.update(M42 as int, value),
            final(self).is_2d() == old(self).is_2d(),
    {
        self.write_slot(M42, value);
    }

    /// Coefficient `m43`.
    pub fn get_m43(&self) -> (r: u64)
        ensures
            r == self@[M43 as int],
    {
        self.values[M43]
    }

    /// Sets `m43`, an out-of-plane slot: the 2D flag is recomputed.
    pub fn set_m43(&mut self, value: u64)
        ensures
            final(self)@ == old(self)@.update(M43 as int, value),
            final(self).is_2d() == flat(final(self)@),
    {
        self.write_out_of_plane_slot(M43, value);
    }

    /// Coefficient `m44`.
    pub fn get_m44(&self) -> (r: u64)
        ensures
            r == self@[M44 as int],
    {
        self.values[M44]
    }

    /// Sets `m44`, an out-of-plane slot: the 2D flag is recomputed.
    pub fn set_m44(&mut self, value: u64)
        ensures
            final(self)@ == old(self)@.update(M44 as int, value),
            final(self).is_2d() == flat(final(self)@),
    {
        self.write_out_of_plane_slot(M44, value);
    }
}

impl DOMMatrix {
    /// Whether every coefficient compares equal to the identity's.
    pub fn get_is_identity(&self) -> (r: bool)
        ensures
            r == is_identity_values(self@),
    {
        let v = &self.values;
        let r = coefficient_is_one(v[M11]) && coefficient_is_zero(v[M12])
            && coefficient_is_zero(v[M13]) && coefficient_is_zero(v[M14])
            && coefficient_is_zero(v[M21]) && coefficient_is_one(v[M22])
            && coefficient_is_zero(v[M23]) && coefficient_is_zero(v[M24])
            && coefficient_is_zero(v[M31]) && coefficient_is_zero(v[M32])
            && coefficient_is_one(v[M33]) && coefficient_is_zero(v[M34])
            && coefficient_is_zero(v[M41]) && coefficient_is_zero(v[M42])
            && coefficient_is_zero(v[M43]) && coefficient_is_one(v[M44]);
        assert(r == is_identity_values(self@)) by {
            if r {
                assert forall|i: int| 0 <= i < 16 implies if on_diagonal(i) {
                    is_one(#[trigger] self@[i])
                } else {
                    is_zero(self@[i])
                } by {}
            }
        }
        r
    }

    /// Exact comparison: the same sixteen encodings, bit for bit, and the
    /// same 2D flag. No tolerance is applied.
    pub fn __eq__(&self, other: &DOMMatrix) -> (r: bool)
        ensures
            r == (self@ == other@ && self.is_2d() == other.is_2d()),
    {
        let mut i: usize = 0;
        while i < 16
            invariant
                i <= 16,
                forall|j: int| 0 <= j < i ==> self@[j] == other@[j],
            decreases 16 - i,
        {
            if self.values[i] != other.values[i] {
                return false;
            }
            i = i + 1;
        }
        assert(self@ =~= other@);
        self.is_2d == other.is_2d
    }

    /// The sixteen coefficients in row-major order.
    pub fn _to_float_array(&self) -> (r: Vec<u64>)
        ensures
            r@ == self@,
    {
        let mut r: Vec<u64> = Vec::new();
        let mut i: usize = 0;
        while i < 16
            invariant
                i <= 16,
                r@ == self@.take(i as int),
            decreases 16 - i,
        {
            r.push(self.values[i]);
            i = i + 1;
            assert(r@ =~= self@.take(i as int));
        }
        assert(self@.take(16) =~= self@);
        r
    }

    /// Takes on the coefficients of a composition of this matrix with an
    /// operand, computed by the caller, as one update: the 2D flag survives
    /// only when the operand is 2D too.
    pub fn compose(&mut self, product: [u64; 16], operand_is_2d: bool)
        ensures
            final(self)@ == product@,
            final(self).is_2d() == (old(self).is_2d() && operand_is_2d),
    {
        self.values = product;
        if !operand_is_2d {
            self.is_2d = false;
        }
    }

    /// Inversion, given the determinant `ad - bc` of the 2D part and, when
    /// it is not zero, the six coefficients of the 2D inverse.
    ///
    /// A 3D matrix is refused and left as it is. A 2D matrix with a zero
    /// determinant becomes the singular matrix: sixteen NaN, not 2D. Any
    /// other 2D matrix takes `inverse6` as its `a` to `f` and stays 2D.
    pub fn apply_inverse(&mut self, det: u64, inverse6: [u64; 6]) -> (r: Result<(), MatrixError>)
        ensures
            !old(self).is_2d() ==> r == Err::<(), MatrixError>(MatrixError::NotSupported)
                && *final(self) == *old(self),
            old(self).is_2d() && is_zero(det) ==> r is Ok && final(self)@ == singular_values()
                && !final(self).is_2d(),
            old(self).is_2d() && !is_zero(det) ==> r is Ok && final(self)@ == with_affine(
                old(self)@,
                inverse6@,
            ) && final(self).is_2d(),
    {
        if !self.is_2d {
            return Err(MatrixError::NotSupported);
        }
        if coefficient_is_zero(det) {
            self.values = [NAN; 16];
            self.is_2d = false;
            assert(self@ =~= singular_values());
            return Ok(());
        }
        self.values[A] = inverse6[0];
        self.values[B] = inverse6[1];
        self.values[C] = inverse6[2];
        self.values[D] = inverse6[3];
        self.values[E] = inverse6[4];
        self.values[F] = inverse6[5];
        Ok(())
    }
}

/// `parts` joined by `", "`.
pub open spec fn join(parts: Seq<Seq<char>>) -> Seq<char>
    decreases parts.len(),
{
    if parts.len() == 0 {
        Seq::empty()
    } else if parts.len() == 1 {
        parts[0]
    } else {
        join(parts.drop_last()) + ", "@ + parts.last()
    }
}

/// The CSS text of a matrix whose coefficients render as `texts`:
/// `matrix(a, b, c, d, e, f)` when it is 2D, else `matrix3d(` and all
/// sixteen in row-major order, then `)`.
pub open spec fn css_text(is_2d: bool, texts: Seq<Seq<char>>) -> Seq<char> {
    if is_2d {
        "matrix("@ + join(
            seq![texts[A as int], texts[B as int], texts[C as int], texts[D as int], texts[E as int], texts[F as int]],
        ) + ")"@
    } else {
        "matrix3d("@ + join(texts) + ")"@
    }
}

/// Appends the texts of `slots`, in order, joined by `", "`.
fn append_joined(out: &mut String, texts: &Vec<String>, slots: &[usize])
    requires
        forall|i: int| 0 <= i < slots@.len() ==> #[trigger] slots@[i] < texts@.len(),
    ensures
        final(out)@ == old(out)@ + join(
            slots@.map_values(|i: usize| texts@[i as int]@),
        ),
{
    let ghost start = out@;
    let ghost parts = slots@.map_values(|i: usize| texts@[i as int]@);
    let mut k: usize = 0;
    while k < slots.len()
        invariant
            k <= slots@.len(),
            forall|i: int| 0 <= i < slots@.len() ==> #[trigger] slots@[i] < texts@.len(),
            parts == slots@.map_values(|i: usize| texts@[i as int]@),
            out@ == start + join(parts.take(k as int)),
        decreases slots.len() - k,
    {
        let ghost before = out@;
        if k > 0 {
            out.append(", ");
        }
        out.append(texts[slots[k]].as_str());
        proof {
            let next = parts.take(k + 1);
            assert(next.drop_last() =~= parts.take(k as int));
            if k == 0 {
                assert(join(parts.take(0)) =~= Seq::<char>::empty());
                assert(out@ =~= start + join(next));
            } else {
                assert(out@ =~= start + join(next));
            }
        }
        k = k + 1;
    }
    assert(parts.take(slots@.len() as int) =~= parts);
}

impl DOMMatrix {
    /// A copy of `other`, its 2D flag recomputed from its coefficients.
    pub fn from_matrix(other: &DOMMatrix) -> (r: Self)
        ensures
            r@ == other@,
            r.is_2d() == flat(other@),
    {
        DOMMatrix::from_values16(other.values)
    }

    /// The matrix of a list of 6 or 16 coefficients, as [`DOMMatrix::from_values`].
    pub fn from_float_array(array: Vec<u64>) -> (r: Result<Self, MatrixError>)
        ensures
            array.len() == 6 ==> (r matches Ok(m) && m@ == affine_values(array@) && m.is_2d()),
            array.len() == 16 ==> (r matches Ok(m) && m@ == array@ && m.is_2d() == flat(array@)),
            array.len() != 6 && array.len() != 16 ==> r == Err::<Self, MatrixError>(
                MatrixError::InvalidArgument { count: array.len() },
            ),
    {
        DOMMatrix::from_values(array)
    }

    /// The CSS text of the matrix, given the decimal text of each of its
    /// sixteen coefficients in row-major order.
    pub fn to_css_string(&self, texts: &Vec<String>) -> (r: String)
        requires
            texts@.len() == 16,
        ensures
            r@ == css_text(self.is_2d(), texts@.map_values(|t: String| t@)),
    {
        let ghost views = texts@.map_values(|t: String| t@);
        if self.is_2d {
            let mut out = String::from_str("matrix(");
            let slots = [A, B, C, D, E, F];
            append_joined(&mut out, texts, &slots);
            out.append(")");
            assert(slots@.map_values(|i: usize| texts@[i as int]@) =~= seq![
                views[A as int],
                views[B as int],
                views[C as int],
                views[D as int],
                views[E as int],
                views[F as int],
            ]);
            out
        } else {
            let mut out = String::from_str("matrix3d(");
            let slots = [
                M11, M12, M13, M14, M21, M22, M23, M24, M31, M32, M33, M34, M41, M42, M43, M44,
            ];
            append_joined(&mut out, texts, &slots);
            out.append(")");
            assert(slots@.map_values(|i: usize| texts@[i as int]@) =~= views);
            out
        }
    }
}

/// One of the ten out-of-plane slots, which hold their identity values in a
/// 2D matrix.
pub open spec fn out_of_plane(i: int) -> bool {
    i == M13 || i == M14 || i == M23 || i == M24 || i == M31 || i == M32 || i == M33 || i == M34
        || i == M43 || i == M44
}

/// The identity is 2D and every coefficient of it equals the identity's,
/// so `identity().get_is_identity()` holds.
pub proof fn lemma_identity_is_identity()
    ensures
        flat(identity_values()),
        is_identity_values(identity_values()),
{
    assert forall|i: int| 0 <= i < 16 implies if on_diagonal(i) {
        is_one(#[trigger] identity_values()[i])
    } else {
        is_zero(identity_values()[i])
    } by {}
}

/// Every matrix has sixteen coefficients.
pub proof fn lemma_view_len(m: &DOMMatrix)
    ensures
        m@.len() == 16,
{
}

/// Writing into an out-of-plane slot of any matrix a value that differs
/// from the identity's leaves coefficients that are not flat: the setter of
/// that slot then clears the 2D flag, and inversion refuses the matrix.
pub proof fn lemma_out_of_plane_write_is_3d(m: &DOMMatrix, i: int, value: u64)
    requires
        out_of_plane(i),
        if on_diagonal(i) {
            !is_one(value)
        } else {
            !is_zero(value)
        },
    ensures
        m@.update(i, value)[i] == value,
        !flat(m@.update(i, value)),
{
    lemma_view_len(m);
    assert(m@.update(i, value)[i] == value);
}

/// Six coefficients always make a flat matrix, whatever their values: the
/// 2D flag that `from_values6` sets agrees with the rule of [`flat`].
pub proof fn lemma_affine_is_flat(six: Seq<u64>)
    requires
        six.len() == 6,
    ensures
        flat(affine_values(six)),
{
}

/// A decimal digit from 1 to 4.
pub open spec fn digit_char(d: int) -> char {
    if d == 1 {
        '1'
    } else if d == 2 {
        '2'
    } else if d == 3 {
        '3'
    } else {
        '4'
    }
}

/// The name of slot `i`: `m`, then its row, then its column, from 1 to 4.
pub open spec fn m_name(i: int) -> Seq<char> {
    seq!['m', digit_char(i / 4 + 1), digit_char(i % 4 + 1)]
}

/// The encoding of a flag as a number: one for true, zero for false.
pub open spec fn flag_value(b: bool) -> u64 {
    if b {
        ONE
    } else {
        ZERO
    }
}

impl DOMMatrix {
    /// The structured form: `a` to `f`, `m11` to `m44`, `is2D` and
    /// `isIdentity`, in that order; each value the encoding of its double.
    pub fn to_json_entries(&self) -> (r: Vec<(String, u64)>)
        ensures
            r@.len() == 24,
            r@[0].0@ == "a"@ && r@[0].1 == self@[A as int],
            r@[1].0@ == "b"@ && r@[1].1 == self@[B as int],
            r@[2].0@ == "c"@ && r@[2].1 == self@[C as int],
            r@[3].0@ == "d"@ && r@[3].1 == self@[D as int],
            r@[4].0@ == "e"@ && r@[4].1 == self@[E as int],
            r@[5].0@ == "f"@ && r@[5].1 == self@[F as int],
            forall|i: int|
                0 <= i < 16 ==> (#[trigger] r@[6 + i]).0@ == m_name(i) && r@[6 + i].1 == self@[i],
            r@[22].0@ == "is2D"@ && r@[22].1 == flag_value(self.is_2d()),
            r@[23].0@ == "isIdentity"@ && r@[23].1 == flag_value(is_identity_values(self@)),
    {
        let mut r: Vec<(String, u64)> = Vec::new();
        r.push((String::from_str("a"), self.values[A]));
        r.push((String::from_str("b"), self.values[B]));
        r.push((String::from_str("c"), self.values[C]));
        r.push((String::from_str("d"), self.values[D]));
        r.push((String::from_str("e"), self.values[E]));
        r.push((String::from_str("f"), self.values[F]));
        let names: [&str; 16] = [
            "m11", "m12", "m13", "m14", "m21", "m22", "m23", "m24", "m31", "m32", "m33", "m34", "m41", "m42", "m43", "m44",
        ];
        proof {
            reveal_strlit("m11");
            assert(names@[0]@ =~= m_name(0));
            reveal_strlit("m12");
            assert(names@[1]@ =~= m_name(1));
            reveal_strlit("m13");
            assert(names@[2]@ =~= m_name(2));
            reveal_strlit("m14");
            assert(names@[3]@ =~= m_name(3));
            reveal_strlit("m21");
            assert(names@[4]@ =~= m_name(4));
            reveal_strlit("m22");
            assert(names@[5]@ =~= m_name(5));
            reveal_strlit("m23");
            assert(names@[6]@ =~= m_name(6));
            reveal_strlit("m24");
            assert(names@[7]@ =~= m_name(7));
            reveal_strlit("m31");
            assert(names@[8]@ =~= m_name(8));
            reveal_strlit("m32");
            assert(names@[9]@ =~= m_name(9));
            reveal_strlit("m33");
            assert(names@[10]@ =~= m_name(10));
            reveal_strlit("m34");
            assert(names@[11]@ =~= m_name(11));
            reveal_strlit("m41");
            assert(names@[12]@ =~= m_name(12));
            reveal_strlit("m42");
            assert(names@[13]@ =~= m_name(13));
            reveal_strlit("m43");
            assert(names@[14]@ =~= m_name(14));
            reveal_strlit("m44");
            assert(names@[15]@ =~= m_name(15));
            assert forall|j: int| 0 <= j < 16 implies names@[j]@ == m_name(j) by {
                assert(j == 0 || j == 1 || j == 2 || j == 3 || j == 4 || j == 5 || j == 6 || j == 7 || j == 8 || j == 9 || j == 10 || j == 11 || j == 12 || j == 13 || j == 14 || j == 15);
            }
        }
        let mut i: usize = 0;
        while i < 16
            invariant
                i <= 16,
                r@.len() == 6 + i,
                r@[0].0@ == "a"@ && r@[0].1 == self@[A as int],
                r@[1].0@ == "b"@ && r@[1].1 == self@[B as int],
                r@[2].0@ == "c"@ && r@[2].1 == self@[C as int],
                r@[3].0@ == "d"@ && r@[3].1 == self@[D as int],
                r@[4].0@ == "e"@ && r@[4].1 == self@[E as int],
                r@[5].0@ == "f"@ && r@[5].1 == self@[F as int],
                forall|j: int| 0 <= j < 16 ==> names@[j]@ == m_name(j),
                forall|j: int|
                    0 <= j < i ==> (#[trigger] r@[6 + j]).0@ == m_name(j) && r@[6 + j].1 == self@[j],
            decreases 16 - i,
        {
            r.push((String::from_str(names[i]), self.values[i]));
            i = i + 1;
        }
        let flag = if self.is_2d {
            ONE
        } else {
            ZERO
        };
        r.push((String::from_str("is2D"), flag));
        let identity = if self.get_is_identity() {
            ONE
        } else {
            ZERO
        };
        r.push((String::from_str("isIdentity"), identity));
        r
    }
}

} // verus!
