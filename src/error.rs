//! Errors of the matrix engine.

use vstd::prelude::*;

verus! {

/// Why a matrix could not be built, parsed or inverted.
///
/// A singular 2D inverse is no error: it yields a matrix of NaN coefficients.
#[derive(Debug, Clone, PartialEq, Eq)]
pub enum MatrixError {
    /// A coefficient list whose length is neither 6 nor 16.
    InvalidArgument { count: usize },
    /// A transform-list segment that could not be read. `segment` is the
    /// segment as it was examined, closing parenthesis included;
    /// `unknown_function` tells a function other than `matrix` and `matrix3d`
    /// apart from a malformed argument list.
    ParseError { segment: String, unknown_function: bool },
    /// Inversion of a matrix that is not 2D.
    NotSupported,
}

} // verus!
