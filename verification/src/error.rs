use vstd::prelude::*;

verus! {

/// Every way an operation of this library can fail. All failures are
/// recoverable and are reported to the immediate caller; no operation
/// terminates the program.
#[derive(Clone, Copy, Debug, PartialEq, Eq, Structural)]
pub enum MathError {
    /// Vector or matrix dimensions disagree for the requested binary
    /// operation.
    ShapeMismatch,
    /// A constructor was given an element sequence whose length disagrees
    /// with the requested shape.
    DimensionMismatch,
    /// An index exceeds the extent of the matrix.
    OutOfBounds,
    /// An inner product was requested between two vectors of the same
    /// orientation.
    IncompatibleOrientation,
    /// A Kronecker product was requested with a zero-sized operand.
    InvalidDimension,
    /// An eigen-operation was requested on a non-square matrix.
    NotQuadratic,
    /// A complex division whose denominator is within the near-zero
    /// threshold of the scalar type.
    DivisionByZero,
    /// QR iteration exhausted its iteration budget without reaching an
    /// upper-triangular form.
    NonConvergence,
}

} // verus!
