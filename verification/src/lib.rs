//! A small linear-algebra engine over a complex-number field: a `Complex`
//! scalar type, a typed `Vector` (row or column), and a `Matrix` built from
//! row vectors, together with the operations needed for orthonormalization
//! and QR-iteration eigenvalue extraction.
//!
//! The crate is generic over the representation of a real number: the
//! [`scalar::Scalar`] trait declares the arithmetic a real coefficient must
//! support, and every operation of the library is specified and verified
//! against that abstract arithmetic. A caller supplies the concrete number
//! type (typically an IEEE floating-point representation).

pub mod complex;
pub mod error;
pub mod matrix;
pub mod scalar;
pub mod vector;
