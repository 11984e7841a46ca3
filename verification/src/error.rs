//! Error types surfaced by the geometric core.
//!
//! Every failure is a deterministic function of the inputs and is reported
//! synchronously; no operation silently produces a wrong value.

use vstd::prelude::*;

verus! {

/// A numeric operation could not produce an exact result.
#[derive(Clone, Copy, Debug, PartialEq, Eq, Structural)]
pub enum NumericError {
    /// Matrix inversion was asked of a matrix whose determinant is zero.
    Singular,
    /// Division by a zero scalar.
    DivisionByZero,
    /// Normalization of a zero-length vector.
    ZeroLength,
    /// The exact result does not fit in the fixed-width representation.
    Overflow,
    /// The exact result is not a representable rational (an inexact root).
    NotRepresentable,
}

/// An operation was given fewer points than it needs.
#[derive(Clone, Copy, Debug, PartialEq, Eq, Structural)]
pub enum PreconditionError {
    /// A point set that must not be empty was empty.
    TooFewPoints,
}

/// Either kind of failure, for operations that can meet both.
#[derive(Clone, Copy, Debug, PartialEq, Eq, Structural)]
pub enum Error {
    Numeric(NumericError),
    Precondition(PreconditionError),
}

} // verus!
