//! What the library reports when it refuses an input.

use vstd::prelude::*;

verus! {

/// A matrix or vector whose shape an operation cannot take.
#[derive(Clone, Copy, Debug, PartialEq, Eq)]
pub enum ShapeError {
    /// There is no row, or no column.
    Empty,
    /// The rows differ in length.
    Ragged,
    /// The cells would take more bytes than the machine can address.
    TooLarge,
    /// A row, a column or a number of columns lies outside the matrix.
    OutOfRange,
    /// Two shapes that must agree do not.
    Mismatch,
}

/// A hyperparameter that the robust estimator cannot run with.
#[derive(Clone, Copy, Debug, PartialEq, Eq)]
pub enum ConfigError {
    /// The bound on the number of iterations is zero.
    MaxIterationsZero,
    /// The tolerance is not greater than zero.
    ToleranceNotPositive,
    /// The penalty `mu` is not greater than zero.
    MuNotPositive,
    /// The weight `lambda` is not greater than zero.
    LambdaNotPositive,
}

/// Why a fit produced no model.
#[derive(Clone, Copy, Debug, PartialEq, Eq)]
pub enum FitError {
    /// The data hold a cell that is no real number: an infinity, or no
    /// number at all.
    NonFiniteInput,
    /// The data are all zero, or their norm is zero: the relative residual
    /// would divide by zero.
    DegenerateInput,
    /// The norm of the data or a residual is no real number, or the target
    /// of a fit is no number.
    NumericalFailure,
    /// The decomposition of a matrix did not succeed.
    DecompositionFailed,
    /// What a step of the arithmetic handed back has not the shape that the
    /// data call for.
    ShapeMismatch,
}

} // verus!
