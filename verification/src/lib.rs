//! Principal component analysis and robust principal component analysis of
//! dense matrices.
//!
//! The crate holds the rules of the two estimators, and Verus proves what
//! their contracts say: which inputs a fit takes and which it refuses, how
//! many components the analysis keeps, in which order the steps of a robust
//! update run and when the iteration stops, what the soft threshold makes of
//! a cell, and what a fitted model holds.
//!
//! A number is carried as its binary64 bit pattern, a [`Scalar`]. To
//! classify, to order and to negate a number is exact on the pattern, and is
//! done here. Arithmetic is not: sums, products, norms and the singular
//! value decomposition are functions that the caller hands to the
//! estimators, and the contracts say what the estimators make of whatever
//! these functions give.

#![allow(non_snake_case, non_camel_case_types)]

pub mod error;
mod grid;
pub mod hyperparameters;
pub mod matrix;
pub mod pca;
pub mod primitives;
pub mod rpca;
pub mod scalar;

pub use error::{ConfigError, FitError, ShapeError};
pub use hyperparameters::{rPCAHyperParams, rPCAHyperParamsBuilder};
pub use matrix::{delete_row_and_column, Matrix, Vector};
pub use pca::{select_components, Spectrum, PCA};
pub use primitives::{sign, Do, Factors, So};
pub use rpca::{rPCA, Admm, Ascent, Iterate, Progress, Residue, Update};
pub use scalar::Scalar;
