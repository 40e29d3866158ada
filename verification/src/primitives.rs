//! The numerical primitives: the sign and the soft threshold of every cell
//! of a matrix, and the shrinkage of its singular values.
//!
//! The subtraction of the threshold, the decomposition of a matrix and the
//! product of its factors are arithmetic on real numbers, and are the
//! caller's.

use vstd::prelude::*;
use crate::error::{FitError, ShapeError};
use crate::matrix::{all_finite, is_table, least, shaped, Matrix, Vector};
use crate::scalar::{lemma_shrink_by_zero, Scalar};

verus! {

/// The sign of every cell: a matrix of the shape of `X` whose cell is one
/// where that of `X` is above zero, zero where it is zero, and minus one
/// where it is below zero.
pub fn sign(X: &Matrix) -> (out: Matrix)
    ensures
        out.wf(),
        is_table(out@, X.spec_rows(), X.spec_cols()),
        forall|i: int, j: int|
            0 <= i < X.spec_rows() && 0 <= j < X.spec_cols() ==> (#[trigger] out@[i][j]) == X@[i][j].spec_sign(),
{
    let rows: usize = X.rows();
    let cols: usize = X.cols();
    let cell = |i: usize, j: usize| -> (v: u64)
        requires
            i < rows,
            j < cols,
        ensures
            v == X@[i as int][j as int].spec_sign().bits,
        {
            let s: Scalar = X.get(i, j);
            s.sign().to_bits()
        };
    Matrix::tabulate(rows, cols, cell)
}

/// Whether `out` holds the soft threshold of every cell of `X`, where each
/// cell of `excess` is the absolute value of that cell of `X` less the
/// threshold: the excess where it is above zero, with the sign of the cell
/// of `X`, and zero elsewhere.
pub open spec fn thresholded(out: Matrix, excess: Matrix, X: Matrix) -> bool {
    &&& shaped(out, X.spec_rows(), X.spec_cols())
    &&& forall|i: int, j: int|
        0 <= i < X.spec_rows() && 0 <= j < X.spec_cols() ==> (#[trigger] out@[i][j]) == X@[i][j].spec_shrink(
            excess@[i][j],
        )
}

/// The soft threshold of every cell of `X`, where each cell of `excess` is
/// the absolute value of that cell of `X` less the threshold. It refuses an
/// `excess` that has not the shape of `X`.
pub fn So(excess: &Matrix, X: &Matrix) -> (r: Result<Matrix, ShapeError>)
    ensures
        match r {
            Ok(out) => thresholded(out, *excess, *X),
            Err(ShapeError::Mismatch) => excess.spec_rows() != X.spec_rows() || excess.spec_cols() != X.spec_cols(),
            Err(_) => false,
        },
{
    if !X.same_shape(excess) {
        return Err(ShapeError::Mismatch);
    }
    let rows: usize = X.rows();
    let cols: usize = X.cols();
    let cell = |i: usize, j: usize| -> (v: u64)
        requires
            i < rows,
            j < cols,
        ensures
            v == X@[i as int][j as int].spec_shrink(excess@[i as int][j as int]).bits,
        {
            let s: Scalar = X.get(i, j);
            let e: Scalar = excess.get(i, j);
            s.shrink(e).to_bits()
        };
    Ok(Matrix::tabulate(rows, cols, cell))
}

/// With a threshold of zero the excess is the absolute value of every cell,
/// and the soft threshold gives every cell of `x` back: where `excess` holds
/// the absolute values of `x` and `out` the soft threshold of `x` with that
/// excess, every cell of `out` has the value of that cell of `x`.
pub proof fn lemma_So_by_zero(x: Matrix, excess: Matrix, out: Matrix)
    requires
        x.wf(),
        forall|i: int, j: int|
            0 <= i < x.spec_rows() && 0 <= j < x.spec_cols() ==> !(#[trigger] x@[i][j]).spec_is_nan(),
        is_table(excess@, x.spec_rows(), x.spec_cols()),
        forall|i: int, j: int|
            0 <= i < x.spec_rows() && 0 <= j < x.spec_cols() ==> (#[trigger] excess@[i][j]) == x@[i][j].spec_abs(),
        thresholded(out, excess, x),
    ensures
        forall|i: int, j: int|
            0 <= i < x.spec_rows() && 0 <= j < x.spec_cols() ==> (#[trigger] out@[i][j]).spec_same(x@[i][j]),
{
    assert forall|i: int, j: int| 0 <= i < x.spec_rows() && 0 <= j < x.spec_cols() implies (#[trigger] out@[i][j]).spec_same(
        x@[i][j],
    ) by {
        assert(excess@[i][j] == x@[i][j].spec_abs());
        assert(!x@[i][j].spec_is_nan());
        lemma_shrink_by_zero(x@[i][j]);
    }
}

/// What the singular value decomposition `X = U * diag(sigma) * Vt` of a
/// matrix gives, for the shrinkage of the singular values.
pub struct Factors {
    /// The left singular vectors, one a column.
    pub U: Matrix,
    /// The singular values.
    pub sigma: Vector,
    /// Every singular value less the threshold.
    pub excess: Vector,
    /// The right singular vectors, one a row.
    pub Vt: Matrix,
}

/// Whether the factors have the shape that a matrix of `rows` rows and
/// `cols` columns calls for: as many singular values as the smaller of the
/// two, and a singular vector on either side for each.
pub open spec fn factors_fit(f: Factors, rows: nat, cols: nat) -> bool {
    &&& shaped(f.U, rows, least(rows, cols))
    &&& f.sigma@.len() == least(rows, cols)
    &&& f.excess@.len() == least(rows, cols)
    &&& shaped(f.Vt, least(rows, cols), cols)
}

/// The soft threshold of every singular value, given its excess.
pub open spec fn shrunk(sigma: Seq<Scalar>, excess: Seq<Scalar>) -> Seq<Scalar> {
    Seq::new(sigma.len(), |i: int| sigma[i].spec_shrink(excess[i]))
}

/// Whether `r` is what the shrinkage of the singular values of a matrix of
/// `rows` rows and `cols` columns ends with, when the decomposition has
/// given `factors` and the product of the factors with the shrunk singular
/// values is what `compose` says.
pub open spec fn composed<F: Fn(&Matrix, &Vector, &Matrix) -> Matrix>(
    r: Result<Matrix, FitError>,
    rows: nat,
    cols: nat,
    factors: Option<Factors>,
    compose: F,
) -> bool {
    match r {
        Ok(out) => {
            &&& factors is Some
            &&& factors_fit(factors->0, rows, cols)
            &&& shaped(out, rows, cols)
            &&& exists|s: Vector|
                {
                    &&& s@ == shrunk(factors->0.sigma@, factors->0.excess@)
                    &&& #[trigger] compose.ensures((&factors->0.U, &s, &factors->0.Vt), out)
                }
        },
        Err(FitError::DecompositionFailed) => factors is None,
        Err(FitError::ShapeMismatch) => {
            &&& factors is Some
            &&& {
                ||| !factors_fit(factors->0, rows, cols)
                ||| exists|s: Vector, out: Matrix|
                    {
                        &&& s@ == shrunk(factors->0.sigma@, factors->0.excess@)
                        &&& #[trigger] compose.ensures((&factors->0.U, &s, &factors->0.Vt), out)
                        &&& !shaped(out, rows, cols)
                    }
            }
        },
        Err(_) => false,
    }
}

/// The shrinkage of the singular values of `X` by the threshold `tau`:
/// `U * So(tau, Sigma) * Vt`, where `X = U * Sigma * Vt`.
///
/// A matrix with a cell that is no real number is refused. Else `tau` and
/// `X` are handed to `decompose`. A decomposition that failed ends the
/// shrinkage with an error, and so do factors of another shape than `X`
/// calls for. Else every singular value is thresholded, and the factors
/// with the shrunk singular values are handed to `compose`, whose product is
/// the result if it has the shape of `X`.
pub fn Do<F1: Fn(Scalar, &Matrix) -> Option<Factors>, F2: Fn(&Matrix, &Vector, &Matrix) -> Matrix>(
    tau: Scalar,
    X: &Matrix,
    decompose: F1,
    compose: F2,
) -> (r: Result<Matrix, FitError>)
    requires
        decompose.requires((tau, X)),
        forall|U: Matrix, s: Vector, Vt: Matrix|
            shaped(U, X.spec_rows(), least(X.spec_rows(), X.spec_cols())) && s.wf() && s@.len() == least(
                X.spec_rows(),
                X.spec_cols(),
            ) && shaped(Vt, least(X.spec_rows(), X.spec_cols()), X.spec_cols()) ==> #[trigger] compose.requires(
                (&U, &s, &Vt),
            ),
    ensures
        !all_finite(X@) ==> r == Err::<Matrix, FitError>(FitError::NonFiniteInput),
        all_finite(X@) ==> exists|factors: Option<Factors>|
            {
                &&& #[trigger] decompose.ensures((tau, X), factors)
                &&& composed(r, X.spec_rows(), X.spec_cols(), factors, compose)
            },
{
    if !X.is_finite() {
        return Err(FitError::NonFiniteInput);
    }
    let factors = decompose(tau, X);
    let ghost handed = factors;
    let f: Factors = match factors {
        None => {
            return Err(FitError::DecompositionFailed);
        },
        Some(f) => f,
    };
    let rows: usize = X.rows();
    let cols: usize = X.cols();
    let rank: usize = if rows <= cols {
        rows
    } else {
        cols
    };
    if f.U.rows() != rows || f.U.cols() != rank || f.sigma.len() != rank || f.excess.len() != rank || f.Vt.rows()
        != rank || f.Vt.cols() != cols {
        return Err(FitError::ShapeMismatch);
    }
    let cell = |i: usize| -> (v: u64)
        requires
            i < rank,
        ensures
            v == f.sigma@[i as int].spec_shrink(f.excess@[i as int]).bits,
        {
            let s: Scalar = f.sigma.get(i);
            let e: Scalar = f.excess.get(i);
            s.shrink(e).to_bits()
        };
    let s = Vector::tabulate(rank, cell);
    proof {
        assert(s@ =~= shrunk(f.sigma@, f.excess@));
    }
    let out = compose(&f.U, &s, &f.Vt);
    proof {
        assert(factors_fit(f, X.spec_rows(), X.spec_cols()));
        assert(s@ == shrunk(handed->0.sigma@, handed->0.excess@));
        assert(compose.ensures((&handed->0.U, &s, &handed->0.Vt), out));
    }
    if !X.same_shape(&out) {
        return Err(FitError::ShapeMismatch);
    }
    proof {
        assert(shaped(out, X.spec_rows(), X.spec_cols()));
        assert(composed(Ok::<Matrix, FitError>(out), X.spec_rows(), X.spec_cols(), handed, compose));
    }
    Ok(out)
}

/// With a threshold of zero the excess of every singular value is that
/// value, and the shrinkage leaves the singular values as they are: every
/// shrunk value has the value of the one it came from, where that is a
/// number and not below zero.
pub proof fn lemma_Do_by_zero(sigma: Seq<Scalar>)
    requires
        forall|i: int| 0 <= i < sigma.len() ==> !(#[trigger] sigma[i]).spec_is_nan() && !sigma[i].spec_is_negative(),
    ensures
        forall|i: int| 0 <= i < sigma.len() ==> (#[trigger] shrunk(sigma, sigma)[i]).spec_same(sigma[i]),
{
    assert forall|i: int| 0 <= i < sigma.len() implies (#[trigger] shrunk(sigma, sigma)[i]).spec_same(sigma[i]) by {
        assert(!sigma[i].spec_is_nan() && !sigma[i].spec_is_negative());
    }
}

} // verus!
