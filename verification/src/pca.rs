//! Principal component analysis: the data are centred and decomposed, and
//! the model keeps the mean and the leading components.
//!
//! Centring and decomposing are arithmetic on real numbers, and are the
//! caller's. The library decides on what inputs a fit runs, how many
//! components are kept, and what the model holds.

use vstd::prelude::*;
use crate::error::FitError;
use crate::matrix::{all_finite, least, shaped, Matrix, Vector};
use crate::scalar::{lemma_whole_above_one, Scalar, ONE_BITS};

verus! {

/// What the decomposition of the centred data gives.
pub struct Spectrum {
    /// The mean of every column of the data.
    pub mean: Vector,
    /// The left singular vectors of the centred data, one a column, each
    /// scaled by its singular value, the largest first.
    pub basis: Matrix,
    /// The cumulative explained variance ratio: entry `i` is the share of
    /// the variance that the first `i + 1` components explain.
    pub cumulative_ratio: Vector,
}

/// A fitted model: the mean of the data and the components that were kept.
#[derive(Debug)]
pub struct PCA {
    components: Matrix,
    mean: Vector,
}

/// Whether the first `k` components are the fewest whose cumulative ratio
/// is greater than `target`, or are all there are where none is.
pub open spec fn covers(cumulative: Seq<Scalar>, target: Scalar, k: nat) -> bool {
    &&& 1 <= k <= cumulative.len()
    &&& forall|i: int| 0 <= i < k - 1 ==> !(#[trigger] cumulative[i]).spec_gt(target)
    &&& k < cumulative.len() ==> cumulative[k - 1].spec_gt(target)
}

/// Whether `k` is the number of components that the target `n_components`
/// selects. A target of one keeps every component. A target below one is a
/// share of the variance, and keeps the fewest components that explain more
/// than it. A target above one is a number of components: its integer part,
/// or every component where there are fewer.
pub open spec fn selects(cumulative: Seq<Scalar>, n_components: Scalar, k: nat) -> bool {
    if n_components.spec_is_nan() {
        false
    } else if n_components.spec_same(Scalar { bits: ONE_BITS }) {
        k == cumulative.len()
    } else if n_components.spec_lt(Scalar { bits: ONE_BITS }) {
        covers(cumulative, n_components, k)
    } else {
        k == n_components.spec_count(cumulative.len())
    }
}

/// A target selects one number of components and no other.
pub proof fn lemma_selection_is_unique(cumulative: Seq<Scalar>, n_components: Scalar, k1: nat, k2: nat)
    requires
        selects(cumulative, n_components, k1),
        selects(cumulative, n_components, k2),
    ensures
        k1 == k2,
{
    if n_components.spec_lt(Scalar { bits: ONE_BITS }) && !n_components.spec_same(Scalar { bits: ONE_BITS }) {
        if k1 < k2 {
            assert(cumulative[k1 - 1].spec_gt(n_components));
            assert(!cumulative[k1 - 1].spec_gt(n_components));
        }
        if k2 < k1 {
            assert(cumulative[k2 - 1].spec_gt(n_components));
            assert(!cumulative[k2 - 1].spec_gt(n_components));
        }
    }
}

/// Where there is a component at all, every target that is a number selects
/// at least one component and no more than there are.
pub proof fn lemma_selection_is_in_range(cumulative: Seq<Scalar>, n_components: Scalar, k: nat)
    requires
        cumulative.len() >= 1,
        selects(cumulative, n_components, k),
    ensures
        1 <= k <= cumulative.len(),
{
    let one = Scalar { bits: ONE_BITS };
    if !n_components.spec_same(one) && !n_components.spec_lt(one) && n_components.spec_is_finite() {
        lemma_whole_above_one(n_components);
    }
}

/// The number of components that the target `n_components` selects among
/// those whose cumulative explained variance ratio is `cumulative_ratio`.
/// It refuses a target that is no number, and an empty vector of ratios.
pub fn select_components(cumulative_ratio: &Vector, n_components: Scalar) -> (r: Result<usize, FitError>)
    ensures
        match r {
            Ok(k) => selects(cumulative_ratio@, n_components, k as nat) && 1 <= k <= cumulative_ratio@.len(),
            Err(FitError::NumericalFailure) => n_components.spec_is_nan(),
            Err(FitError::ShapeMismatch) => !n_components.spec_is_nan() && cumulative_ratio@.len() == 0,
            Err(_) => false,
        },
{
    if n_components.is_nan() {
        return Err(FitError::NumericalFailure);
    }
    let available: usize = cumulative_ratio.len();
    if available == 0 {
        return Err(FitError::ShapeMismatch);
    }
    let one: Scalar = Scalar::one();
    if n_components.same(one) {
        return Ok(available);
    }
    if n_components.lt(one) {
        let mut k: usize = 0;
        while k < available - 1
            invariant
                available == cumulative_ratio@.len(),
                available >= 1,
                k <= available - 1,
                n_components.spec_lt(Scalar { bits: ONE_BITS }),
                !n_components.spec_same(Scalar { bits: ONE_BITS }),
                forall|i: int| 0 <= i < k ==> !(#[trigger] cumulative_ratio@[i]).spec_gt(n_components),
            decreases available - k,
        {
            if cumulative_ratio.get(k).gt(n_components) {
                return Ok(k + 1);
            }
            k = k + 1;
        }
        Ok(available)
    } else {
        let k: usize = n_components.count(available);
        proof {
            if n_components.spec_is_finite() {
                lemma_whole_above_one(n_components);
            }
        }
        Ok(k)
    }
}

/// Whether what the decomposition gave has the shape that data of `rows`
/// rows and `cols` columns call for: a mean for every column, and as many
/// components, each of `rows` cells, as the smaller of the two.
pub open spec fn spectrum_fits(sp: Spectrum, rows: nat, cols: nat) -> bool {
    &&& sp.mean@.len() == cols
    &&& shaped(sp.basis, rows, least(rows, cols))
    &&& sp.cumulative_ratio@.len() == least(rows, cols)
}

/// The reason not to decompose the data `x` for the target `n_components`,
/// if there is one: data with a cell that is no real number, or else a
/// target that is no number.
pub open spec fn objection(x: Seq<Seq<Scalar>>, n_components: Scalar) -> Option<FitError> {
    if !all_finite(x) {
        Some(FitError::NonFiniteInput)
    } else if n_components.spec_is_nan() {
        Some(FitError::NumericalFailure)
    } else {
        None
    }
}

/// Whether `r` is what a fit to data of `rows` rows and `cols` columns ends
/// with when the decomposition has given `outcome`. A decomposition that
/// failed ends it with an error, then one of another shape, then a target
/// that is no number. Else the model keeps the mean, and of the components
/// the leading ones, as many as the target selects.
pub open spec fn assembled(
    r: Result<PCA, FitError>,
    rows: nat,
    cols: nat,
    n_components: Scalar,
    outcome: Option<Spectrum>,
) -> bool {
    match r {
        Ok(m) => {
            &&& outcome is Some
            &&& spectrum_fits(outcome->0, rows, cols)
            &&& selects(outcome->0.cumulative_ratio@, n_components, m.spec_components().spec_cols())
            &&& m.retains(outcome->0)
        },
        Err(FitError::DecompositionFailed) => outcome is None,
        Err(FitError::ShapeMismatch) => outcome is Some && !spectrum_fits(outcome->0, rows, cols),
        Err(FitError::NumericalFailure) => outcome is Some && spectrum_fits(outcome->0, rows, cols)
            && n_components.spec_is_nan(),
        Err(_) => false,
    }
}

/// A model that a fit to data of `rows` rows and `cols` columns ends with
/// has a mean of `cols` cells and components of `rows` cells each: as many
/// components as the target selects, at least one and no more than the
/// smaller of `rows` and `cols`.
pub proof fn lemma_model_shape(m: PCA, rows: nat, cols: nat, n_components: Scalar, outcome: Option<Spectrum>)
    requires
        assembled(Ok(m), rows, cols, n_components, outcome),
    ensures
        m.spec_mean()@.len() == cols,
        shaped(m.spec_components(), rows, m.spec_components().spec_cols()),
        selects(outcome->0.cumulative_ratio@, n_components, m.spec_components().spec_cols()),
        1 <= m.spec_components().spec_cols() <= least(rows, cols),
{
}

impl PCA {
    /// The components, as the contracts speak of them.
    pub closed spec fn spec_components(&self) -> Matrix {
        self.components
    }

    /// The mean, as the contracts speak of it.
    pub closed spec fn spec_mean(&self) -> Vector {
        self.mean
    }

    /// Whether the model holds the mean of `sp` and, cell by cell, the
    /// leading components of it.
    pub open spec fn retains(&self, sp: Spectrum) -> bool {
        &&& self.spec_mean() == sp.mean
        &&& shaped(self.spec_components(), sp.basis.spec_rows(), self.spec_components().spec_cols())
        &&& self.spec_components().spec_cols() <= sp.basis.spec_cols()
        &&& forall|i: int, j: int|
            0 <= i < sp.basis.spec_rows() && 0 <= j < self.spec_components().spec_cols() ==> (
            #[trigger] self.spec_components()@[i][j]) == sp.basis@[i][j]
    }

    /// The model of the data `x` for the target `n_components`, from what
    /// the decomposition of the centred data gave.
    pub fn assemble(x: &Matrix, n_components: Scalar, outcome: Option<Spectrum>) -> (r: Result<PCA, FitError>)
        ensures
            assembled(r, x.spec_rows(), x.spec_cols(), n_components, outcome),
    {
        let sp: Spectrum = match outcome {
            None => {
                return Err(FitError::DecompositionFailed);
            },
            Some(sp) => sp,
        };
        let rows: usize = x.rows();
        let cols: usize = x.cols();
        let rank: usize = if rows <= cols {
            rows
        } else {
            cols
        };
        if sp.mean.len() != cols || sp.basis.rows() != rows || sp.basis.cols() != rank || sp.cumulative_ratio.len()
            != rank {
            return Err(FitError::ShapeMismatch);
        }
        let k: usize = match select_components(&sp.cumulative_ratio, n_components) {
            Ok(k) => k,
            Err(e) => {
                return Err(e);
            },
        };
        match sp.basis.leading_columns(k) {
            Ok(components) => Ok(PCA { components, mean: sp.mean }),
            Err(_) => Err(FitError::ShapeMismatch),
        }
    }

    /// Fits the model to the data `x` for the target `n_components`, with
    /// the given decomposition of the centred data.
    ///
    /// The data are refused where `objection` gives a reason. Else they are
    /// handed to `decompose`, and the model is assembled from what it gives.
    pub fn fit<F: Fn(&Matrix) -> Option<Spectrum>>(x: &Matrix, n_components: Scalar, decompose: F) -> (r: Result<
        PCA,
        FitError,
    >)
        requires
            decompose.requires((x,)),
        ensures
            objection(x@, n_components) matches Some(e) ==> r == Err::<PCA, FitError>(e),
            objection(x@, n_components) is None ==> exists|outcome: Option<Spectrum>|
                {
                    &&& #[trigger] decompose.ensures((x,), outcome)
                    &&& assembled(r, x.spec_rows(), x.spec_cols(), n_components, outcome)
                },
            r matches Ok(m) ==> m.spec_mean()@.len() == x.spec_cols() && shaped(
                m.spec_components(),
                x.spec_rows(),
                m.spec_components().spec_cols(),
            ),
    {
        if !x.is_finite() {
            return Err(FitError::NonFiniteInput);
        }
        if n_components.is_nan() {
            return Err(FitError::NumericalFailure);
        }
        let outcome = decompose(x);
        let ghost handed = outcome;
        let r = PCA::assemble(x, n_components, outcome);
        proof {
            assert(decompose.ensures((x,), handed));
        }
        r
    }

    /// The mean of every column of the data.
    pub fn mean(&self) -> (v: &Vector)
        ensures
            *v == self.spec_mean(),
    {
        &self.mean
    }

    /// The components that were kept, one a column.
    pub fn components(&self) -> (m: &Matrix)
        ensures
            *m == self.spec_components(),
    {
        &self.components
    }
}

} // verus!
