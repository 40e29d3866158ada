//! Robust principal component analysis: a matrix `X` is split into a
//! low-rank part `L` and a sparse part `S` by the alternating direction
//! method of multipliers.
//!
//! The arithmetic of the method is on real numbers, and is the caller's: it
//! comes as a function for the norm of the data and three functions, one for
//! each step of an update. The library decides on what inputs the method
//! runs, takes the norm once and guards it, puts the steps in their order
//! and hands each what the one before it gave, thresholds the sparse part,
//! stops the method, and says what the model holds.

use vstd::prelude::*;
use crate::error::FitError;
use crate::hyperparameters::{rPCAHyperParams, Settings};
use crate::matrix::{all_finite, all_zero, shaped, Matrix};
use crate::primitives::{thresholded, So};
use crate::scalar::Scalar;

verus! {

/// The variables of the method between two updates.
pub struct Iterate {
    /// The low-rank part.
    pub L: Matrix,
    /// The sparse part.
    pub S: Matrix,
    /// The multiplier of the constraint `X = L + S`.
    pub Y: Matrix,
}

/// What the second step of an update hands back.
pub struct Residue {
    /// The matrix `X - L + Y/mu`, whose cells are thresholded.
    pub value: Matrix,
    /// The absolute value of every cell of `value`, less the threshold
    /// `lambda/mu`.
    pub excess: Matrix,
}

/// What the third step of an update hands back.
pub struct Ascent {
    /// The multiplier `Y + mu * (X - L - S)`.
    pub Y: Matrix,
    /// The relative residual `norm(X - L - S) / norm(X)`.
    pub residual: Scalar,
}

/// The variables after an update, and its residual.
pub struct Update {
    /// The low-rank part.
    pub L: Matrix,
    /// The sparse part.
    pub S: Matrix,
    /// The multiplier.
    pub Y: Matrix,
    /// The relative residual `norm(X - L - S) / norm(X)`.
    pub residual: Scalar,
}

/// A fitted model: the two parts, and how the iteration ended.
#[derive(Debug)]
pub struct rPCA {
    L: Matrix,
    S: Matrix,
    residual: Scalar,
    iterations: u64,
    converged: bool,
    hyperparameters: rPCAHyperParams,
}

/// The method between two updates: its variables, and the number of
/// updates that were made. It is made by `rPCA::start`, and each update is
/// handed to `advance`.
pub struct Admm {
    variables: Iterate,
    done: u64,
    rows: usize,
    cols: usize,
    norm_x: Scalar,
    hyperparameters: rPCAHyperParams,
}

/// What the method does after an update.
pub enum Progress {
    /// It goes on, from this state.
    Continue(Admm),
    /// It has ended, with this model.
    Finished(rPCA),
}

/// What the method decides after an update.
pub enum Verdict {
    /// The update cannot be used.
    Failed(FitError),
    /// The residual is not below the tolerance, and iterations are left.
    Continue,
    /// The residual is below the tolerance.
    Converged,
    /// The residual is not below the tolerance, and no iteration is left.
    Exhausted,
}

/// Whether the three variables have `rows` rows and `cols` columns each.
pub open spec fn iterate_shaped(it: Iterate, rows: nat, cols: nat) -> bool {
    shaped(it.L, rows, cols) && shaped(it.S, rows, cols) && shaped(it.Y, rows, cols)
}

/// Whether the three variables are zero matrices of `rows` rows and `cols`
/// columns: what the method starts from.
pub open spec fn iterate_zero(it: Iterate, rows: nat, cols: nat) -> bool {
    &&& iterate_shaped(it, rows, cols)
    &&& all_zero(it.L@)
    &&& all_zero(it.S@)
    &&& all_zero(it.Y@)
}

/// The reason to refuse data `x` whose norm is `norm_x`, if there is one.
/// Data with a cell that is no real number are refused first, then a norm
/// that is no real number, then data that are all zero or whose norm is not
/// above zero.
pub open spec fn refusal(x: Seq<Seq<Scalar>>, norm_x: Scalar) -> Option<FitError> {
    if !all_finite(x) {
        Some(FitError::NonFiniteInput)
    } else if !norm_x.spec_is_finite() {
        Some(FitError::NumericalFailure)
    } else if all_zero(x) || !norm_x.spec_is_positive() {
        Some(FitError::DegenerateInput)
    } else {
        None
    }
}

/// The decision after update number `done + 1` on data of `rows` rows and
/// `cols` columns has given `u`. An update of another shape and one whose
/// residual is no real number cannot be used. The method stops as soon as
/// the residual is below the tolerance, and after `max_n_iterations` updates
/// at the latest.
pub open spec fn verdict(settings: Settings, rows: nat, cols: nat, done: nat, u: Update) -> Verdict {
    if !(shaped(u.L, rows, cols) && shaped(u.S, rows, cols) && shaped(u.Y, rows, cols)) {
        Verdict::Failed(FitError::ShapeMismatch)
    } else if !u.residual.spec_is_finite() {
        Verdict::Failed(FitError::NumericalFailure)
    } else if u.residual.spec_lt(settings.tolerance) {
        Verdict::Converged
    } else if done + 1 >= settings.max_n_iterations {
        Verdict::Exhausted
    } else {
        Verdict::Continue
    }
}

/// Whether one update of the method on data `X` can lead from the variables
/// `it` to `u`. The steps come in this order, and each is handed what the
/// steps before it gave, not what the update started from:
///
/// 1. `low_rank` gives the low-rank part from the sparse part and the
///    multiplier of `it`;
/// 2. `residue` gives the matrix to threshold, and its excess, from the new
///    low-rank part and the multiplier of `it`; the sparse part is its soft
///    threshold;
/// 3. `ascend` gives the multiplier and the residual from the norm of the
///    data, the new low-rank part, the new sparse part and the multiplier of
///    `it`.
pub open spec fn steps_to<
    F1: Fn(&rPCAHyperParams, &Matrix, &Matrix, &Matrix) -> Option<Matrix>,
    F2: Fn(&rPCAHyperParams, &Matrix, &Matrix, &Matrix) -> Residue,
    F3: Fn(&rPCAHyperParams, &Matrix, Scalar, &Matrix, &Matrix, &Matrix) -> Ascent,
>(
    low_rank: F1,
    residue: F2,
    ascend: F3,
    hyperparameters: rPCAHyperParams,
    X: Matrix,
    norm_x: Scalar,
    it: Iterate,
    u: Update,
) -> bool {
    &&& low_rank.ensures((&hyperparameters, &X, &it.S, &it.Y), Some(u.L))
    &&& shaped(u.L, X.spec_rows(), X.spec_cols())
    &&& exists|t: Residue|
        {
            &&& #[trigger] residue.ensures((&hyperparameters, &X, &u.L, &it.Y), t)
            &&& shaped(t.value, X.spec_rows(), X.spec_cols())
            &&& shaped(t.excess, X.spec_rows(), X.spec_cols())
            &&& thresholded(u.S, t.excess, t.value)
        }
    &&& ascend.ensures((&hyperparameters, &X, norm_x, &u.L, &u.S, &it.Y), Ascent { Y: u.Y, residual: u.residual })
}

/// Whether an update of the method on data `X` from the variables `it` can
/// end with the error `e`: the low-rank part could not be computed; or a
/// step gave a matrix that has not the shape of `X`; or the residual is no
/// real number.
pub open spec fn steps_fail<
    F1: Fn(&rPCAHyperParams, &Matrix, &Matrix, &Matrix) -> Option<Matrix>,
    F2: Fn(&rPCAHyperParams, &Matrix, &Matrix, &Matrix) -> Residue,
    F3: Fn(&rPCAHyperParams, &Matrix, Scalar, &Matrix, &Matrix, &Matrix) -> Ascent,
>(
    low_rank: F1,
    residue: F2,
    ascend: F3,
    hyperparameters: rPCAHyperParams,
    X: Matrix,
    norm_x: Scalar,
    it: Iterate,
    e: FitError,
) -> bool {
    match e {
        FitError::DecompositionFailed => low_rank.ensures((&hyperparameters, &X, &it.S, &it.Y), None),
        FitError::ShapeMismatch => exists|L: Matrix|
            {
                &&& #[trigger] low_rank.ensures((&hyperparameters, &X, &it.S, &it.Y), Some(L))
                &&& {
                    ||| !shaped(L, X.spec_rows(), X.spec_cols())
                    ||| exists|t: Residue|
                        {
                            &&& #[trigger] residue.ensures((&hyperparameters, &X, &L, &it.Y), t)
                            &&& {
                                ||| !shaped(t.value, X.spec_rows(), X.spec_cols())
                                ||| !shaped(t.excess, X.spec_rows(), X.spec_cols())
                                ||| exists|S: Matrix, a: Ascent|
                                    {
                                        &&& thresholded(S, t.excess, t.value)
                                        &&& #[trigger] ascend.ensures(
                                            (&hyperparameters, &X, norm_x, &L, &S, &it.Y),
                                            a,
                                        )
                                        &&& !shaped(a.Y, X.spec_rows(), X.spec_cols())
                                    }
                            }
                        }
                }
            },
        FitError::NumericalFailure => exists|u: Update|
            {
                &&& #[trigger] steps_to(low_rank, residue, ascend, hyperparameters, X, norm_x, it, u)
                &&& shaped(u.Y, X.spec_rows(), X.spec_cols())
                &&& !u.residual.spec_is_finite()
            },
        _ => false,
    }
}

/// Whether the method, run with the three steps on data `X`, can hold the
/// variables `it` after `done` updates: the variables are zero before the
/// first update, and later those that an update gave when the method went
/// on.
pub open spec fn reachable<
    F1: Fn(&rPCAHyperParams, &Matrix, &Matrix, &Matrix) -> Option<Matrix>,
    F2: Fn(&rPCAHyperParams, &Matrix, &Matrix, &Matrix) -> Residue,
    F3: Fn(&rPCAHyperParams, &Matrix, Scalar, &Matrix, &Matrix, &Matrix) -> Ascent,
>(
    low_rank: F1,
    residue: F2,
    ascend: F3,
    hyperparameters: rPCAHyperParams,
    X: Matrix,
    norm_x: Scalar,
    it: Iterate,
    done: nat,
) -> bool
    decreases done,
{
    if done == 0 {
        iterate_zero(it, X.spec_rows(), X.spec_cols())
    } else {
        exists|before: Iterate, u: Update|
            {
                &&& reachable(low_rank, residue, ascend, hyperparameters, X, norm_x, before, (done - 1) as nat)
                &&& #[trigger] steps_to(low_rank, residue, ascend, hyperparameters, X, norm_x, before, u)
                &&& verdict(hyperparameters@, X.spec_rows(), X.spec_cols(), (done - 1) as nat, u)
                    == Verdict::Continue
                &&& it == (Iterate { L: u.L, S: u.S, Y: u.Y })
            }
    }
}

/// Whether `r` is what a fit to the data `X` ends with when their norm has
/// been found to be `norm_x`. Data and a norm that `refusal` gives a reason
/// against end it with that reason. Else it ends with the first error of an
/// update, or with the model of the update that the method stopped after.
pub open spec fn fitted<
    F1: Fn(&rPCAHyperParams, &Matrix, &Matrix, &Matrix) -> Option<Matrix>,
    F2: Fn(&rPCAHyperParams, &Matrix, &Matrix, &Matrix) -> Residue,
    F3: Fn(&rPCAHyperParams, &Matrix, Scalar, &Matrix, &Matrix, &Matrix) -> Ascent,
>(
    r: Result<rPCA, FitError>,
    low_rank: F1,
    residue: F2,
    ascend: F3,
    hyperparameters: rPCAHyperParams,
    X: Matrix,
    norm_x: Scalar,
) -> bool {
    match refusal(X@, norm_x) {
        Some(e) => r == Err::<rPCA, FitError>(e),
        None => match r {
            Ok(m) => {
                &&& m.wf()
                &&& exists|before: Iterate, u: Update|
                    {
                        &&& reachable(
                            low_rank,
                            residue,
                            ascend,
                            hyperparameters,
                            X,
                            norm_x,
                            before,
                            (m.spec_iterations() - 1) as nat,
                        )
                        &&& #[trigger] steps_to(low_rank, residue, ascend, hyperparameters, X, norm_x, before, u)
                        &&& m.ends(hyperparameters, (m.spec_iterations() - 1) as nat, u)
                    }
            },
            Err(e) => exists|before: Iterate, done: nat|
                {
                    &&& done < hyperparameters@.max_n_iterations
                    &&& #[trigger] reachable(low_rank, residue, ascend, hyperparameters, X, norm_x, before, done)
                    &&& steps_fail(low_rank, residue, ascend, hyperparameters, X, norm_x, before, e)
                },
        },
    }
}

impl Admm {
    /// The variables, as the contracts speak of them.
    pub closed spec fn spec_variables(&self) -> Iterate {
        self.variables
    }

    /// The number of updates made, as the contracts speak of it.
    pub closed spec fn spec_done(&self) -> u64 {
        self.done
    }

    /// The number of rows of the data, as the contracts speak of it.
    pub closed spec fn spec_rows(&self) -> nat {
        self.rows as nat
    }

    /// The number of columns of the data, as the contracts speak of it.
    pub closed spec fn spec_cols(&self) -> nat {
        self.cols as nat
    }

    /// The norm of the data, as the contracts speak of it.
    pub closed spec fn spec_norm_x(&self) -> Scalar {
        self.norm_x
    }

    /// The hyperparameters of the fit, as the contracts speak of them.
    pub closed spec fn spec_hyperparameters(&self) -> rPCAHyperParams {
        self.hyperparameters
    }

    /// What holds of the method between two updates: the variables have the
    /// shape of the data, the norm of the data is a real number above zero,
    /// and an iteration is left.
    pub open spec fn wf(&self) -> bool {
        &&& self.spec_hyperparameters().wf()
        &&& iterate_shaped(self.spec_variables(), self.spec_rows(), self.spec_cols())
        &&& self.spec_norm_x().spec_is_finite()
        &&& self.spec_norm_x().spec_is_positive()
        &&& self.spec_done() < self.spec_hyperparameters()@.max_n_iterations
    }

    #[verifier::type_invariant]
    spec fn inv(&self) -> bool {
        self.wf()
    }

    /// The variables that the next update starts from.
    pub fn variables(&self) -> (it: &Iterate)
        ensures
            *it == self.spec_variables(),
            self.wf(),
    {
        proof {
            use_type_invariant(self);
        }
        &self.variables
    }

    /// The number of updates that were made.
    pub fn done(&self) -> (n: u64)
        ensures
            n == self.spec_done(),
            self.wf(),
    {
        proof {
            use_type_invariant(self);
        }
        self.done
    }

    /// The norm of the data, by which the residual of an update is divided:
    /// a real number above zero.
    pub fn norm_x(&self) -> (n: Scalar)
        ensures
            n == self.spec_norm_x(),
            self.wf(),
    {
        proof {
            use_type_invariant(self);
        }
        self.norm_x
    }

    /// What the method does once the next update has given `u`.
    pub fn advance(self, u: Update) -> (r: Result<Progress, FitError>)
        ensures
            match verdict(
                self.spec_hyperparameters()@,
                self.spec_rows(),
                self.spec_cols(),
                self.spec_done() as nat,
                u,
            ) {
                Verdict::Failed(e) => r == Err::<Progress, FitError>(e),
                Verdict::Continue => r matches Ok(Progress::Continue(next)) && next.wf() && next.spec_variables() == (
                Iterate { L: u.L, S: u.S, Y: u.Y }) && next.spec_done() == self.spec_done() + 1
                    && next.spec_hyperparameters() == self.spec_hyperparameters() && next.spec_rows()
                    == self.spec_rows() && next.spec_cols() == self.spec_cols() && next.spec_norm_x()
                    == self.spec_norm_x(),
                Verdict::Converged => r matches Ok(Progress::Finished(m)) && m.wf() && m.spec_converged() && m.ends(
                    self.spec_hyperparameters(),
                    self.spec_done() as nat,
                    u,
                ),
                Verdict::Exhausted => r matches Ok(Progress::Finished(m)) && m.wf() && !m.spec_converged() && m.ends(
                    self.spec_hyperparameters(),
                    self.spec_done() as nat,
                    u,
                ),
            },
    {
        proof {
            use_type_invariant(&self);
        }
        if !(u.L.rows() == self.rows && u.L.cols() == self.cols && u.S.rows() == self.rows && u.S.cols() == self.cols
            && u.Y.rows() == self.rows && u.Y.cols() == self.cols) {
            return Err(FitError::ShapeMismatch);
        }
        if !u.residual.is_finite() {
            return Err(FitError::NumericalFailure);
        }
        let tolerance: Scalar = self.hyperparameters.tolerance();
        let limit: u64 = self.hyperparameters.max_n_iterations();
        let converged: bool = u.residual.lt(tolerance);
        if converged || self.done + 1 >= limit {
            Ok(
                Progress::Finished(
                    rPCA {
                        L: u.L,
                        S: u.S,
                        residual: u.residual,
                        iterations: self.done + 1,
                        converged,
                        hyperparameters: self.hyperparameters,
                    },
                ),
            )
        } else {
            Ok(
                Progress::Continue(
                    Admm {
                        variables: Iterate { L: u.L, S: u.S, Y: u.Y },
                        done: self.done + 1,
                        rows: self.rows,
                        cols: self.cols,
                        norm_x: self.norm_x,
                        hyperparameters: self.hyperparameters,
                    },
                ),
            )
        }
    }
}

/// A model of a fit that made fewer updates than the hyperparameters allow
/// has a residual below the tolerance, and the residual of every model is a
/// real number.
pub proof fn lemma_early_end_is_convergence(m: rPCA)
    requires
        m.wf(),
    ensures
        m.spec_iterations() < m.spec_hyperparameters()@.max_n_iterations ==> m.spec_residual().spec_lt(
            m.spec_hyperparameters()@.tolerance,
        ),
        m.spec_residual().spec_is_finite(),
{
}

impl rPCA {
    /// The low-rank part, as the contracts speak of it.
    pub closed spec fn spec_L(&self) -> Matrix {
        self.L
    }

    /// The sparse part, as the contracts speak of it.
    pub closed spec fn spec_S(&self) -> Matrix {
        self.S
    }

    /// The relative residual of the last update, as the contracts speak of
    /// it.
    pub closed spec fn spec_residual(&self) -> Scalar {
        self.residual
    }

    /// The number of updates made, as the contracts speak of it.
    pub closed spec fn spec_iterations(&self) -> u64 {
        self.iterations
    }

    /// Whether the method converged, as the contracts speak of it.
    pub closed spec fn spec_converged(&self) -> bool {
        self.converged
    }

    /// The hyperparameters of the fit, as the contracts speak of them.
    pub closed spec fn spec_hyperparameters(&self) -> rPCAHyperParams {
        self.hyperparameters
    }

    /// What holds of every model. The two parts have one shape. At least
    /// one update was made, and no more than the hyperparameters allow. The
    /// residual is a real number. The method converged exactly if the
    /// residual is below the tolerance, and where it did not converge, every
    /// iteration was used.
    pub open spec fn wf(&self) -> bool {
        &&& self.spec_hyperparameters().wf()
        &&& self.spec_L().wf()
        &&& shaped(self.spec_S(), self.spec_L().spec_rows(), self.spec_L().spec_cols())
        &&& 1 <= self.spec_iterations() <= self.spec_hyperparameters()@.max_n_iterations
        &&& self.spec_residual().spec_is_finite()
        &&& self.spec_converged() == self.spec_residual().spec_lt(self.spec_hyperparameters()@.tolerance)
        &&& !self.spec_converged() ==> self.spec_iterations() == self.spec_hyperparameters()@.max_n_iterations
    }

    #[verifier::type_invariant]
    spec fn inv(&self) -> bool {
        self.wf()
    }

    /// Whether the model is what the method ends with when update number
    /// `done + 1` gives `u`.
    pub open spec fn ends(&self, hyperparameters: rPCAHyperParams, done: nat, u: Update) -> bool {
        &&& self.spec_L() == u.L
        &&& self.spec_S() == u.S
        &&& self.spec_residual() == u.residual
        &&& self.spec_iterations() == done + 1
        &&& self.spec_hyperparameters() == hyperparameters
    }

    /// The method before its first update on the data `X`, whose norm is
    /// `norm_x`: the variables are zero matrices of the shape of `X`. The
    /// data are refused where `refusal` gives a reason.
    pub fn start(hyperparameters: rPCAHyperParams, X: &Matrix, norm_x: Scalar) -> (r: Result<Admm, FitError>)
        ensures
            match refusal(X@, norm_x) {
                Some(e) => r == Err::<Admm, FitError>(e),
                None => r matches Ok(state) && state.wf() && state.spec_done() == 0 && state.spec_hyperparameters()
                    == hyperparameters && state.spec_rows() == X.spec_rows() && state.spec_cols() == X.spec_cols()
                    && state.spec_norm_x() == norm_x && iterate_zero(
                    state.spec_variables(),
                    X.spec_rows(),
                    X.spec_cols(),
                ),
            },
    {
        if !X.is_finite() {
            return Err(FitError::NonFiniteInput);
        }
        if !norm_x.is_finite() {
            return Err(FitError::NumericalFailure);
        }
        if X.is_zero() || !norm_x.is_positive() {
            return Err(FitError::DegenerateInput);
        }
        proof {
            use_type_invariant(&hyperparameters);
        }
        Ok(
            Admm {
                variables: Iterate { L: X.zeros_like(), S: X.zeros_like(), Y: X.zeros_like() },
                done: 0,
                rows: X.rows(),
                cols: X.cols(),
                norm_x,
                hyperparameters,
            },
        )
    }

    /// Fits the model to the data `X`, with the norm and the three steps of
    /// an update.
    ///
    /// Data with a cell that is no real number are refused. Else `norm` is
    /// asked once for the norm of the data, and what it gives is guarded as
    /// `refusal` says and handed to every third step. The method starts from
    /// zero matrices and makes update after update, each as `steps_to` says.
    /// A low-rank part that could not be computed ends the fit with an
    /// error, and so does a step that gives a matrix of another shape than
    /// `X`, and a residual that is no real number. The method stops as soon
    /// as the residual is below the tolerance, and after `max_n_iterations`
    /// updates at the latest. The model holds the parts that the last update
    /// gave. Where fewer than `max_n_iterations` updates were made, the
    /// residual is below the tolerance.
    pub fn fit<
        F0: Fn(&Matrix) -> Scalar,
        F1: Fn(&rPCAHyperParams, &Matrix, &Matrix, &Matrix) -> Option<Matrix>,
        F2: Fn(&rPCAHyperParams, &Matrix, &Matrix, &Matrix) -> Residue,
        F3: Fn(&rPCAHyperParams, &Matrix, Scalar, &Matrix, &Matrix, &Matrix) -> Ascent,
    >(hyperparameters: rPCAHyperParams, X: &Matrix, norm: F0, low_rank: F1, residue: F2, ascend: F3) -> (r: Result<
        rPCA,
        FitError,
    >)
        requires
            norm.requires((X,)),
            forall|S: Matrix, Y: Matrix|
                shaped(S, X.spec_rows(), X.spec_cols()) && shaped(Y, X.spec_rows(), X.spec_cols())
                    ==> #[trigger] low_rank.requires((&hyperparameters, X, &S, &Y)),
            forall|L: Matrix, Y: Matrix|
                shaped(L, X.spec_rows(), X.spec_cols()) && shaped(Y, X.spec_rows(), X.spec_cols())
                    ==> #[trigger] residue.requires((&hyperparameters, X, &L, &Y)),
            forall|n: Scalar, L: Matrix, S: Matrix, Y: Matrix|
                n.spec_is_finite() && n.spec_is_positive() && shaped(L, X.spec_rows(), X.spec_cols()) && shaped(
                    S,
                    X.spec_rows(),
                    X.spec_cols(),
                ) && shaped(Y, X.spec_rows(), X.spec_cols()) ==> #[trigger] ascend.requires(
                    (&hyperparameters, X, n, &L, &S, &Y),
                ),
        ensures
            !all_finite(X@) ==> r == Err::<rPCA, FitError>(FitError::NonFiniteInput),
            all_finite(X@) ==> exists|norm_x: Scalar|
                {
                    &&& #[trigger] norm.ensures((X,), norm_x)
                    &&& fitted(r, low_rank, residue, ascend, hyperparameters, *X, norm_x)
                },
            r matches Ok(m) ==> {
                &&& m.wf()
                &&& shaped(m.spec_L(), X.spec_rows(), X.spec_cols())
                &&& m.spec_hyperparameters() == hyperparameters
                &&& (m.spec_iterations() < hyperparameters@.max_n_iterations ==> m.spec_residual().spec_lt(
                    hyperparameters@.tolerance,
                ))
            },
    {
        if !X.is_finite() {
            return Err(FitError::NonFiniteInput);
        }
        let norm_x: Scalar = norm(X);
        let mut state: Admm = match rPCA::start(hyperparameters, X, norm_x) {
            Ok(state) => state,
            Err(e) => {
                return Err(e);
            },
        };
        loop
            invariant
                state.wf(),
                state.spec_hyperparameters() == hyperparameters,
                state.spec_rows() == X.spec_rows(),
                state.spec_cols() == X.spec_cols(),
                state.spec_norm_x() == norm_x,
                refusal(X@, norm_x) is None,
                norm.ensures((X,), norm_x),
                reachable(
                    low_rank,
                    residue,
                    ascend,
                    hyperparameters,
                    *X,
                    norm_x,
                    state.spec_variables(),
                    state.spec_done() as nat,
                ),
                forall|S: Matrix, Y: Matrix|
                    shaped(S, X.spec_rows(), X.spec_cols()) && shaped(Y, X.spec_rows(), X.spec_cols())
                        ==> #[trigger] low_rank.requires((&hyperparameters, X, &S, &Y)),
                forall|L: Matrix, Y: Matrix|
                    shaped(L, X.spec_rows(), X.spec_cols()) && shaped(Y, X.spec_rows(), X.spec_cols())
                        ==> #[trigger] residue.requires((&hyperparameters, X, &L, &Y)),
                forall|n: Scalar, L: Matrix, S: Matrix, Y: Matrix|
                    n.spec_is_finite() && n.spec_is_positive() && shaped(L, X.spec_rows(), X.spec_cols()) && shaped(
                        S,
                        X.spec_rows(),
                        X.spec_cols(),
                    ) && shaped(Y, X.spec_rows(), X.spec_cols()) ==> #[trigger] ascend.requires(
                        (&hyperparameters, X, n, &L, &S, &Y),
                    ),
            decreases hyperparameters@.max_n_iterations - state.spec_done(),
        {
            let ghost before = state.spec_variables();
            let current: &Iterate = state.variables();
            let L: Matrix = match low_rank(&hyperparameters, X, &current.S, &current.Y) {
                Some(L) => L,
                None => {
                    proof {
                        assert(steps_fail(
                            low_rank,
                            residue,
                            ascend,
                            hyperparameters,
                            *X,
                            norm_x,
                            before,
                            FitError::DecompositionFailed,
                        ));
                    }
                    return Err(FitError::DecompositionFailed);
                },
            };
            if !X.same_shape(&L) {
                proof {
                    assert(low_rank.ensures((&hyperparameters, X, &before.S, &before.Y), Some(L)));
                    assert(steps_fail(
                        low_rank,
                        residue,
                        ascend,
                        hyperparameters,
                        *X,
                        norm_x,
                        before,
                        FitError::ShapeMismatch,
                    ));
                }
                return Err(FitError::ShapeMismatch);
            }
            let t: Residue = residue(&hyperparameters, X, &L, &current.Y);
            if !X.same_shape(&t.value) || !X.same_shape(&t.excess) {
                proof {
                    assert(low_rank.ensures((&hyperparameters, X, &before.S, &before.Y), Some(L)));
                    assert(residue.ensures((&hyperparameters, X, &L, &before.Y), t));
                    assert(steps_fail(
                        low_rank,
                        residue,
                        ascend,
                        hyperparameters,
                        *X,
                        norm_x,
                        before,
                        FitError::ShapeMismatch,
                    ));
                }
                return Err(FitError::ShapeMismatch);
            }
            let S: Matrix = match So(&t.excess, &t.value) {
                Ok(S) => S,
                Err(_) => {
                    return Err(FitError::ShapeMismatch);
                },
            };
            let a: Ascent = ascend(&hyperparameters, X, norm_x, &L, &S, &current.Y);
            let u = Update { L, S, Y: a.Y, residual: a.residual };
            proof {
                assert(low_rank.ensures((&hyperparameters, X, &before.S, &before.Y), Some(u.L)));
                assert(residue.ensures((&hyperparameters, X, &u.L, &before.Y), t));
                assert(ascend.ensures((&hyperparameters, X, norm_x, &u.L, &u.S, &before.Y), a));
                assert(steps_to(low_rank, residue, ascend, hyperparameters, *X, norm_x, before, u));
            }
            match state.advance(u) {
                Err(e) => {
                    proof {
                        assert(steps_fail(low_rank, residue, ascend, hyperparameters, *X, norm_x, before, e));
                    }
                    return Err(e);
                },
                Ok(Progress::Finished(m)) => {
                    return Ok(m);
                },
                Ok(Progress::Continue(next)) => {
                    state = next;
                },
            }
        }
    }

    /// The low-rank part.
    pub fn L(&self) -> (m: &Matrix)
        ensures
            *m == self.spec_L(),
            self.wf(),
    {
        proof {
            use_type_invariant(self);
        }
        &self.L
    }

    /// The sparse part.
    pub fn S(&self) -> (m: &Matrix)
        ensures
            *m == self.spec_S(),
            self.wf(),
    {
        proof {
            use_type_invariant(self);
        }
        &self.S
    }

    /// The relative residual `norm(X - L - S) / norm(X)` of the last update.
    pub fn residual(&self) -> (s: Scalar)
        ensures
            s == self.spec_residual(),
            self.wf(),
    {
        proof {
            use_type_invariant(self);
        }
        self.residual
    }

    /// The number of updates that were made.
    pub fn iterations(&self) -> (n: u64)
        ensures
            n == self.spec_iterations(),
            self.wf(),
    {
        proof {
            use_type_invariant(self);
        }
        self.iterations
    }

    /// Whether the residual came below the tolerance.
    pub fn converged(&self) -> (b: bool)
        ensures
            b == self.spec_converged(),
            self.wf(),
    {
        proof {
            use_type_invariant(self);
        }
        self.converged
    }
}

} // verus!
