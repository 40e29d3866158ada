//! The hyperparameters of the robust estimator, and their validation.

use vstd::prelude::*;
use crate::error::ConfigError;
use crate::scalar::Scalar;

verus! {

/// The pattern of the default tolerance, `1e-6`.
pub const DEFAULT_TOLERANCE_BITS: u64 = 0x3eb0_c6f7_a0b5_ed8d;

/// The default bound on the number of iterations.
pub const DEFAULT_MAX_N_ITERATIONS: u64 = 1000;

/// The four settings, as the contracts speak of them.
pub struct Settings {
    /// The weight of the sparse part in the objective.
    pub lambda: Scalar,
    /// The penalty of the augmented Lagrangian.
    pub mu: Scalar,
    /// The relative residual below which the iteration has converged.
    pub tolerance: Scalar,
    /// The largest number of iterations.
    pub max_n_iterations: u64,
}

impl Settings {
    /// The first reason to refuse the settings, if there is one. The bound
    /// on the iterations is looked at first, then the tolerance, the penalty
    /// and the weight: each must be greater than zero.
    pub open spec fn rejection(self) -> Option<ConfigError> {
        if self.max_n_iterations == 0 {
            Some(ConfigError::MaxIterationsZero)
        } else if !self.tolerance.spec_is_positive() {
            Some(ConfigError::ToleranceNotPositive)
        } else if !self.mu.spec_is_positive() {
            Some(ConfigError::MuNotPositive)
        } else if !self.lambda.spec_is_positive() {
            Some(ConfigError::LambdaNotPositive)
        } else {
            None
        }
    }

    /// Whether every setting is greater than zero.
    pub open spec fn valid(self) -> bool {
        &&& self.lambda.spec_is_positive()
        &&& self.mu.spec_is_positive()
        &&& self.tolerance.spec_is_positive()
        &&& self.max_n_iterations > 0
    }
}

/// Settings are refused exactly when one of them is not greater than zero.
pub proof fn lemma_rejection_is_invalidity(s: Settings)
    ensures
        s.rejection() is None <==> s.valid(),
{
}

/// Settings with a zero tolerance, a zero weight, a zero penalty or a zero
/// bound on the iterations are refused, whatever the other settings are.
pub proof fn lemma_zero_is_rejected(s: Settings)
    requires
        s.tolerance.spec_is_zero() || s.lambda.spec_is_zero() || s.mu.spec_is_zero() || s.max_n_iterations == 0,
    ensures
        s.rejection() is Some,
{
}

/// Validated hyperparameters: each of them is greater than zero.
#[derive(Clone, Copy, Debug, PartialEq)]
pub struct rPCAHyperParams {
    lambda: Scalar,
    mu: Scalar,
    tolerance: Scalar,
    max_n_iterations: u64,
}

/// Hyperparameters on their way to validation: each may be set, and `build`
/// validates them all at once.
#[derive(Clone, Copy, Debug, PartialEq)]
pub struct rPCAHyperParamsBuilder {
    lambda: Scalar,
    mu: Scalar,
    tolerance: Scalar,
    max_n_iterations: u64,
}

impl View for rPCAHyperParamsBuilder {
    type V = Settings;

    closed spec fn view(&self) -> Settings {
        Settings {
            lambda: self.lambda,
            mu: self.mu,
            tolerance: self.tolerance,
            max_n_iterations: self.max_n_iterations,
        }
    }
}

impl View for rPCAHyperParams {
    type V = Settings;

    closed spec fn view(&self) -> Settings {
        Settings {
            lambda: self.lambda,
            mu: self.mu,
            tolerance: self.tolerance,
            max_n_iterations: self.max_n_iterations,
        }
    }
}

impl rPCAHyperParamsBuilder {
    /// Sets `lambda`, the weight of the sparse part.
    pub fn lambda(self, lambda: Scalar) -> (b: Self)
        ensures
            b@ == (Settings { lambda, ..self@ }),
    {
        rPCAHyperParamsBuilder { lambda, ..self }
    }

    /// Sets `mu`, the penalty of the augmented Lagrangian.
    pub fn mu(self, mu: Scalar) -> (b: Self)
        ensures
            b@ == (Settings { mu, ..self@ }),
    {
        rPCAHyperParamsBuilder { mu, ..self }
    }

    /// Sets the tolerance: the iteration stops once the relative residual
    /// is below it.
    pub fn tolerance(self, tolerance: Scalar) -> (b: Self)
        ensures
            b@ == (Settings { tolerance, ..self@ }),
    {
        rPCAHyperParamsBuilder { tolerance, ..self }
    }

    /// Sets the largest number of iterations.
    pub fn max_n_iterations(self, max_n_iterations: u64) -> (b: Self)
        ensures
            b@ == (Settings { max_n_iterations, ..self@ }),
    {
        rPCAHyperParamsBuilder { max_n_iterations, ..self }
    }

    /// Validates the settings: the hyperparameters with these settings, or
    /// the first reason to refuse them.
    pub fn build(self) -> (r: Result<rPCAHyperParams, ConfigError>)
        ensures
            match r {
                Ok(h) => self@.rejection() is None && h@ == self@,
                Err(e) => self@.rejection() == Some(e),
            },
    {
        rPCAHyperParams::build(self.lambda, self.mu, self.tolerance, self.max_n_iterations)
    }
}

impl rPCAHyperParams {
    /// What holds of all validated hyperparameters.
    pub open spec fn wf(&self) -> bool {
        self@.valid()
    }

    #[verifier::type_invariant]
    pub(crate) open spec fn inv(&self) -> bool {
        self.wf()
    }

    /// The number that the defaults of a fit on `_n` rows and `_m` columns
    /// are derived from: the larger of the two.
    pub open spec fn spec_default_scale(_n: u64, _m: u64) -> u64 {
        if _n >= _m {
            _n
        } else {
            _m
        }
    }

    /// The number that the defaults of a fit on `_n` rows and `_m` columns
    /// are derived from: the larger of the two. The default weight `lambda`
    /// is one over its square root, and the default penalty `mu` ten times
    /// that weight.
    #[verifier::when_used_as_spec(spec_default_scale)]
    pub fn default_scale(_n: u64, _m: u64) -> (scale: u64)
        ensures
            scale == Self::spec_default_scale(_n, _m),
    {
        if _n >= _m {
            _n
        } else {
            _m
        }
    }

    /// A builder that starts from the defaults for data of `_n` rows and
    /// `_m` columns: the `lambda` and the `mu` that `defaults` derives from
    /// the larger of `_n` and `_m`, a tolerance of `1e-6` and at most 1000
    /// iterations.
    pub fn new<F: Fn(u64) -> (Scalar, Scalar)>(_n: u64, _m: u64, defaults: F) -> (b: rPCAHyperParamsBuilder)
        requires
            defaults.requires((Self::spec_default_scale(_n, _m),)),
        ensures
            exists|lambda: Scalar, mu: Scalar|
                {
                    &&& #[trigger] defaults.ensures((Self::spec_default_scale(_n, _m),), (lambda, mu))
                    &&& b@ == (Settings {
                        lambda,
                        mu,
                        tolerance: Scalar { bits: DEFAULT_TOLERANCE_BITS },
                        max_n_iterations: DEFAULT_MAX_N_ITERATIONS,
                    })
                },
    {
        let (lambda, mu) = defaults(Self::default_scale(_n, _m));
        rPCAHyperParamsBuilder {
            lambda,
            mu,
            tolerance: Scalar::from_bits(DEFAULT_TOLERANCE_BITS),
            max_n_iterations: DEFAULT_MAX_N_ITERATIONS,
        }
    }

    /// The weight of the sparse part.
    pub fn lambda(&self) -> (s: Scalar)
        ensures
            s == self@.lambda,
            self.wf(),
    {
        proof {
            use_type_invariant(self);
        }
        self.lambda
    }

    /// The penalty of the augmented Lagrangian.
    pub fn mu(&self) -> (s: Scalar)
        ensures
            s == self@.mu,
            self.wf(),
    {
        proof {
            use_type_invariant(self);
        }
        self.mu
    }

    /// The relative residual below which the iteration has converged.
    pub fn tolerance(&self) -> (s: Scalar)
        ensures
            s == self@.tolerance,
            self.wf(),
    {
        proof {
            use_type_invariant(self);
        }
        self.tolerance
    }

    /// The largest number of iterations.
    pub fn max_n_iterations(&self) -> (n: u64)
        ensures
            n == self@.max_n_iterations,
            self.wf(),
    {
        proof {
            use_type_invariant(self);
        }
        self.max_n_iterations
    }

    fn build(lambda: Scalar, mu: Scalar, tolerance: Scalar, max_n_iterations: u64) -> (r: Result<Self, ConfigError>)
        ensures
            match r {
                Ok(h) => (Settings { lambda, mu, tolerance, max_n_iterations }).rejection() is None && h@ == (Settings {
                    lambda,
                    mu,
                    tolerance,
                    max_n_iterations,
                }),
                Err(e) => (Settings { lambda, mu, tolerance, max_n_iterations }).rejection() == Some(e),
            },
    {
        if max_n_iterations == 0 {
            return Err(ConfigError::MaxIterationsZero);
        }
        if !tolerance.is_positive() {
            return Err(ConfigError::ToleranceNotPositive);
        }
        if !mu.is_positive() {
            return Err(ConfigError::MuNotPositive);
        }
        if !lambda.is_positive() {
            return Err(ConfigError::LambdaNotPositive);
        }
        Ok(rPCAHyperParams { lambda, mu, tolerance, max_n_iterations })
    }
}

} // verus!
