use lowrank::{Do, Factors, FitError, Matrix, Scalar, Vector};

fn scalar(x: f64) -> Scalar {
    Scalar::from_bits(x.to_bits())
}

fn number(s: Scalar) -> f64 {
    f64::from_bits(s.to_bits())
}

fn matrix(rows: &[&[f64]]) -> Matrix {
    Matrix::from_rows(rows.iter().map(|r| r.iter().map(|x| scalar(*x)).collect()).collect()).unwrap()
}

fn vector(cells: &[f64]) -> Vector {
    Vector::from_vec(cells.iter().map(|x| scalar(*x)).collect()).unwrap()
}

fn numbers(m: &Matrix) -> Vec<Vec<f64>> {
    m.to_rows().iter().map(|r| r.iter().map(|s| number(*s)).collect()).collect()
}

fn cells(v: &Vector) -> Vec<f64> {
    v.to_vec().iter().map(|s| number(*s)).collect()
}

fn data() -> Matrix {
    matrix(&[&[1.0, 2.0], &[3.0, 4.0], &[5.0, 6.0]])
}

/// Factors of the shape that `data` calls for, with singular values 5 and 2.
fn factors(tau: f64) -> Factors {
    Factors {
        U: matrix(&[&[1.0, 0.0], &[0.0, 1.0], &[0.0, 0.0]]),
        sigma: vector(&[5.0, 2.0]),
        excess: vector(&[5.0 - tau, 2.0 - tau]),
        Vt: matrix(&[&[1.0, 0.0], &[0.0, 1.0]]),
    }
}

/// The product `U * diag(s) * Vt`, cell by cell.
fn product(u: &Matrix, s: &Vector, vt: &Matrix) -> Matrix {
    let rows = (0..u.rows())
        .map(|i| {
            (0..vt.cols())
                .map(|j| {
                    let mut sum = 0.0;
                    for k in 0..s.len() {
                        sum += number(u.get(i, k)) * number(s.get(k)) * number(vt.get(k, j));
                    }
                    scalar(sum)
                })
                .collect()
        })
        .collect();
    Matrix::from_rows(rows).unwrap()
}

#[test]
fn singular_values_are_thresholded_before_the_product() {
    let seen = std::cell::RefCell::new(Vec::new());
    let out = Do(
        scalar(3.0),
        &data(),
        |tau: Scalar, _x: &Matrix| Some(factors(number(tau))),
        |u: &Matrix, s: &Vector, vt: &Matrix| {
            seen.borrow_mut().push(cells(s));
            product(u, s, vt)
        },
    )
    .unwrap();
    assert_eq!(*seen.borrow(), vec![vec![2.0, 0.0]]);
    assert_eq!(numbers(&out), vec![vec![2.0, 0.0], vec![0.0, 0.0], vec![0.0, 0.0]]);
}

#[test]
fn the_threshold_and_the_matrix_are_handed_to_the_decomposition() {
    let seen = std::cell::RefCell::new(Vec::new());
    let x = data();
    Do(
        scalar(0.75),
        &x,
        |tau: Scalar, x: &Matrix| {
            seen.borrow_mut().push((number(tau), numbers(x)));
            Some(factors(number(tau)))
        },
        product,
    )
    .unwrap();
    assert_eq!(*seen.borrow(), vec![(0.75, numbers(&x))]);
}

#[test]
fn a_threshold_of_zero_leaves_the_singular_values() {
    let out = Do(scalar(0.0), &data(), |tau: Scalar, _x: &Matrix| Some(factors(number(tau))), product).unwrap();
    assert_eq!(numbers(&out), vec![vec![5.0, 0.0], vec![0.0, 2.0], vec![0.0, 0.0]]);
}

#[test]
fn a_threshold_above_every_singular_value_leaves_nothing() {
    let out = Do(scalar(5.0), &data(), |tau: Scalar, _x: &Matrix| Some(factors(number(tau))), product).unwrap();
    assert_eq!(numbers(&out), vec![vec![0.0, 0.0], vec![0.0, 0.0], vec![0.0, 0.0]]);
}

#[test]
fn shrinkage_refuses_a_matrix_that_is_not_finite() {
    let called = std::cell::Cell::new(false);
    let x = matrix(&[&[1.0, f64::INFINITY], &[3.0, 4.0]]);
    let r = Do(
        scalar(1.0),
        &x,
        |tau: Scalar, _x: &Matrix| {
            called.set(true);
            Some(factors(number(tau)))
        },
        product,
    );
    assert_eq!(r.unwrap_err(), FitError::NonFiniteInput);
    assert!(!called.get());
}

#[test]
fn shrinkage_reports_a_failed_decomposition() {
    let r = Do(scalar(1.0), &data(), |_tau: Scalar, _x: &Matrix| None, product);
    assert_eq!(r.unwrap_err(), FitError::DecompositionFailed);
}

#[test]
fn shrinkage_refuses_factors_of_another_shape() {
    let x = data();
    let r = Do(
        scalar(1.0),
        &x,
        |tau: Scalar, _x: &Matrix| Some(Factors { sigma: vector(&[5.0, 2.0, 1.0]), ..factors(number(tau)) }),
        product,
    );
    assert_eq!(r.unwrap_err(), FitError::ShapeMismatch);
    let r = Do(
        scalar(1.0),
        &x,
        |tau: Scalar, _x: &Matrix| Some(Factors { excess: vector(&[5.0]), ..factors(number(tau)) }),
        product,
    );
    assert_eq!(r.unwrap_err(), FitError::ShapeMismatch);
    let r = Do(
        scalar(1.0),
        &x,
        |tau: Scalar, _x: &Matrix| Some(Factors { U: matrix(&[&[1.0, 0.0], &[0.0, 1.0]]), ..factors(number(tau)) }),
        product,
    );
    assert_eq!(r.unwrap_err(), FitError::ShapeMismatch);
    let r = Do(
        scalar(1.0),
        &x,
        |tau: Scalar, _x: &Matrix| Some(Factors { Vt: matrix(&[&[1.0, 0.0, 0.0], &[0.0, 1.0, 0.0]]), ..factors(number(tau)) }),
        product,
    );
    assert_eq!(r.unwrap_err(), FitError::ShapeMismatch);
}

#[test]
fn shrinkage_refuses_a_product_of_another_shape() {
    let r = Do(
        scalar(1.0),
        &data(),
        |tau: Scalar, _x: &Matrix| Some(factors(number(tau))),
        |_u: &Matrix, _s: &Vector, _vt: &Matrix| matrix(&[&[1.0, 2.0]]),
    );
    assert_eq!(r.unwrap_err(), FitError::ShapeMismatch);
}
