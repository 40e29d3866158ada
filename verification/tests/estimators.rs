use lowrank::{rPCA, rPCAHyperParams, Ascent, Do, Factors, Matrix, Residue, Scalar, Spectrum, Vector, PCA};
use ndarray::{Array, Array1, Array2, Axis};
use ndarray_rand::rand_distr::Uniform;
use ndarray_rand::RandomExt;
use std::cell::RefCell;

fn scalar(x: f64) -> Scalar {
    Scalar::from_bits(x.to_bits())
}

fn number(s: Scalar) -> f64 {
    f64::from_bits(s.to_bits())
}

fn to_matrix(a: &Array2<f64>) -> Matrix {
    Matrix::from_rows(a.rows().into_iter().map(|r| r.iter().map(|x| scalar(*x)).collect()).collect()).unwrap()
}

fn from_matrix(m: &Matrix) -> Array2<f64> {
    let cells: Vec<f64> = m.to_rows().iter().flat_map(|r| r.iter().map(|s| number(*s))).collect();
    Array2::from_shape_vec((m.rows(), m.cols()), cells).unwrap()
}

fn to_vector(a: &Array1<f64>) -> Vector {
    Vector::from_vec(a.iter().map(|x| scalar(*x)).collect()).unwrap()
}

fn frobenius_norm(x: &Array2<f64>) -> f64 {
    x.map(|x| x.powi(2)).sum().sqrt()
}

/// The product `a * b^T`, cell by cell.
fn times_transposed(a: &Array2<f64>, b: &Array2<f64>) -> Array2<f64> {
    let a = a.as_standard_layout();
    let b = b.as_standard_layout();
    Array2::from_shape_fn((a.nrows(), b.nrows()), |(i, j)| {
        a.row(i).iter().zip(b.row(j).iter()).map(|(x, y)| x * y).sum()
    })
}

/// Rotates rows `p` and `q` of `rows`, where `p < q`, by the angle whose cosine is `c` and whose sine is `s`.
fn rotate(rows: &mut [Vec<f64>], p: usize, q: usize, c: f64, s: f64) {
    let (head, tail) = rows.split_at_mut(q);
    for (x, y) in head[p].iter_mut().zip(tail[0].iter_mut()) {
        let xp = *x;
        let xq = *y;
        *x = c * xp - s * xq;
        *y = s * xp + c * xq;
    }
}

/// The singular value decomposition of `a` by Jacobi rotations, which start from the basis `start`.
/// It gives `U`, the singular values in descending order, and `V`, so that `a = U * diag(s) * V^T`.
fn svd_from(a: &Array2<f64>, start: Option<&Array2<f64>>) -> (Array2<f64>, Array1<f64>, Array2<f64>) {
    let (n, m) = a.dim();
    if n < m {
        let (u, s, v) = svd_from(&a.t().to_owned(), None);
        return (v, s, u);
    }
    // `v` holds the basis, one vector a row; `g` is the Gram matrix of the columns of `a * V`.
    let mut v: Array2<f64> = match start {
        Some(v) if v.dim() == (m, m) => v.t().to_owned(),
        _ => Array2::eye(m),
    };
    let w = times_transposed(&v, a);
    let gram = times_transposed(&w, &w);
    let mut g: Vec<Vec<f64>> = gram.rows().into_iter().map(|r| r.to_vec()).collect();
    let mut basis: Vec<Vec<f64>> = v.rows().into_iter().map(|r| r.to_vec()).collect();
    for _sweep in 0..100 {
        let mut rotated = false;
        for p in 0..m.saturating_sub(1) {
            for q in (p + 1)..m {
                let alpha = g[p][p];
                let beta = g[q][q];
                let gamma = g[p][q];
                if gamma == 0.0 || gamma.abs() <= 1.0e-10 * (alpha * beta).abs().sqrt() {
                    continue;
                }
                rotated = true;
                let zeta = (beta - alpha) / (2.0 * gamma);
                let t = zeta.signum() / (zeta.abs() + (1.0 + zeta * zeta).sqrt());
                let c = 1.0 / (1.0 + t * t).sqrt();
                let s = c * t;
                rotate(&mut g, p, q, c, s);
                for k in 0..m {
                    g[k][p] = g[p][k];
                    g[k][q] = g[q][k];
                }
                g[p][p] = alpha - t * gamma;
                g[q][q] = beta + t * gamma;
                g[p][q] = 0.0;
                g[q][p] = 0.0;
                rotate(&mut basis, p, q, c, s);
            }
        }
        if !rotated {
            break;
        }
    }
    for (k, row) in basis.iter().enumerate() {
        for (i, x) in row.iter().enumerate() {
            v[[k, i]] = *x;
        }
    }
    let w = times_transposed(&v, a);
    let mut order: Vec<(f64, usize)> = (0..m).map(|j| (w.row(j).map(|x| x * x).sum().sqrt(), j)).collect();
    order.sort_by(|a, b| b.0.partial_cmp(&a.0).unwrap());
    let mut u = Array2::zeros((n, m));
    let mut basis = Array2::zeros((m, m));
    let mut sigma = Array1::zeros(m);
    for (k, (s, j)) in order.iter().enumerate() {
        sigma[k] = *s;
        for i in 0..n {
            u[[i, k]] = if *s > 0.0 { w[[*j, i]] / *s } else { 0.0 };
        }
        for i in 0..m {
            basis[[i, k]] = v[[*j, i]];
        }
    }
    (u, sigma, basis)
}

fn svd(a: &Array2<f64>) -> (Array2<f64>, Array1<f64>, Array2<f64>) {
    svd_from(a, None)
}

fn from_vector(v: &Vector) -> Array1<f64> {
    Array1::from_vec(v.to_vec().iter().map(|s| number(*s)).collect())
}

/// The singular values of `x`, shrunk by `tau`, put back between the singular vectors: the decomposition, the
/// subtraction and the product here, the rest in the library.
fn shrink_singular_values(tau: f64, x: &Array2<f64>, basis: &RefCell<Option<Array2<f64>>>) -> Array2<f64> {
    let out = Do(
        scalar(tau),
        &to_matrix(x),
        |tau: Scalar, x: &Matrix| {
            let (u, s, v) = svd_from(&from_matrix(x), basis.borrow().as_ref());
            if v.nrows() == v.ncols() {
                *basis.borrow_mut() = Some(v.clone());
            }
            let excess = s.map(|s| s - number(tau));
            Some(Factors {
                U: to_matrix(&u),
                sigma: to_vector(&s),
                excess: to_vector(&excess),
                Vt: to_matrix(&v.t().to_owned()),
            })
        },
        |u: &Matrix, s: &Vector, vt: &Matrix| {
            to_matrix(&times_transposed(&(from_matrix(u) * &from_vector(s)), &from_matrix(vt).t().to_owned()))
        },
    );
    from_matrix(&out.unwrap())
}

/// Fits the robust model to `x` with the three steps of the method in floating-point arithmetic.
fn fit_rpca(h: rPCAHyperParams, x: &Array2<f64>) -> rPCA {
    let basis = RefCell::new(None);
    rPCA::fit(
        h,
        &to_matrix(x),
        |x: &Matrix| scalar(frobenius_norm(&from_matrix(x))),
        |h: &rPCAHyperParams, _x: &Matrix, s: &Matrix, y: &Matrix| {
            let mu = number(h.mu());
            let scaled_y = from_matrix(y).map(|v| v * (1.0 / mu));
            let l = shrink_singular_values(1.0 / mu, &(x - &from_matrix(s) + &scaled_y), &basis);
            Some(to_matrix(&l))
        },
        |h: &rPCAHyperParams, _x: &Matrix, l: &Matrix, y: &Matrix| {
            let mu = number(h.mu());
            let scaled_y = from_matrix(y).map(|v| v * (1.0 / mu));
            let value = x - &from_matrix(l) + &scaled_y;
            let excess = value.map(|v| v.abs() - number(h.lambda()) / mu);
            Residue { value: to_matrix(&value), excess: to_matrix(&excess) }
        },
        |h: &rPCAHyperParams, _x: &Matrix, norm_x: Scalar, l: &Matrix, s: &Matrix, y: &Matrix| {
            let mu = number(h.mu());
            let z = x - &from_matrix(l) - &from_matrix(s);
            let y = from_matrix(y) + z.map(|v| v * mu);
            Ascent { Y: to_matrix(&y), residual: scalar(frobenius_norm(&z) / number(norm_x)) }
        },
    )
    .unwrap()
}

fn default_hyperparameters(n: usize, m: usize) -> rPCAHyperParams {
    rPCAHyperParams::new(n as u64, m as u64, |scale: u64| {
        let lambda = 1.0 / (scale as f64).sqrt();
        (scalar(lambda), scalar(10.0 * lambda))
    })
    .build()
    .unwrap()
}

/// The mean, the scaled left singular vectors and the cumulative explained variance ratio of `x`.
fn decompose(x: &Array2<f64>) -> (Spectrum, Array1<f64>) {
    let (n, m) = x.dim();
    let mean = x.mean_axis(Axis(0)).unwrap();
    let b = x - &mean;
    let (u, sigma, _v) = svd(&b);
    let r = n.min(m);
    let explained_variance = sigma.map(|s| s.powi(2) / ((n - 1) as f64));
    let total: f64 = explained_variance.sum();
    let ratio = explained_variance.map(|e| e / total);
    let mut cumulative = ratio.clone();
    cumulative.accumulate_axis_inplace(Axis(0), |&prev, curr| *curr += prev);
    let mut basis = Array2::zeros((n, r));
    for k in 0..r {
        for i in 0..n {
            basis[[i, k]] = u[[i, k]] * sigma[k];
        }
    }
    let cumulative = Array1::from_shape_fn(r, |k| cumulative[k]);
    (Spectrum { mean: to_vector(&mean), basis: to_matrix(&basis), cumulative_ratio: to_vector(&cumulative) }, ratio)
}

#[test]
#[allow(non_snake_case)]
fn test_PCA() {
    let X: Array2<f64> = Array::random((100, 100), Uniform::new(-100., 100.).unwrap());

    let model = PCA::fit(&to_matrix(&X), scalar(1.0), |_x: &Matrix| Some(decompose(&X).0)).unwrap();
    assert_eq!(model.components().rows(), 100);
    assert_eq!(model.components().cols(), 100);
    assert_eq!(model.mean().len(), 100);
}

#[test]
#[allow(non_snake_case)]
fn test_rPCA() {
    let X: Array2<f64> = Array::random((100, 100), Uniform::new(-100., 100.).unwrap());
    let (_n, _m) = X.dim();
    let hyperparams = default_hyperparameters(_n, _m);

    let started = std::time::Instant::now();
    let model = fit_rpca(hyperparams, &X);
    println!("{} iterations in {} ms", model.iterations(), started.elapsed().as_millis());
    assert_eq!(model.L().rows(), 100);
    assert_eq!(model.L().cols(), 100);
    assert!(model.S().same_shape(model.L()));
    assert!(model.iterations() >= 1 && model.iterations() <= 1000);
    assert!(number(model.residual()).is_finite());
    if model.iterations() < 1000 {
        assert!(number(model.residual()) < 1.0e-6);
    }
}

#[test]
fn shrinking_singular_values_by_zero_gives_the_matrix_back() {
    let x = Array2::from_shape_fn((9, 6), |(i, j)| ((i * 7 + j * 5) % 11) as f64 - 4.5 + 0.25 * (j as f64));
    let out = shrink_singular_values(0.0, &x, &RefCell::new(None));
    assert!(frobenius_norm(&(&out - &x)) / frobenius_norm(&x) < 1.0e-9);
    let wide = x.t().to_owned();
    let out = shrink_singular_values(0.0, &wide, &RefCell::new(None));
    assert!(frobenius_norm(&(&out - &wide)) / frobenius_norm(&wide) < 1.0e-9);
}

#[test]
fn shrinking_singular_values_lowers_each_by_the_threshold() {
    let x = Array2::from_shape_vec((3, 2), vec![3.0, 0.0, 0.0, 4.0, 0.0, 0.0]).unwrap();
    let out = shrink_singular_values(1.0, &x, &RefCell::new(None));
    let expected = Array2::from_shape_vec((3, 2), vec![2.0, 0.0, 0.0, 3.0, 0.0, 0.0]).unwrap();
    assert!(frobenius_norm(&(&out - &expected)) < 1.0e-12);
    let out = shrink_singular_values(3.5, &x, &RefCell::new(None));
    let expected = Array2::from_shape_vec((3, 2), vec![0.0, 0.0, 0.0, 0.5, 0.0, 0.0]).unwrap();
    assert!(frobenius_norm(&(&out - &expected)) < 1.0e-12);
    let out = shrink_singular_values(4.0, &x, &RefCell::new(None));
    assert!(frobenius_norm(&out) == 0.0);
}

#[test]
fn the_kernel_decomposes_a_small_matrix() {
    let a = Array2::from_shape_vec((3, 2), vec![3.0, 0.0, 0.0, 4.0, 0.0, 0.0]).unwrap();
    let (u, s, v) = svd(&a);
    assert!((s[0] - 4.0).abs() < 1e-12 && (s[1] - 3.0).abs() < 1e-12);
    let back = times_transposed(&(&u * &s), &v);
    assert!(frobenius_norm(&(&back - &a)) < 1e-12);
}

#[test]
fn explained_variance_ratios_sum_to_one() {
    let x = Array2::from_shape_fn((30, 12), |(i, j)| ((i * 37 + j * 11) % 23) as f64 - 0.3 * (i as f64));
    let (spectrum, ratio) = decompose(&x);
    assert!((ratio.sum() - 1.0).abs() < 1e-9);
    let cumulative: Vec<f64> = spectrum.cumulative_ratio.to_vec().iter().map(|s| number(*s)).collect();
    for k in 0..cumulative.len() {
        assert!(cumulative[k] >= -1e-12 && cumulative[k] <= 1.0 + 1e-9);
        if k > 0 {
            assert!(cumulative[k] >= cumulative[k - 1]);
        }
    }
    let model = PCA::fit(&to_matrix(&x), scalar(1.0), |_x: &Matrix| Some(decompose(&x).0)).unwrap();
    assert_eq!(model.components().cols(), 12);
    assert_eq!(model.components().rows(), 30);
    assert_eq!(model.mean().len(), 12);
}

#[test]
fn a_share_of_the_variance_keeps_fewer_components() {
    let x = Array2::from_shape_fn((30, 12), |(i, j)| ((i * 37 + j * 11) % 23) as f64 - 0.3 * (i as f64));
    let (spectrum, _ratio) = decompose(&x);
    let cumulative: Vec<f64> = spectrum.cumulative_ratio.to_vec().iter().map(|s| number(*s)).collect();
    let target = 0.9;
    let expected = cumulative.iter().position(|c| *c > target).unwrap() + 1;
    let model = PCA::fit(&to_matrix(&x), scalar(target), |_x: &Matrix| Some(decompose(&x).0)).unwrap();
    assert_eq!(model.components().cols(), expected);
    assert!(expected < 12);
    let model = PCA::fit(&to_matrix(&x), scalar(3.0), |_x: &Matrix| Some(decompose(&x).0)).unwrap();
    assert_eq!(model.components().cols(), 3);
}

/// A generator of numbers in `[0, 1)` that gives the same ones every time.
fn next(state: &mut u64) -> f64 {
    *state = state.wrapping_mul(6364136223846793005).wrapping_add(1442695040888963407);
    ((*state >> 11) as f64) / ((1u64 << 53) as f64)
}

#[test]
fn a_low_rank_part_and_sparse_outliers_are_told_apart() {
    let n = 50;
    let mut state = 20_240_229u64;
    let mut u = Array1::from_shape_fn(n, |_| next(&mut state) - 0.5);
    let mut v = Array1::from_shape_fn(n, |_| next(&mut state) - 0.5);
    u /= u.map(|x| x * x).sum().sqrt();
    v /= v.map(|x| x * x).sum().sqrt();
    let l0 = Array2::from_shape_fn((n, n), |(i, j)| 10.0 * u[i] * v[j]);
    let mut s0 = Array2::<f64>::zeros((n, n));
    let mut placed = 0;
    while placed < n * n / 20 {
        let i = (next(&mut state) * n as f64) as usize;
        let j = (next(&mut state) * n as f64) as usize;
        if s0[[i, j]] == 0.0 {
            s0[[i, j]] = if next(&mut state) < 0.5 { 50.0 } else { -50.0 };
            placed += 1;
        }
    }
    let x = &l0 + &s0;

    let started = std::time::Instant::now();
    let model = fit_rpca(default_hyperparameters(n, n), &x);
    println!("{} iterations in {} ms", model.iterations(), started.elapsed().as_millis());
    let l = from_matrix(model.L());
    let s = from_matrix(model.S());

    assert!(frobenius_norm(&(&l - &l0)) / frobenius_norm(&l0) < 0.1);
    let mut support = 0;
    let mut shared = 0;
    for i in 0..n {
        for j in 0..n {
            if s0[[i, j]] != 0.0 {
                support += 1;
                if s[[i, j]] != 0.0 {
                    shared += 1;
                }
            }
        }
    }
    assert!(shared as f64 > 0.8 * support as f64);
    if model.iterations() < 1000 {
        assert!(frobenius_norm(&(&x - &l - &s)) / frobenius_norm(&x) < 1.0e-6);
        assert!(model.converged());
    }
}
