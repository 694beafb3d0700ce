use electron::binary64::{is_nan, le, lt, order_key};
use electron::guess::{
    check_overlap, energy_order, plan_guess, reorder_columns, GuessError, GuessPlan,
};
use faer::{Mat, Side};

// ── The guess as the program computes it ──────────────────────────────────────

fn key(x: f64) -> i64 {
    order_key(if x.is_nan() { f64::NAN.to_bits() } else { x.to_bits() })
}

fn keys(values: &[f64]) -> Vec<i64> {
    values.iter().map(|&x| key(x)).collect()
}

fn shape(m: &Mat<f64>) -> (usize, usize) {
    (m.nrows(), m.ncols())
}

fn guess_hcore(
    s: &Mat<f64>,
    t: &Mat<f64>,
    v: &Mat<f64>,
    n_alpha: usize,
    n_beta: usize,
) -> Result<Mat<f64>, GuessError> {
    let n = match plan_guess(shape(s), shape(t), shape(v), n_alpha, n_beta) {
        GuessPlan::Reject(error) => return Err(error),
        GuessPlan::Empty => return Ok(Mat::zeros(0, 0)),
        GuessPlan::Solve { n_basis } => n_basis,
    };
    let evd_s = s.selfadjoint_eigendecomposition(Side::Lower);
    let lambdas: Vec<f64> = (0..n).map(|i| evd_s.s().column_vector().read(i)).collect();
    check_overlap(&keys(&lambdas))?;
    let h_core: Mat<f64> = t + v;
    let u_s = evd_s.u();
    let x: Mat<f64> = Mat::from_fn(n, n, |i, j| u_s[(i, j)] * lambdas[j].powf(-0.5));
    let xt_hc: Mat<f64> = x.transpose() * &h_core;
    let h_prime: Mat<f64> = &xt_hc * &x;
    let evd_h = h_prime.selfadjoint_eigendecomposition(Side::Lower);
    let energies: Vec<f64> = (0..n).map(|i| evd_h.s().column_vector().read(i)).collect();
    let order = energy_order(&keys(&energies));
    let u_prime = evd_h.u();
    let columns: Vec<Vec<f64>> =
        (0..n).map(|j| (0..n).map(|i| u_prime[(i, j)]).collect()).collect();
    let sorted = reorder_columns(&columns, &order);
    let u_sorted: Mat<f64> = Mat::from_fn(n, n, |i, j| sorted[j][i]);
    Ok(&x * &u_sorted)
}

// ── Helpers ───────────────────────────────────────────────────────────────────

// Build an n×n Mat<f64> from a flat row-major array.
fn mat2(data: [f64; 4]) -> Mat<f64> {
    Mat::from_fn(2, 2, |i, j| data[i * 2 + j])
}

fn mat3(data: [f64; 9]) -> Mat<f64> {
    Mat::from_fn(3, 3, |i, j| data[i * 3 + j])
}

fn mat4(data: [f64; 16]) -> Mat<f64> {
    Mat::from_fn(4, 4, |i, j| data[i * 4 + j])
}

// Verify C^T S C ≈ identity to within `tol`.
fn assert_orthonormal(c: &Mat<f64>, s: &Mat<f64>, tol: f64) {
    let n = c.nrows();
    let ct_s: Mat<f64> = c.transpose() * s;
    let ct_s_c: Mat<f64> = &ct_s * c;
    for i in 0..n {
        for j in 0..n {
            let expected = if i == j { 1.0 } else { 0.0 };
            let diff = (ct_s_c[(i, j)] - expected).abs();
            assert!(
                diff < tol,
                "C^T S C [{i},{j}] = {:.6}, expected {expected:.1}, diff {diff:.2e}",
                ct_s_c[(i, j)]
            );
        }
    }
}

// H₂-like STO-3G matrices at ~1.4 Bohr.
fn h2() -> (Mat<f64>, Mat<f64>, Mat<f64>) {
    let s = mat2([1.0, 0.5, 0.5, 1.0]);
    let t = mat2([0.760, 0.236, 0.236, 0.760]);
    let v = mat2([-1.883, -1.190, -1.190, -1.883]);
    (s, t, v)
}

// Simple 3×3 well-conditioned system (identity overlap).
fn three_by_three() -> (Mat<f64>, Mat<f64>, Mat<f64>) {
    let s = Mat::identity(3, 3);
    let t = mat3([1.0, 0.2, 0.1, 0.2, 1.5, 0.3, 0.1, 0.3, 2.0]);
    let v = mat3([-3.0, -0.4, -0.2, -0.4, -2.5, -0.5, -0.2, -0.5, -2.0]);
    (s, t, v)
}

// ── Happy paths ────────────────────────────────────────────────────────────

/// Scenario: 2×2 system produces orthonormal MOs (S-metric).
#[test]
fn two_by_two_c_is_orthonormal() {
    let (s, t, v) = h2();
    let c = guess_hcore(&s, &t, &v, 1, 1).expect("should succeed");
    assert_eq!((c.nrows(), c.ncols()), (2, 2));
    assert_orthonormal(&c, &s, 1e-6);
}

/// Scenario: Columns of C are sorted by ascending orbital energy.
#[test]
fn columns_sorted_by_ascending_energy() {
    // S = I, H_core = diag(0.2, -1.5): column 0 → -1.5, column 1 → 0.2.
    let s = Mat::<f64>::identity(2, 2);
    let t = mat2([0.2, 0.0, 0.0, 0.0]);
    let v = mat2([0.0, 0.0, 0.0, -1.5]);
    let c = guess_hcore(&s, &t, &v, 1, 1).expect("should succeed");
    let h_core = mat2([0.2, 0.0, 0.0, -1.5]);
    let temp: Mat<f64> = c.transpose() * &h_core;
    let ct_h_c: Mat<f64> = &temp * &c;
    assert!(
        ct_h_c[(0, 0)] < ct_h_c[(1, 1)],
        "first MO energy ({}) must be < second ({})",
        ct_h_c[(0, 0)],
        ct_h_c[(1, 1)]
    );
    assert!((ct_h_c[(0, 0)] - (-1.5)).abs() < 1e-6, "first MO energy ≈ -1.5");
    assert!((ct_h_c[(1, 1)] - 0.2).abs() < 1e-6, "second MO energy ≈ 0.2");
}

/// Scenario: S = identity gives C that diagonalises H_core.
#[test]
fn identity_overlap_diagonalises_h_core() {
    // H_core = diag(1.0, -2.0, -0.5); sorted eigenvalues: -2.0, -0.5, 1.0.
    let s = Mat::<f64>::identity(3, 3);
    let t = mat3([1.0, 0.0, 0.0, 0.0, 0.0, 0.0, 0.0, 0.0, 0.0]);
    let v = mat3([0.0, 0.0, 0.0, 0.0, -2.0, 0.0, 0.0, 0.0, -0.5]);
    let c = guess_hcore(&s, &t, &v, 1, 1).expect("should succeed");
    let h_core = mat3([1.0, 0.0, 0.0, 0.0, -2.0, 0.0, 0.0, 0.0, -0.5]);
    let temp: Mat<f64> = c.transpose() * &h_core;
    let ct_h_c: Mat<f64> = &temp * &c;
    for (k, &expected) in [-2.0_f64, -0.5, 1.0].iter().enumerate() {
        assert!(
            (ct_h_c[(k, k)] - expected).abs() < 1e-6,
            "diag[{k}] = {}, expected {expected}",
            ct_h_c[(k, k)]
        );
    }
}

/// Scenario: 1×1 system returns a 1×1 coefficient matrix.
#[test]
fn one_by_one_system() {
    let s = Mat::from_fn(1, 1, |_, _| 1.0_f64);
    let t = Mat::from_fn(1, 1, |_, _| 0.5_f64);
    let v = Mat::from_fn(1, 1, |_, _| -1.5_f64);
    let c = guess_hcore(&s, &t, &v, 1, 0).expect("should succeed");
    assert_eq!((c.nrows(), c.ncols()), (1, 1));
    // With S = [1], the normalised coefficient must be ±1.
    assert!((c[(0, 0)].abs() - 1.0).abs() < 1e-9, "C[0,0] must be ±1");
}

/// Scenario: Zero electrons is accepted; C is still a full orthonormal basis.
#[test]
fn zero_electrons_accepted() {
    let (s, t, v) = three_by_three();
    let c = guess_hcore(&s, &t, &v, 0, 0).expect("should succeed");
    assert_eq!((c.nrows(), c.ncols()), (3, 3));
    assert_orthonormal(&c, &s, 1e-6);
}

/// Scenario: n_alpha = n_beta = n_basis (fully occupied) is accepted.
#[test]
fn fully_occupied_accepted() {
    let (s, t, v) = three_by_three();
    let c = guess_hcore(&s, &t, &v, 3, 3).expect("should succeed");
    assert_eq!((c.nrows(), c.ncols()), (3, 3));
}

/// Scenario: Unrestricted (n_alpha ≠ n_beta) is accepted; C is orthonormal.
#[test]
fn unrestricted_spin_accepted() {
    let s = Mat::<f64>::identity(4, 4);
    let t = mat4([
        1.0, 0.1, 0.05, 0.02, 0.1, 1.5, 0.08, 0.03, 0.05, 0.08, 2.0, 0.1, 0.02, 0.03, 0.1, 2.5,
    ]);
    let v = mat4([
        -3.0, -0.2, -0.1, -0.05, -0.2, -2.5, -0.15, -0.06, -0.1, -0.15, -2.0, -0.2, -0.05, -0.06,
        -0.2, -1.5,
    ]);
    let c = guess_hcore(&s, &t, &v, 3, 2).expect("should succeed");
    assert_eq!((c.nrows(), c.ncols()), (4, 4));
    assert_orthonormal(&c, &s, 1e-6);
}

// ── Dimension mismatch errors ──────────────────────────────────────────────

/// Scenario: T has a different size from S → DimensionMismatch.
#[test]
fn t_different_size() {
    let s = Mat::<f64>::zeros(3, 3);
    let t = Mat::<f64>::zeros(2, 2);
    let v = Mat::<f64>::zeros(3, 3);
    assert_eq!(
        guess_hcore(&s, &t, &v, 0, 0),
        Err(GuessError::DimensionMismatch { s_shape: (3, 3), t_shape: (2, 2), v_shape: (3, 3) })
    );
}

/// Scenario: V has a different size from S → DimensionMismatch.
#[test]
fn v_different_size() {
    let s = Mat::<f64>::zeros(3, 3);
    let t = Mat::<f64>::zeros(3, 3);
    let v = Mat::<f64>::zeros(4, 4);
    assert_eq!(
        guess_hcore(&s, &t, &v, 0, 0),
        Err(GuessError::DimensionMismatch { s_shape: (3, 3), t_shape: (3, 3), v_shape: (4, 4) })
    );
}

/// Scenario: Non-square S → DimensionMismatch.
#[test]
fn non_square_s() {
    let s = Mat::<f64>::zeros(3, 2);
    let t = Mat::<f64>::zeros(3, 3);
    let v = Mat::<f64>::zeros(3, 3);
    assert_eq!(
        guess_hcore(&s, &t, &v, 0, 0),
        Err(GuessError::DimensionMismatch { s_shape: (3, 2), t_shape: (3, 3), v_shape: (3, 3) })
    );
}

/// Scenario: Non-square T → DimensionMismatch.
#[test]
fn non_square_t() {
    let s = Mat::<f64>::zeros(3, 3);
    let t = Mat::<f64>::zeros(3, 2);
    let v = Mat::<f64>::zeros(3, 3);
    assert_eq!(
        guess_hcore(&s, &t, &v, 0, 0),
        Err(GuessError::DimensionMismatch { s_shape: (3, 3), t_shape: (3, 2), v_shape: (3, 3) })
    );
}

// ── Electron count errors ──────────────────────────────────────────────────

/// Scenario: n_alpha > n_basis → TooManyElectrons.
#[test]
fn n_alpha_exceeds_n_basis() {
    let (s, t, v) = three_by_three();
    assert_eq!(
        guess_hcore(&s, &t, &v, 4, 1),
        Err(GuessError::TooManyElectrons { n_alpha: 4, n_beta: 1, n_basis: 3 })
    );
}

/// Scenario: n_beta > n_basis → TooManyElectrons.
#[test]
fn n_beta_exceeds_n_basis() {
    let (s, t, v) = three_by_three();
    assert_eq!(
        guess_hcore(&s, &t, &v, 1, 4),
        Err(GuessError::TooManyElectrons { n_alpha: 1, n_beta: 4, n_basis: 3 })
    );
}

/// Scenario: Dimension mismatch takes priority over TooManyElectrons.
#[test]
fn dimension_mismatch_priority() {
    let s = Mat::<f64>::zeros(3, 3);
    let t = Mat::<f64>::zeros(2, 2);
    let v = Mat::<f64>::zeros(3, 3);
    assert!(matches!(
        guess_hcore(&s, &t, &v, 5, 5),
        Err(GuessError::DimensionMismatch { .. })
    ));
}

// ── Numerical errors ───────────────────────────────────────────────────────

/// Scenario: Rank-deficient S → SingularOverlap.
/// S = [[1,1],[1,1]] has eigenvalues 0 and 2; the zero eigenvalue triggers the error.
#[test]
fn singular_overlap_rank_deficient() {
    let s = mat2([1.0, 1.0, 1.0, 1.0]);
    let t = Mat::<f64>::identity(2, 2);
    let v = Mat::<f64>::zeros(2, 2);
    assert_eq!(guess_hcore(&s, &t, &v, 0, 0), Err(GuessError::SingularOverlap));
}

/// Scenario: Negative definite S → SingularOverlap.
#[test]
fn singular_overlap_negative_definite() {
    let s = mat2([-1.0, 0.0, 0.0, -1.0]);
    let t = Mat::<f64>::identity(2, 2);
    let v = Mat::<f64>::zeros(2, 2);
    assert_eq!(guess_hcore(&s, &t, &v, 0, 0), Err(GuessError::SingularOverlap));
}

// ── The decisions by themselves ────────────────────────────────────────────

#[test]
fn plan_for_every_kind_of_input() {
    assert_eq!(plan_guess((0, 0), (0, 0), (0, 0), 0, 0), GuessPlan::Empty);
    assert_eq!(plan_guess((5, 5), (5, 5), (5, 5), 5, 0), GuessPlan::Solve { n_basis: 5 });
    assert_eq!(plan_guess((1, 1), (1, 1), (1, 1), 0, 1), GuessPlan::Solve { n_basis: 1 });
    // No basis function, but an electron: the count is looked at before the empty basis.
    assert_eq!(
        plan_guess((0, 0), (0, 0), (0, 0), 1, 0),
        GuessPlan::Reject(GuessError::TooManyElectrons { n_alpha: 1, n_beta: 0, n_basis: 0 })
    );
    assert_eq!(
        plan_guess((2, 2), (2, 2), (2, 2), 2, 3),
        GuessPlan::Reject(GuessError::TooManyElectrons { n_alpha: 2, n_beta: 3, n_basis: 2 })
    );
    // Shapes come first, with all three shapes in the error.
    assert_eq!(
        plan_guess((2, 2), (2, 2), (2, 3), 9, 9),
        GuessPlan::Reject(GuessError::DimensionMismatch {
            s_shape: (2, 2),
            t_shape: (2, 2),
            v_shape: (2, 3)
        })
    );
    assert_eq!(
        plan_guess((0, 0), (1, 1), (0, 0), 0, 0),
        GuessPlan::Reject(GuessError::DimensionMismatch {
            s_shape: (0, 0),
            t_shape: (1, 1),
            v_shape: (0, 0)
        })
    );
    assert_eq!(
        plan_guess((3, 3), (3, 3), (2, 2), 0, 0),
        GuessPlan::Reject(GuessError::DimensionMismatch {
            s_shape: (3, 3),
            t_shape: (3, 3),
            v_shape: (2, 2)
        })
    );
}

#[test]
fn empty_basis_gives_the_empty_matrix() {
    let s = Mat::<f64>::zeros(0, 0);
    let c = guess_hcore(&s, &s, &s, 0, 0).expect("should succeed");
    assert_eq!((c.nrows(), c.ncols()), (0, 0));
}

#[test]
fn overlap_spectrum_must_be_above_zero() {
    assert_eq!(check_overlap(&vec![]), Ok(()));
    assert_eq!(check_overlap(&keys(&[0.5, 2.0, 1e-300])), Ok(()));
    assert_eq!(check_overlap(&keys(&[0.5, 0.0, 1.0])), Err(GuessError::SingularOverlap));
    assert_eq!(check_overlap(&keys(&[0.5, -0.0])), Err(GuessError::SingularOverlap));
    assert_eq!(check_overlap(&keys(&[-1e-300, 3.0])), Err(GuessError::SingularOverlap));
    assert_eq!(check_overlap(&vec![1, 2, 3]), Ok(()));
    assert_eq!(check_overlap(&vec![1, 0, 3]), Err(GuessError::SingularOverlap));
    assert_eq!(check_overlap(&vec![i64::MIN]), Err(GuessError::SingularOverlap));
}

#[test]
fn energy_order_is_ascending_and_stable() {
    assert_eq!(energy_order(&vec![]), Vec::<usize>::new());
    assert_eq!(energy_order(&vec![7]), vec![0]);
    assert_eq!(energy_order(&vec![3, 1, 2]), vec![1, 2, 0]);
    assert_eq!(energy_order(&vec![5, 5, 5]), vec![0, 1, 2]);
    assert_eq!(energy_order(&vec![2, 1, 2, 1, 0]), vec![4, 1, 3, 0, 2]);
    assert_eq!(energy_order(&vec![i64::MAX, i64::MIN, 0]), vec![1, 2, 0]);
    assert_eq!(energy_order(&keys(&[0.2, -1.5])), vec![1, 0]);
    assert_eq!(energy_order(&keys(&[1.0, -2.0, -0.5])), vec![1, 2, 0]);
    // Zero with either sign is one energy.
    assert_eq!(energy_order(&keys(&[0.0, -0.0, 0.0, -1.0])), vec![3, 0, 1, 2]);
}

#[test]
fn energy_order_agrees_with_a_stable_sort() {
    let mut state: u64 = 0x2545F4914F6CDD1D;
    for n in 0..40usize {
        let energies: Vec<i64> = (0..n)
            .map(|_| {
                state ^= state << 13;
                state ^= state >> 7;
                state ^= state << 17;
                (state % 7) as i64 - 3
            })
            .collect();
        let mut expected: Vec<usize> = (0..n).collect();
        expected.sort_by_key(|&i| energies[i]);
        assert_eq!(energy_order(&energies), expected);
    }
}

#[test]
fn columns_follow_the_order() {
    let columns = vec![vec![1.0, 2.0], vec![3.0, 4.0], vec![5.0, 6.0]];
    assert_eq!(
        reorder_columns(&columns, &vec![2, 0, 1]),
        vec![vec![5.0, 6.0], vec![1.0, 2.0], vec![3.0, 4.0]]
    );
    assert_eq!(reorder_columns(&columns, &vec![1, 1]), vec![vec![3.0, 4.0], vec![3.0, 4.0]]);
    assert_eq!(reorder_columns(&columns, &vec![]), Vec::<Vec<f64>>::new());
}

#[test]
fn keys_compare_as_the_numbers_do() {
    let numbers = [
        f64::NEG_INFINITY,
        -1e300,
        -180.0,
        -1.5,
        -f64::MIN_POSITIVE,
        -5e-324,
        0.0,
        5e-324,
        f64::MIN_POSITIVE,
        0.2,
        1.0,
        180.0,
        1e300,
        f64::INFINITY,
    ];
    for a in numbers {
        for b in numbers {
            assert_eq!(key(a) < key(b), a < b, "{a} < {b}");
            assert_eq!(key(a) == key(b), a == b, "{a} == {b}");
            assert_eq!(lt(a.to_bits(), b.to_bits()), a < b);
            assert_eq!(le(a.to_bits(), b.to_bits()), a <= b);
        }
        assert_eq!(key(a) <= 0, a <= 0.0);
        assert!(!is_nan(a.to_bits()));
        assert!(!lt(a.to_bits(), f64::NAN.to_bits()));
        assert!(!le(f64::NAN.to_bits(), a.to_bits()));
    }
    assert_eq!(order_key(0), 0);
    assert_eq!(order_key((-0.0f64).to_bits()), 0);
    assert_eq!(order_key(1), 1);
    assert_eq!(order_key(0x8000_0000_0000_0001), -1);
    assert_eq!(order_key(u64::MAX), -i64::MAX);
    assert_eq!(order_key(1.0f64.to_bits()), 0x3FF0_0000_0000_0000);
    assert!(is_nan(f64::NAN.to_bits()));
    assert!(is_nan((-f64::NAN).to_bits()));
    assert!(le((-0.0f64).to_bits(), 0.0f64.to_bits()));
    assert!(le(0.0f64.to_bits(), (-0.0f64).to_bits()));
    assert_eq!(180.0f64.to_bits(), electron::binary64::BITS_180);
    assert_eq!((-180.0f64).to_bits(), electron::binary64::BITS_MINUS_180);
}

#[test]
fn column_energies_ascend_for_a_dense_system() {
    let s = mat3([1.0, 0.3, 0.1, 0.3, 1.0, 0.2, 0.1, 0.2, 1.0]);
    let t = mat3([1.0, 0.2, 0.1, 0.2, 1.5, 0.3, 0.1, 0.3, 2.0]);
    let v = mat3([-3.0, -0.4, -0.2, -0.4, -2.5, -0.5, -0.2, -0.5, -2.0]);
    let c = guess_hcore(&s, &t, &v, 1, 1).expect("should succeed");
    assert_orthonormal(&c, &s, 1e-6);
    let h: Mat<f64> = &t + &v;
    let temp: Mat<f64> = c.transpose() * &h;
    let e: Mat<f64> = &temp * &c;
    assert!(e[(0, 0)] <= e[(1, 1)] && e[(1, 1)] <= e[(2, 2)]);
}
