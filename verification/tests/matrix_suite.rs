//! The test suite: the matrix entity, the algorithm family, the linear
//! system solver, and the scalar type, on concrete values.

use linalgrs::matrix::Matrix;
use linalgrs::matrix_utilities::MatrixUtilities;
use linalgrs::scalar::Scalar;
use linalgrs::system::System;

fn s(v: i64) -> Scalar {
    Scalar::from_int(v)
}

fn q(n: i64, d: i64) -> Scalar {
    Scalar::new(n, d)
}

fn row(vals: &[i64]) -> Vec<Scalar> {
    let mut r = Vec::new();
    for &v in vals {
        r.push(s(v));
    }
    r
}

fn m(rows: &[&[i64]]) -> Matrix {
    let mut out = Vec::new();
    for &r in rows {
        out.push(row(r));
    }
    Matrix::from_rows(out)
}

fn mq(rows: &[&[(i64, i64)]]) -> Matrix {
    let mut out = Vec::new();
    for &r in rows {
        let mut rr = Vec::new();
        for &(n, d) in r {
            rr.push(q(n, d));
        }
        out.push(rr);
    }
    Matrix::from_rows(out)
}

// ---- the matrix entity ----

#[test]
fn lib_test_matrix() {
    let mat = Matrix::default();
    let mat = MatrixUtilities::append(mat, row(&[1, 2, 3]));
    assert_eq!(mat, m(&[&[1, 2, 3]]));
}

#[test]
fn matrix_tests_test_matrix() {
    let mat = Matrix::default();
    let mat = MatrixUtilities::append(mat, row(&[1, 2, 3]));
    assert_eq!(mat, m(&[&[1, 2, 3]]));
}

#[test]
fn test_matrix_macro() {
    let mat = m(&[&[1, 2, 3, 4], &[5, 6, 7, 8]]);
    let mat2 = Matrix::default();
    let mat_expected = MatrixUtilities::append_multiple(
        mat2,
        vec![row(&[1, 2, 3, 4]), row(&[5, 6, 7, 8])],
    );
    assert_eq!(mat, mat_expected);
}

#[test]
fn lib_test_shape() {
    let mat = Matrix::default();
    let mat = MatrixUtilities::append(mat, row(&[1, 2, 3]));
    assert_eq!(mat.shape(), (1, 3));
}

#[test]
fn matrix_tests_test_shape() {
    let mat = Matrix::default();
    let mat = MatrixUtilities::append(mat, row(&[1, 2, 3]));
    assert_eq!(mat.shape(), (1, 3));
}

#[test]
fn test_identity() {
    let expected = m(&[&[1, 0, 0], &[0, 1, 0], &[0, 0, 1]]);
    let eye = MatrixUtilities::identity(3);
    assert_eq!(eye, expected);
    assert_eq!(eye.cols(), 3);
    assert_eq!(eye.rows(), 3);
}

#[test]
fn lib_test_transpose() {
    let mat = m(&[&[1, 2, 3], &[4, 5, 6]]);
    let transposed = mat.transpose();
    let expected = m(&[&[1, 4], &[2, 5], &[3, 6]]);
    assert_eq!(transposed, expected);
    assert_eq!(transposed.rows(), 3);
    assert_eq!(transposed.cols(), 2);
}

#[test]
fn matrix_operations_tests_test_transpose() {
    let mat = m(&[&[1, 2, 3], &[4, 5, 6]]);
    let transposed = MatrixUtilities::transpose(&mat);
    let expected = m(&[&[1, 4], &[2, 5], &[3, 6]]);
    assert_eq!(transposed, expected);
    assert_eq!(transposed.rows(), 3);
    assert_eq!(transposed.cols(), 2);
}

#[test]
fn lib_test_sub_matrix() {
    let mat = Matrix::default();
    let mat = MatrixUtilities::append_multiple(
        mat,
        vec![row(&[1, 2, 3]), row(&[4, 5, 6]), row(&[7, 8, 9])],
    );
    let sub = mat.sub_matrix(0..2, 0..2);
    assert!(sub.is_ok());
    assert_eq!(sub.unwrap(), m(&[&[1, 2], &[4, 5]]));
}

#[test]
fn matrix_tests_test_sub_matrix() {
    let mat = Matrix::default();
    let mat = MatrixUtilities::append_multiple(
        mat,
        vec![row(&[1, 2, 3]), row(&[4, 5, 6]), row(&[7, 8, 9])],
    );
    let sub = mat.sub_matrix(0..2, 0..2);
    assert!(sub.is_ok());
    assert_eq!(sub.unwrap(), m(&[&[1, 2], &[4, 5]]));
}

#[test]
fn test_sub_matrix_out_of_bounds() {
    let mat = m(&[&[1, 2], &[3, 4]]);
    let sub = mat.sub_matrix(0..3, 0..2);
    assert_eq!(sub.err(), Some("Range out of bounds!".to_string()));
}

#[test]
fn test_dbg_derive() {
    let mat = MatrixUtilities::identity(3);
    println!("{:?}", mat);
}

// ---- determinants ----

#[test]
fn lib_test_determinant_1x1() {
    let matrix = m(&[&[1]]);
    assert_eq!(matrix.determinant().unwrap(), s(1));
}

#[test]
fn determinant_tests_test_determinant_1x1() {
    let matrix = m(&[&[1]]);
    assert_eq!(MatrixUtilities::determinant(&matrix).unwrap(), s(1));
}

#[test]
fn lib_test_determinant_2x2() {
    let matrix = m(&[&[1, 2], &[3, 4]]);
    assert_eq!(matrix.determinant().unwrap(), s(-2));
}

#[test]
fn determinant_tests_test_determinant_2x2() {
    let matrix = m(&[&[1, 2], &[3, 4]]);
    assert_eq!(MatrixUtilities::determinant(&matrix).unwrap(), s(-2));
}

#[test]
fn lib_test_determinant_3x3() {
    let matrix = m(&[&[1, 2, 3], &[0, 1, 4], &[5, 6, 0]]);
    let result = matrix.determinant();
    assert_eq!(result.unwrap(), s(1));
}

#[test]
fn determinant_tests_test_determinant_3x3() {
    let matrix = m(&[&[1, 2, 3], &[0, 1, 4], &[5, 6, 0]]);
    let result = MatrixUtilities::determinant(&matrix);
    assert_eq!(result.unwrap(), s(1));
}

#[test]
fn lib_test_determinant_4x4() {
    let matrix = m(&[
        &[1, 0, 2, -1],
        &[3, 0, 0, 5],
        &[2, 1, 4, -3],
        &[1, 0, 5, 0],
    ]);
    assert_eq!(matrix.determinant().unwrap(), s(30));
}

#[test]
fn determinant_tests_test_determinant_4x4() {
    let matrix = m(&[
        &[1, 0, 2, -1],
        &[3, 0, 0, 5],
        &[2, 1, 4, -3],
        &[1, 0, 5, 0],
    ]);
    assert_eq!(MatrixUtilities::determinant(&matrix).unwrap(), s(30));
}

#[test]
fn lib_test_non_square_matrix() {
    let matrix = m(&[&[1, 2, 3], &[4, 5, 6]]);
    let result = matrix.determinant();
    assert_eq!(result, None);
}

#[test]
fn determinant_tests_test_non_square_matrix() {
    let matrix = m(&[&[1, 2, 3], &[4, 5, 6]]);
    let result = MatrixUtilities::determinant(&matrix);
    assert_eq!(result, None);
}

#[test]
fn test_determinant_of_rational_matrix() {
    let matrix = mq(&[&[(1, 2), (1, 3)], &[(1, 4), (1, 5)]]);
    assert_eq!(matrix.determinant().unwrap(), q(1, 60));
}

fn cofactor_det_via_sub_matrix(mat: &Matrix) -> Scalar {
    let (n, _) = mat.shape();
    if n == 1 {
        return mat.entry(0, 0).duplicate();
    }
    let mut total = Scalar::zero();
    for c in 0..n {
        let left = mat.sub_matrix(1..n, 0..c).unwrap();
        let right = mat.sub_matrix(1..n, c + 1..n).unwrap();
        let mut rows = Vec::new();
        for i in 0..n - 1 {
            let mut row = Vec::new();
            for j in 0..left.cols() {
                row.push(left.entry(i, j).duplicate());
            }
            for j in 0..right.cols() {
                row.push(right.entry(i, j).duplicate());
            }
            rows.push(row);
        }
        let minor = Matrix::from_rows(rows);
        let d = minor.determinant().unwrap();
        let term = mat.entry(0, c).mul(&d);
        total = if c % 2 == 0 { total.add(&term) } else { total.sub(&term) };
    }
    total
}

#[test]
fn test_cofactor_expansion_via_sub_matrix() {
    let m1x = m(&[&[7]]);
    assert_eq!(cofactor_det_via_sub_matrix(&m1x), s(7));
    let m2 = m(&[&[1, 2], &[3, 4]]);
    assert_eq!(cofactor_det_via_sub_matrix(&m2), s(-2));
    assert_eq!(cofactor_det_via_sub_matrix(&m2), m2.determinant().unwrap());
    let m3 = m(&[&[1, 2, 3], &[0, 1, 4], &[5, 6, 0]]);
    assert_eq!(cofactor_det_via_sub_matrix(&m3), s(1));
    assert_eq!(cofactor_det_via_sub_matrix(&m3), m3.determinant().unwrap());
    let m4 = m(&[&[1, 0, 2, -1], &[3, 0, 0, 5], &[2, 1, 4, -3], &[1, 0, 5, 0]]);
    assert_eq!(cofactor_det_via_sub_matrix(&m4), s(30));
    assert_eq!(cofactor_det_via_sub_matrix(&m4), m4.determinant().unwrap());
}

#[test]
fn test_rref_zero_pivot_degenerate() {
    // The elimination never swaps rows, so a zero diagonal pivot is
    // skipped: this input is left short of fully reduced form, and a
    // second pass reduces it further.
    let mat = m(&[&[0, 1], &[1, 0]]);
    let once = MatrixUtilities::rref(mat);
    assert_eq!(once, m(&[&[1, 0], &[-1, 1]]));
    let twice = MatrixUtilities::rref(m(&[&[0, 1], &[1, 0]]));
    let twice = MatrixUtilities::rref(twice);
    assert_eq!(twice, MatrixUtilities::identity(2));
}

#[test]
fn test_multiply_empty_matrices() {
    let a = Matrix::default();
    let b = Matrix::default();
    let product = MatrixUtilities::multiply(&a, &b).unwrap();
    assert_eq!(product.shape(), (0, 0));
}

#[test]
fn test_empty_matrix_shape_and_determinant() {
    let mat = Matrix::default();
    assert_eq!(mat.shape(), (0, 0));
    assert_eq!(mat.determinant().unwrap(), Scalar::one());
}

// ---- the echelon family ----

#[test]
fn lib_test_row_echelon_form() {
    let matrix = m(&[&[1, 2, -1], &[2, 3, 1], &[3, 5, 0]]);
    let expected = m(&[&[1, 2, -1], &[0, 1, -3], &[0, 0, 0]]);
    let result = MatrixUtilities::row_echelon_form(matrix);
    assert_eq!(result, expected);
}

#[test]
fn gaussian_elimination_tests_test_row_echelon_form() {
    let matrix = m(&[&[1, 2, -1], &[2, 3, 1], &[3, 5, 0]]);
    let expected = m(&[&[1, 2, -1], &[0, 1, -3], &[0, 0, 0]]);
    let result = MatrixUtilities::row_echelon_form(matrix);
    assert_eq!(result, expected);
}

#[test]
fn lib_test_rref() {
    let mat = m(&[&[1, 2, -1], &[0, 1, -3], &[0, 0, 0]]);
    let expected = m(&[&[1, 0, 5], &[0, 1, -3], &[0, 0, 0]]);
    let result = MatrixUtilities::rref(mat);
    assert_eq!(result, expected);
}

#[test]
fn gaussian_elimination_tests_test_rref() {
    let mat = m(&[&[1, 2, -1], &[0, 1, -3], &[0, 0, 0]]);
    let expected = m(&[&[1, 0, 5], &[0, 1, -3], &[0, 0, 0]]);
    let result = MatrixUtilities::rref(mat);
    assert_eq!(result, expected);
}

#[test]
fn lib_test_gaussian_elimination_unique_solution() {
    let matrix = m(&[&[2, 1, -1, 8], &[-3, -1, 2, -11], &[-2, 1, 2, -3]]);
    let result = MatrixUtilities::gaussian_elimination(matrix);
    assert!(result.is_ok());
    let pivot_vars = result.unwrap();
    assert_eq!(pivot_vars.get('a'), Some(s(2)));
    assert_eq!(pivot_vars.get('b'), Some(s(3)));
    assert_eq!(pivot_vars.get('c'), Some(s(-1)));
}

#[test]
fn gaussian_elimination_tests_test_gaussian_elimination_unique_solution() {
    let matrix = m(&[&[2, 1, -1, 8], &[-3, -1, 2, -11], &[-2, 1, 2, -3]]);
    let result = MatrixUtilities::gaussian_elimination(matrix);
    assert!(result.is_ok());
    let pivot_vars = result.unwrap();
    assert_eq!(pivot_vars.get('a'), Some(s(2)));
    assert_eq!(pivot_vars.get('b'), Some(s(3)));
    assert_eq!(pivot_vars.get('c'), Some(s(-1)));
}

#[test]
fn test_gauss_jordan_elimination_unique_solution() {
    let matrix = m(&[&[2, 1, -1, 8], &[-3, -1, 2, -11], &[-2, 1, 2, -3]]);
    let result = MatrixUtilities::gauss_jordan_elimination(matrix);
    assert!(result.is_ok());
    let pivot_vars = result.unwrap();
    assert_eq!(pivot_vars.get('a'), Some(s(2)));
    assert_eq!(pivot_vars.get('b'), Some(s(3)));
    assert_eq!(pivot_vars.get('c'), Some(s(-1)));
}

#[test]
fn lib_test_gaussian_elimination_no_solution() {
    let matrix = m(&[&[2, 1, -1, 8], &[-3, -1, 2, -11], &[2, 1, -1, 7]]);
    let result = MatrixUtilities::gaussian_elimination(matrix);
    assert!(result.is_err());
    assert_eq!(
        result.err(),
        Some("No solution exists for the given matrix.".to_string())
    );
}

#[test]
fn gaussian_elimination_tests_test_gaussian_elimination_no_solution() {
    let matrix = m(&[&[2, 1, -1, 8], &[-3, -1, 2, -11], &[2, 1, -1, 7]]);
    let result = MatrixUtilities::gaussian_elimination(matrix);
    assert!(result.is_err());
    assert_eq!(
        result.err(),
        Some("No solution exists for the given matrix.".to_string())
    );
}

#[test]
fn lib_test_gaussian_elimination_infinitely_many_solutions() {
    let matrix = m(&[&[1, -1, 2, 0], &[0, 0, 0, 0], &[0, 0, 0, 0]]);
    let result = MatrixUtilities::gaussian_elimination(matrix);
    assert!(result.is_err());
    assert_eq!(
        result.err(),
        Some("Infinitely many solutions exist for the given matrix.".to_string())
    );
}

#[test]
fn gaussian_elimination_tests_test_gaussian_elimination_infinitely_many_solutions() {
    let matrix = m(&[&[1, -1, 2, 0], &[0, 0, 0, 0], &[0, 0, 0, 0]]);
    let result = MatrixUtilities::gaussian_elimination(matrix);
    assert!(result.is_err());
    assert_eq!(
        result.err(),
        Some("Infinitely many solutions exist for the given matrix.".to_string())
    );
}

#[test]
fn test_solution_set_missing_variable() {
    let matrix = m(&[&[2, 1, -1, 8], &[-3, -1, 2, -11], &[-2, 1, 2, -3]]);
    let pivot_vars = MatrixUtilities::gauss_jordan_elimination(matrix).unwrap();
    assert_eq!(pivot_vars.len(), 3);
    assert_eq!(pivot_vars.get('z'), None);
}

// ---- elementwise arithmetic ----

#[test]
fn lib_test_add_matrix() {
    let mat = Matrix::default();
    let mat = MatrixUtilities::append_multiple(mat, vec![row(&[1, 2, 3]), row(&[4, 5, 6])]);
    let result = MatrixUtilities::add(&mat, &mat);
    assert_eq!(result.unwrap(), m(&[&[2, 4, 6], &[8, 10, 12]]));
}

#[test]
fn matrix_operations_tests_test_add_matrix() {
    let mat = Matrix::default();
    let mat = MatrixUtilities::append_multiple(mat, vec![row(&[1, 2, 3]), row(&[4, 5, 6])]);
    let result = MatrixUtilities::add(&mat, &mat);
    assert_eq!(result.unwrap(), m(&[&[2, 4, 6], &[8, 10, 12]]));
}

#[test]
fn lib_test_add_matrix_different_shape() {
    let mat = m(&[&[1, 2, 3], &[4, 5, 6]]);
    let mat2 = m(&[&[1, 2], &[3, 4]]);
    let result = MatrixUtilities::add(&mat, &mat2);
    assert!(result.is_err());
}

#[test]
fn matrix_operations_tests_test_add_matrix_different_shape() {
    let mat = m(&[&[1, 2, 3], &[4, 5, 6]]);
    let mat2 = m(&[&[1, 2], &[3, 4]]);
    let result = MatrixUtilities::add(&mat, &mat2);
    assert!(result.is_err());
}

#[test]
fn lib_test_subtract_matrix() {
    let mat = m(&[&[1, 2, 3], &[4, 5, 6]]);
    let result = MatrixUtilities::subtract(&mat, &mat);
    assert_eq!(result.unwrap(), m(&[&[0, 0, 0], &[0, 0, 0]]));
}

#[test]
fn matrix_operations_tests_test_subtract_matrix() {
    let mat = m(&[&[1, 2, 3], &[4, 5, 6]]);
    let result = MatrixUtilities::subtract(&mat, &mat);
    assert_eq!(result.unwrap(), m(&[&[0, 0, 0], &[0, 0, 0]]));
}

#[test]
fn lib_test_multiply_by_scalar() {
    let mat = m(&[&[1, 2, 3], &[4, 5, 6]]);
    let mat = MatrixUtilities::multiply_by_scalar(mat, s(2));
    assert_eq!(mat, m(&[&[2, 4, 6], &[8, 10, 12]]));
}

#[test]
fn matrix_operations_tests_test_multiply_by_scalar() {
    let mat = m(&[&[1, 2, 3], &[4, 5, 6]]);
    let mat = MatrixUtilities::multiply_by_scalar(mat, s(2));
    assert_eq!(mat, m(&[&[2, 4, 6], &[8, 10, 12]]));
}

#[test]
fn lib_test_multiply_by_scalar_with_decimals() {
    let mat = m(&[&[1, 2, 3], &[4, 5, 6]]);
    let scalar = q(5, 2);
    let mat = MatrixUtilities::multiply_by_scalar(mat, scalar);
    let expected = mq(&[
        &[(5, 2), (5, 1), (15, 2)],
        &[(10, 1), (25, 2), (15, 1)],
    ]);
    assert_eq!(mat, expected);
}

#[test]
fn matrix_operations_tests_test_multiply_by_scalar_with_decimals() {
    let mat = m(&[&[1, 2, 3], &[4, 5, 6]]);
    let scalar = q(5, 2);
    let mat = MatrixUtilities::multiply_by_scalar(mat, scalar);
    let expected = mq(&[
        &[(5, 2), (5, 1), (15, 2)],
        &[(10, 1), (25, 2), (15, 1)],
    ]);
    assert_eq!(mat, expected);
}

// ---- products ----

#[test]
fn lib_test_multiply_matrix() {
    let mat = m(&[&[1, 4, -2], &[3, 5, -6]]);
    let mat2 = m(&[&[5, 2, 8, -1], &[3, 6, 4, 5], &[-2, 9, 7, -3]]);
    let result = MatrixUtilities::multiply(&mat, &mat2);
    assert!(result.is_ok());
    assert_eq!(
        result.unwrap(),
        m(&[&[21, 8, 10, 25], &[42, -18, 2, 40]])
    );
}

#[test]
fn matrix_operations_tests_test_multiply_matrix() {
    let mat = m(&[&[1, 4, -2], &[3, 5, -6]]);
    let mat2 = m(&[&[5, 2, 8, -1], &[3, 6, 4, 5], &[-2, 9, 7, -3]]);
    let result = MatrixUtilities::multiply(&mat, &mat2);
    assert!(result.is_ok());
    assert_eq!(
        result.unwrap(),
        m(&[&[21, 8, 10, 25], &[42, -18, 2, 40]])
    );
}

#[test]
fn lib_test_multiply_matrix_error() {
    let mat = m(&[&[1, 4], &[3, 5]]);
    let mat2 = m(&[&[5, 2], &[3, 6], &[3, 4]]);
    let result = MatrixUtilities::multiply(&mat, &mat2);
    assert!(result.is_err());
}

#[test]
fn matrix_operations_tests_test_multiply_matrix_error() {
    let mat = m(&[&[1, 4], &[3, 5]]);
    let mat2 = m(&[&[5, 2], &[3, 6], &[3, 4]]);
    let result = MatrixUtilities::multiply(&mat, &mat2);
    assert!(result.is_err());
}

#[test]
fn lib_test_dot_product() {
    let mat = m(&[&[1, 2, 3]]);
    let mat2 = m(&[&[1], &[2], &[3]]);
    let result = MatrixUtilities::dot(&mat, &mat2);
    assert!(result.is_ok());
    assert_eq!(result.unwrap(), s(14));
}

#[test]
fn matrix_operations_tests_test_dot_product() {
    let mat = m(&[&[1, 2, 3]]);
    let mat2 = m(&[&[1], &[2], &[3]]);
    let result = MatrixUtilities::dot(&mat, &mat2);
    assert!(result.is_ok());
    assert_eq!(result.unwrap(), s(14));
}

#[test]
fn lib_test_dot_product_error() {
    let mat = m(&[&[1, 2, 3], &[4, 5, 6]]);
    let mat2 = m(&[&[1], &[2], &[3]]);
    let result = MatrixUtilities::dot(&mat, &mat2);
    assert!(result.is_err());
}

#[test]
fn matrix_operations_tests_test_dot_product_error() {
    let mat = m(&[&[1, 2, 3], &[4, 5, 6]]);
    let mat2 = m(&[&[1], &[2], &[3]]);
    let result = MatrixUtilities::dot(&mat, &mat2);
    assert!(result.is_err());
}

#[test]
fn test_dot_product_dimension_error() {
    let mat = m(&[&[1, 2]]);
    let mat2 = m(&[&[1], &[2], &[3]]);
    let result = MatrixUtilities::dot(&mat, &mat2);
    assert_eq!(
        result.err(),
        Some(
            "Cannot get the dot product: The number of columns in A must match the number of rows in B."
                .to_string()
        )
    );
}

// ---- LU decomposition ----

#[test]
fn test_lu_decomposition() {
    let matrix = m(&[&[4, 3], &[6, 3]]);
    let (l, u) = MatrixUtilities::lu_decomposition(&matrix).unwrap();
    let expected_l = mq(&[&[(1, 1), (0, 1)], &[(3, 2), (1, 1)]]);
    let expected_u = mq(&[&[(4, 1), (3, 1)], &[(0, 1), (-3, 2)]]);
    assert_eq!(l, expected_l);
    assert_eq!(u, expected_u);
}

#[test]
fn test_lu_decomposition_non_square_matrix() {
    let matrix = m(&[&[2, 3, 1], &[4, 7, 3]]);
    let result = MatrixUtilities::lu_decomposition(&matrix);
    assert!(
        result.is_err(),
        "LU decomposition should fail for a non-square matrix."
    );
    assert_eq!(
        result.unwrap_err(),
        "Matrix must be square for LU decomposition.".to_string()
    );
}

#[test]
fn test_lu_zero_pivot() {
    let matrix = m(&[&[0, 1], &[1, 0]]);
    let result = MatrixUtilities::lu_decomposition(&matrix);
    assert_eq!(
        result.err(),
        Some("Encountered a zero pivot during LU decomposition.".to_string())
    );
}

#[test]
fn test_lu_product_restores_matrix() {
    let matrix = m(&[&[2, 7, 1], &[3, -2, 0], &[1, 5, 3]]);
    let (l, u) = MatrixUtilities::lu_decomposition(&matrix).unwrap();
    let product = MatrixUtilities::multiply(&l, &u).unwrap();
    assert_eq!(product, matrix);
}

// ---- inversion ----

#[test]
fn test_inverse() {
    let matrix = m(&[&[4, 7], &[2, 6]]);
    let expected_inverse = mq(&[&[(3, 5), (-7, 10)], &[(-1, 5), (2, 5)]]);
    let result = MatrixUtilities::inverse(matrix);
    assert!(result.is_ok());
    let inverse = result.unwrap();
    assert_eq!(inverse, expected_inverse);
    assert_eq!(inverse.rows(), 2);
    assert_eq!(inverse.cols(), 2);
}

#[test]
fn test_non_invertible_matrix() {
    let singular_matrix = m(&[&[2, 4], &[1, 2]]);
    let result = MatrixUtilities::inverse(singular_matrix);
    assert!(result.is_err());
}

#[test]
fn test_inverse_non_square() {
    let matrix = m(&[&[1, 2, 3], &[4, 5, 6]]);
    let result = MatrixUtilities::inverse(matrix);
    assert_eq!(
        result.err(),
        Some("Matrix must be square to invert.".to_string())
    );
}

#[test]
fn test_inverse_times_matrix_is_identity() {
    let matrix = m(&[&[2, 1, 1], &[1, 3, 2], &[1, 0, 0]]);
    let inverse = MatrixUtilities::inverse(m(&[&[2, 1, 1], &[1, 3, 2], &[1, 0, 0]])).unwrap();
    let product = MatrixUtilities::multiply(&inverse, &matrix).unwrap();
    assert_eq!(product, MatrixUtilities::identity(3));
}

// ---- the linear-system solver ----

#[test]
fn test_solver_unique_solution() {
    let system = System {
        coefficients: m(&[&[2, 1, -1], &[-3, -1, 2], &[-2, 1, 2]]),
        variables: Vec::new(),
        constants: row(&[8, -11, -3]),
    };
    let solution = System::gaussian_elimination(&system).unwrap();
    assert_eq!(solution.len(), 3);
    assert_eq!(solution[0], s(2));
    assert_eq!(solution[1], s(3));
    assert_eq!(solution[2], s(-1));
}

#[test]
fn test_solver_shape_mismatch() {
    let system = System {
        coefficients: m(&[&[2, 1, -1], &[-3, -1, 2]]),
        variables: Vec::new(),
        constants: row(&[8, -11]),
    };
    let result = System::gaussian_elimination(&system);
    assert!(result.is_err());
}

#[test]
fn test_solver_singular_system() {
    let system = System {
        coefficients: m(&[&[1, 1], &[1, 1]]),
        variables: Vec::new(),
        constants: row(&[1, 2]),
    };
    let result = System::gaussian_elimination(&system);
    assert_eq!(
        result.err(),
        Some("Encountered a zero pivot while solving the system.".to_string())
    );
}

// ---- general laws on concrete values ----

#[test]
fn test_transpose_round_trip() {
    let mat = m(&[&[1, 2, 3], &[4, 5, 6]]);
    assert_eq!(mat.transpose().transpose(), mat);
}

#[test]
fn test_add_commutes() {
    let a = m(&[&[1, -2], &[3, 4]]);
    let b = m(&[&[5, 6], &[-7, 8]]);
    let ab = MatrixUtilities::add(&a, &b).unwrap();
    let ba = MatrixUtilities::add(&b, &a).unwrap();
    assert_eq!(ab, ba);
}

#[test]
fn test_multiply_associates() {
    let a = m(&[&[1, 2, 0], &[-1, 3, 2]]);
    let b = m(&[&[2, 1], &[0, -1], &[4, 3]]);
    let c = m(&[&[1, -2], &[5, 0]]);
    let ab = MatrixUtilities::multiply(&a, &b).unwrap();
    let bc = MatrixUtilities::multiply(&b, &c).unwrap();
    let left = MatrixUtilities::multiply(&ab, &c).unwrap();
    let right = MatrixUtilities::multiply(&a, &bc).unwrap();
    assert_eq!(left, right);
}

// ---- the scalar type ----

#[test]
fn test_scalar_equality() {
    assert_eq!(q(1, 2), q(2, 4));
    assert_eq!(q(-1, -2), q(1, 2));
    assert_eq!(q(3, -4), q(-3, 4));
    assert!(q(1, 2) != q(1, 3));
}

#[test]
fn test_scalar_arithmetic() {
    assert_eq!(q(1, 2).add(&q(1, 3)), q(5, 6));
    assert_eq!(q(1, 2).sub(&q(1, 3)), q(1, 6));
    assert_eq!(q(2, 3).mul(&q(3, 4)), q(1, 2));
    assert_eq!(q(2, 3).div(&q(4, 9)), q(3, 2));
    assert_eq!(s(7).neg(), s(-7));
    assert!(Scalar::zero().is_zero());
    assert!(!Scalar::one().is_zero());
}
