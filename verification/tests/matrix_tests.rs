use complex_linalg::complex::{Complex, ComplexArithmetic};
use complex_linalg::error::MathError;
use complex_linalg::matrix::Matrix;
use complex_linalg::scalar::Scalar;
use complex_linalg::vector::{Vector, VectorType};

#[derive(Clone, Copy, Debug, PartialEq)]
struct F32(f32);

impl Scalar for F32 {
    fn add_e(self, other: Self) -> Self {
        F32(self.0 + other.0)
    }
    fn sub_e(self, other: Self) -> Self {
        F32(self.0 - other.0)
    }
    fn mul_e(self, other: Self) -> Self {
        F32(self.0 * other.0)
    }
    fn div_e(self, other: Self) -> Self {
        F32(self.0 / other.0)
    }
    fn neg_e(self) -> Self {
        F32(-self.0)
    }
    fn sqrt_e(self) -> Self {
        F32(self.0.sqrt())
    }
    fn sin_e(self) -> Self {
        F32(self.0.sin())
    }
    fn cos_e(self) -> Self {
        F32(self.0.cos())
    }
    fn atan_e(self) -> Self {
        F32(self.0.atan())
    }
    fn zero_e() -> Self {
        F32(0.0)
    }
    fn one_e() -> Self {
        F32(1.0)
    }
    fn neg_one_e() -> Self {
        F32(-1.0)
    }
    fn near_zero_e(self) -> bool {
        self.0.abs() <= 0.00001
    }

    // The spec-level counterparts compile to ordinary trait items; each one
    // is the same pure function as its executable twin, and the lemma items
    // compile to empty stubs.
    fn add_s(self, other: Self) -> Self {
        F32(self.0 + other.0)
    }
    fn sub_s(self, other: Self) -> Self {
        F32(self.0 - other.0)
    }
    fn mul_s(self, other: Self) -> Self {
        F32(self.0 * other.0)
    }
    fn div_s(self, other: Self) -> Self {
        F32(self.0 / other.0)
    }
    fn neg_s(self) -> Self {
        F32(-self.0)
    }
    fn sqrt_s(self) -> Self {
        F32(self.0.sqrt())
    }
    fn sin_s(self) -> Self {
        F32(self.0.sin())
    }
    fn cos_s(self) -> Self {
        F32(self.0.cos())
    }
    fn atan_s(self) -> Self {
        F32(self.0.atan())
    }
    fn zero_s() -> Self {
        F32(0.0)
    }
    fn one_s() -> Self {
        F32(1.0)
    }
    fn near_zero_s(self) -> bool {
        self.0.abs() <= 0.00001
    }
    fn finite_s(self) -> bool {
        self.0.is_finite()
    }
    fn lemma_add_comm(_a: Self, _b: Self) {}
    fn lemma_mul_comm(_a: Self, _b: Self) {}
    fn lemma_mul_neg(_a: Self, _b: Self) {}
    fn lemma_neg_neg(_a: Self) {}
    fn lemma_add_opposite(_a: Self) {}
    fn lemma_sub_neg(_a: Self, _b: Self) {}
}

fn c(re: f32, im: f32) -> Complex<F32> {
    Complex::from(F32(re), F32(im))
}

fn assert_close(expected: f32, actual: f32, delta: f32) {
    assert!(
        (expected - actual).abs() <= delta,
        "expected {} but found {} (tolerance {})",
        expected,
        actual,
        delta
    );
}

fn assert_complex(expected: Complex<F32>, actual: Complex<F32>) {
    assert_close(expected.real.0, actual.real.0, 0.0001);
    assert_close(expected.imaginary.0, actual.imaginary.0, 0.0001);
}

fn assert_complex_matrix(expected: &Matrix<F32>, actual: &Matrix<F32>) {
    assert_eq!(expected.num_rows, actual.num_rows);
    assert_eq!(expected.num_columns, actual.num_columns);
    for row_index in 0..expected.num_rows {
        for column_index in 0..expected.num_columns {
            assert_complex(
                expected.get_element(row_index, column_index).unwrap(),
                actual.get_element(row_index, column_index).unwrap(),
            );
        }
    }
}

fn assert_complex_vec(expected: &Vector<F32>, actual: &Vector<F32>) {
    assert_eq!(expected.size(), actual.size());
    for i in 0..expected.size() {
        assert_complex(
            expected.get_element(i).unwrap(),
            actual.get_element(i).unwrap(),
        );
    }
}

#[test]
fn from_array_test() {
    let arr = [c(2.1, 4.0), c(0.0, 2.0), c(4.0, 2.1), c(-2.8, 3.1)];
    let created_matrix = Matrix::from_array(2, 2, &arr).unwrap();
    assert_complex(c(2.1, 4.0), created_matrix.get_element(0, 0).unwrap());
    assert_complex(c(0.0, 2.0), created_matrix.get_element(0, 1).unwrap());
    assert_complex(c(4.0, 2.1), created_matrix.get_element(1, 0).unwrap());
    assert_complex(c(-2.8, 3.1), created_matrix.get_element(1, 1).unwrap());
}

#[test]
fn from_array_dimension_mismatch_test() {
    let arr = [c(2.1, 4.0), c(0.0, 2.0), c(4.0, 2.1)];
    assert!(matches!(
        Matrix::from_array(2, 2, &arr),
        Err(MathError::DimensionMismatch)
    ));
}

#[test]
fn zeros_test() {
    let created_matrix: Matrix<F32> = Matrix::zeros(2, 3);
    assert_eq!(2, created_matrix.num_rows);
    assert_eq!(3, created_matrix.num_columns);
    for row_index in 0..created_matrix.num_rows {
        for column_index in 0..created_matrix.num_rows {
            assert_complex(
                c(0.0, 0.0),
                created_matrix.get_element(row_index, column_index).unwrap(),
            );
        }
    }
}

#[test]
fn set_element_test() {
    let mut created_matrix = Matrix::zeros(4, 5);
    let num = c(4.0, 322.4222);
    created_matrix.set_element(2, 2, num.clone()).unwrap();
    assert_complex(num, created_matrix.get_element(2, 2).unwrap());
}

#[test]
fn get_element_boundary_test() {
    let created_matrix: Matrix<F32> = Matrix::zeros(3, 2);
    assert!(matches!(
        created_matrix.get_element(3, 0),
        Err(MathError::OutOfBounds)
    ));
    assert!(matches!(
        created_matrix.get_element(0, 2),
        Err(MathError::OutOfBounds)
    ));
    assert!(created_matrix.get_element(2, 1).is_ok());
}

#[test]
fn matrix_tests_addition_test() {
    let matrix1 = Matrix::from_array(
        2,
        2,
        &[c(2.0, 1.0), c(3.0, 8.0), c(6.0, 5.0), c(5.0, 2.0)],
    )
    .unwrap();
    let matrix2 = Matrix::from_array(
        2,
        2,
        &[c(3.0, 1.0), c(8.0, 2.0), c(2.0, 9.0), c(-3.0, 8.0)],
    )
    .unwrap();
    let expected = Matrix::from_array(
        2,
        2,
        &[c(5.0, 2.0), c(11.0, 10.0), c(8.0, 14.0), c(2.0, 10.0)],
    )
    .unwrap();
    assert_complex_matrix(&expected, &Matrix::add(&matrix1, &matrix2).unwrap());
}

#[test]
fn matrix_add_shape_mismatch_test() {
    let matrix1: Matrix<F32> = Matrix::zeros(2, 2);
    let matrix2: Matrix<F32> = Matrix::zeros(2, 3);
    assert!(Matrix::add(&matrix1, &matrix2).is_none());
}

#[test]
fn matrix_tests_multiplication_test() {
    let matrix1 = Matrix::from_array(
        2,
        2,
        &[c(0.0, 0.0), c(1.0, 0.0), c(1.0, 0.0), c(0.0, 0.0)],
    )
    .unwrap();
    let matrix2 = Matrix::from_array(
        2,
        2,
        &[c(0.0, 0.0), c(0.0, 1.0), c(0.0, 1.0), c(0.0, 0.0)],
    )
    .unwrap();
    let expected = Matrix::from_array(
        2,
        2,
        &[c(0.0, 1.0), c(0.0, 0.0), c(0.0, 0.0), c(0.0, 1.0)],
    )
    .unwrap();
    assert_complex_matrix(&expected, &Matrix::multiply(&matrix1, &matrix2).unwrap());
}

#[test]
fn multiplication_shape_test() {
    let matrix1: Matrix<F32> = Matrix::zeros(2, 3);
    let matrix2: Matrix<F32> = Matrix::zeros(3, 4);
    let product = matrix1.multiply(&matrix2).unwrap();
    assert_eq!(2, product.num_rows);
    assert_eq!(4, product.num_columns);
    assert!(matches!(
        matrix2.multiply(&matrix1.multiply(&matrix2).unwrap()),
        Err(MathError::DimensionMismatch)
    ));
}

#[test]
fn multiply_vector_test() {
    let matrix = Matrix::from_array(
        2,
        3,
        &[
            c(2.0, 0.0),
            c(1.0, 1.0),
            c(4.0, -2.0),
            c(-2.0, 0.0),
            c(5.0, -2.3),
            c(4.0, 1.0),
        ],
    )
    .unwrap();
    let vec = Vector::from_array(&[c(2.0, 8.0), c(1.0, 4.0), c(2.3, 5.4)]);
    let result = matrix.multiply_vector(&vec).unwrap();
    let expected = Vector::from_array(&[c(21.0, 38.0), c(14.0, 25.6)]);
    assert_complex_vec(&expected, &result);
}

#[test]
fn multiply_vector_shape_mismatch_test() {
    let matrix: Matrix<F32> = Matrix::zeros(2, 3);
    let vec = Vector::from_array(&[c(1.0, 0.0), c(2.0, 0.0)]);
    assert!(matches!(
        matrix.multiply_vector(&vec),
        Err(MathError::ShapeMismatch)
    ));
}

#[test]
fn kronecker_product_test() {
    let matrix1 = Matrix::from_array(
        2,
        2,
        &[c(2.0, 0.0), c(1.0, 0.0), c(3.0, 0.0), c(5.0, 0.0)],
    )
    .unwrap();
    let matrix2 = Matrix::from_array(
        2,
        2,
        &[c(0.0, 1.0), c(0.0, 0.0), c(0.0, 1.0), c(0.0, 0.0)],
    )
    .unwrap();
    let expected = Matrix::from_array(
        4,
        4,
        &[
            c(0.0, 2.0), c(0.0, 0.0), c(0.0, 1.0), c(0.0, 0.0),
            c(0.0, 2.0), c(0.0, 0.0), c(0.0, 1.0), c(0.0, 0.0),
            c(0.0, 3.0), c(0.0, 0.0), c(0.0, 5.0), c(0.0, 0.0),
            c(0.0, 3.0), c(0.0, 0.0), c(0.0, 5.0), c(0.0, 0.0),
        ],
    )
    .unwrap();
    let result = Matrix::kronecker_product(&matrix1, &matrix2).unwrap();
    assert_complex_matrix(&expected, &result);
}

#[test]
fn kronecker_product_zero_dimension_test() {
    let matrix1: Matrix<F32> = Matrix::zeros(0, 2);
    let matrix2: Matrix<F32> = Matrix::zeros(2, 2);
    assert!(matches!(
        matrix1.kronecker_product(&matrix2),
        Err(MathError::InvalidDimension)
    ));
}

#[test]
fn is_quadratic_test() {
    let square: Matrix<F32> = Matrix::zeros(3, 3);
    assert!(square.is_quadratic());
    let rectangular: Matrix<F32> = Matrix::zeros(2, 3);
    assert!(!rectangular.is_quadratic());
}

#[test]
fn transpose_test() {
    let mut matrix = Matrix::from_array(
        2,
        3,
        &[
            c(1.0, 1.0),
            c(2.0, 0.0),
            c(3.0, -1.0),
            c(4.0, 0.5),
            c(5.0, 0.0),
            c(6.0, 2.0),
        ],
    )
    .unwrap();
    matrix.transpose();
    assert_eq!(3, matrix.num_rows);
    assert_eq!(2, matrix.num_columns);
    let expected = Matrix::from_array(
        3,
        2,
        &[
            c(1.0, 1.0),
            c(4.0, 0.5),
            c(2.0, 0.0),
            c(5.0, 0.0),
            c(3.0, -1.0),
            c(6.0, 2.0),
        ],
    )
    .unwrap();
    assert_complex_matrix(&expected, &matrix);
}

#[test]
fn matrix_tests_conjugate_test() {
    let mut matrix = Matrix::from_array(2, 2, &[c(1.0, 1.0), c(2.0, -3.0), c(0.0, 4.0), c(5.0, 0.0)])
        .unwrap();
    matrix.conjugate();
    let expected =
        Matrix::from_array(2, 2, &[c(1.0, -1.0), c(2.0, 3.0), c(0.0, -4.0), c(5.0, 0.0)]).unwrap();
    assert_complex_matrix(&expected, &matrix);
}

#[test]
fn matrix_tests_adjoint_test() {
    let mut matrix = Matrix::from_array(2, 2, &[c(1.0, 1.0), c(2.0, -3.0), c(0.0, 4.0), c(5.0, 0.0)])
        .unwrap();
    matrix.adjoint();
    let expected =
        Matrix::from_array(2, 2, &[c(1.0, -1.0), c(0.0, -4.0), c(2.0, 3.0), c(5.0, 0.0)]).unwrap();
    assert_complex_matrix(&expected, &matrix);
}

#[test]
fn adjoint_involution_test() {
    let original = Matrix::from_array(
        2,
        3,
        &[
            c(1.0, 1.0),
            c(2.0, -3.0),
            c(0.5, 0.25),
            c(0.0, 4.0),
            c(5.0, 0.0),
            c(-1.5, 2.5),
        ],
    )
    .unwrap();
    let mut twice = Matrix::from_array(
        2,
        3,
        &[
            c(1.0, 1.0),
            c(2.0, -3.0),
            c(0.5, 0.25),
            c(0.0, 4.0),
            c(5.0, 0.0),
            c(-1.5, 2.5),
        ],
    )
    .unwrap();
    twice.adjoint();
    twice.adjoint();
    assert_complex_matrix(&original, &twice);
}

#[test]
fn matrix_scale_test() {
    let mut matrix = Matrix::from_array(2, 2, &[c(1.0, 1.0), c(2.0, -3.0), c(0.0, 4.0), c(5.0, 0.0)])
        .unwrap();
    matrix.scale(F32(2.0));
    let expected =
        Matrix::from_array(2, 2, &[c(2.0, 2.0), c(4.0, -6.0), c(0.0, 8.0), c(10.0, 0.0)]).unwrap();
    assert_complex_matrix(&expected, &matrix);
}
