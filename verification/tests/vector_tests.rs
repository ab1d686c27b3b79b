use complex_linalg::complex::{Complex, ComplexArithmetic};
use complex_linalg::error::MathError;
use complex_linalg::scalar::Scalar;
use complex_linalg::vector::{Vector, VectorType};

#[derive(Clone, Copy, Debug, PartialEq)]
struct F32(f32);

impl Scalar for F32 {
    fn add_e(self, other: Self) -> Self {
        F32(self.0 + other.0)
    }
    fn sub_e(self, other: Self) -> Self {
        F32(self.0 - other.0)
    }
    fn mul_e(self, other: Self) -> Self {
        F32(self.0 * other.0)
    }
    fn div_e(self, other: Self) -> Self {
        F32(self.0 / other.0)
    }
    fn neg_e(self) -> Self {
        F32(-self.0)
    }
    fn sqrt_e(self) -> Self {
        F32(self.0.sqrt())
    }
    fn sin_e(self) -> Self {
        F32(self.0.sin())
    }
    fn cos_e(self) -> Self {
        F32(self.0.cos())
    }
    fn atan_e(self) -> Self {
        F32(self.0.atan())
    }
    fn zero_e() -> Self {
        F32(0.0)
    }
    fn one_e() -> Self {
        F32(1.0)
    }
    fn neg_one_e() -> Self {
        F32(-1.0)
    }
    fn near_zero_e(self) -> bool {
        self.0.abs() <= 0.00001
    }

    // The spec-level counterparts compile to ordinary trait items; each one
    // is the same pure function as its executable twin, and the lemma items
    // compile to empty stubs.
    fn add_s(self, other: Self) -> Self {
        F32(self.0 + other.0)
    }
    fn sub_s(self, other: Self) -> Self {
        F32(self.0 - other.0)
    }
    fn mul_s(self, other: Self) -> Self {
        F32(self.0 * other.0)
    }
    fn div_s(self, other: Self) -> Self {
        F32(self.0 / other.0)
    }
    fn neg_s(self) -> Self {
        F32(-self.0)
    }
    fn sqrt_s(self) -> Self {
        F32(self.0.sqrt())
    }
    fn sin_s(self) -> Self {
        F32(self.0.sin())
    }
    fn cos_s(self) -> Self {
        F32(self.0.cos())
    }
    fn atan_s(self) -> Self {
        F32(self.0.atan())
    }
    fn zero_s() -> Self {
        F32(0.0)
    }
    fn one_s() -> Self {
        F32(1.0)
    }
    fn near_zero_s(self) -> bool {
        self.0.abs() <= 0.00001
    }
    fn finite_s(self) -> bool {
        self.0.is_finite()
    }
    fn lemma_add_comm(_a: Self, _b: Self) {}
    fn lemma_mul_comm(_a: Self, _b: Self) {}
    fn lemma_mul_neg(_a: Self, _b: Self) {}
    fn lemma_neg_neg(_a: Self) {}
    fn lemma_add_opposite(_a: Self) {}
    fn lemma_sub_neg(_a: Self, _b: Self) {}
}

fn c(re: f32, im: f32) -> Complex<F32> {
    Complex::from(F32(re), F32(im))
}

fn assert_close(expected: f32, actual: f32, delta: f32) {
    assert!(
        (expected - actual).abs() <= delta,
        "expected {} but found {} (tolerance {})",
        expected,
        actual,
        delta
    );
}

fn assert_complex(expected: Complex<F32>, actual: Complex<F32>) {
    assert_close(expected.real.0, actual.real.0, 0.0001);
    assert_close(expected.imaginary.0, actual.imaginary.0, 0.0001);
}

fn assert_complex_vec(expected: &Vector<F32>, actual: &Vector<F32>) {
    assert_eq!(expected.size(), actual.size());
    for i in 0..expected.size() {
        assert_complex(
            expected.get_element(i).unwrap(),
            actual.get_element(i).unwrap(),
        );
    }
}

#[test]
fn vector_add_test() {
    let vec1 = Vector::from_array(&[c(4.2, -3.1), c(2.9, 8.4), c(-4.0, 2.7)]);
    let vec2 = Vector::from_array(&[c(2.9, -1.1), c(0.0, 98.0), c(12.000009, 723.21)]);
    let expected = Vector::from_array(&[c(7.1, -4.2), c(2.9, 106.4), c(8.000009, 725.91)]);
    let actual = vec1.add(&vec2).unwrap();
    assert_complex_vec(&expected, &actual);
}

#[test]
fn vector_set_element_test() {
    let mut vec = Vector::from_array(&[c(2.0, 3.0), c(3.0, 7.0), c(2.3, 8.3)]);
    assert_eq!(Ok(()), vec.set_element(2, c(9.0, 7.0)));
    assert_complex(c(9.0, 7.0), vec.get_element(2).unwrap());
}

#[test]
fn vector_sub_test() {
    let vec1 = Vector::from_array(&[c(2.0, 5.3), c(1.0, 8.0)]);
    let vec2 = Vector::from_array(&[c(0.0, 6.4), c(9.0, 5.3333)]);
    let expected = Vector::from_array(&[c(2.0, -1.1), c(-8.0, 2.6667)]);
    let actual = vec1.subtract(&vec2).unwrap();
    assert_complex_vec(&expected, &actual);
}

#[test]
fn vector_scale_test() {
    let mut vec = Vector::from_array(&[c(4.2, -3.1), c(2.9, 8.4), c(-4.0, 2.7)]);
    let expected = Vector::from_array(&[c(8.4, -6.2), c(5.8, 16.8), c(-8.0, 5.4)]);
    vec.scale(F32(2.0));
    assert_complex_vec(&expected, &vec);
}

#[test]
fn vector_conjugate_test() {
    let mut vec = Vector::from_array(&[c(7.3, 8.9), c(8.2, 9.1)]);
    let expected = Vector::from_array(&[c(7.3, -8.9), c(8.2, -9.1)]);
    vec.conjugate();
    assert_complex_vec(&expected, &vec);
}

#[test]
fn vector_transpose_test() {
    let mut vec = Vector::from(&[c(10.0, 4.0), c(5.0, 8.0)], VectorType::COLUMN_VECTOR);
    vec.transpose();
    assert_eq!(vec.get_type(), VectorType::ROW_VECTOR);
}

#[test]
fn vector_adjoint_test() {
    let mut vec = Vector::from(&[c(7.3, 8.9), c(8.2, 9.1)], VectorType::ROW_VECTOR);
    let expected = Vector::from(&[c(7.3, -8.9), c(8.2, -9.1)], VectorType::COLUMN_VECTOR);
    vec.adjoint();
    assert_eq!(vec.get_type(), VectorType::COLUMN_VECTOR);
    assert_complex_vec(&expected, &vec);
}

#[test]
fn norm_l2_test() {
    let vec = Vector::from_array(&[c(3.0, 4.0), c(6.0, 2.0)]);
    let expected: f32 = 8.06225;
    let actual = vec.norm_l2();
    assert_close(expected, actual.0, 0.0001);
}

#[test]
fn inner_product_test() {
    let vec1 = Vector::from(&[c(3.0, 1.0), c(0.2, 0.009)], VectorType::ROW_VECTOR);
    let vec2 = Vector::from(&[c(41.32, 3.0), c(7.2, 1.2)], VectorType::COLUMN_VECTOR);
    let expected = c(122.3892, 50.6248);
    let actual = vec1.inner_product(&vec2).unwrap();
    assert_complex(expected, actual);
}

#[test]
fn inner_product_same_orientation_test() {
    let vec1 = Vector::from_array(&[c(1.0, 0.0), c(2.0, 0.0)]);
    let vec2 = Vector::from_array(&[c(3.0, 0.0), c(4.0, 0.0)]);
    assert!(matches!(
        vec1.inner_product(&vec2),
        Err(MathError::IncompatibleOrientation)
    ));
}

#[test]
fn vector_add_shape_mismatch_test() {
    let vec1 = Vector::from_array(&[c(1.0, 0.0), c(2.0, 0.0)]);
    let vec2 = Vector::from_array(&[c(3.0, 0.0)]);
    assert!(matches!(vec1.add(&vec2), Err(MathError::ShapeMismatch)));
    let mut vec3 = Vector::from_array(&[c(3.0, 0.0), c(4.0, 0.0)]);
    vec3.transpose();
    assert!(matches!(vec1.add(&vec3), Err(MathError::ShapeMismatch)));
}

#[test]
fn vector_set_element_out_of_bounds_test() {
    let mut vec = Vector::from_array(&[c(1.0, 0.0)]);
    assert_eq!(Err(MathError::OutOfBounds), vec.set_element(1, c(2.0, 0.0)));
    assert_complex(c(1.0, 0.0), vec.get_element(0).unwrap());
}

#[test]
fn normalize_unit_norm_test() {
    let mut vec = Vector::from_array(&[c(3.0, 0.0), c(0.0, 4.0), c(1.0, 2.0)]);
    vec.normalize();
    assert_close(1.0, vec.norm_l2().0, 0.0001);
}

#[test]
fn vector_zeros_test() {
    let vec: Vector<F32> = Vector::zeros(3);
    assert_eq!(3, vec.size());
    assert_eq!(VectorType::COLUMN_VECTOR, vec.get_type());
    for i in 0..3 {
        assert_complex(c(0.0, 0.0), vec.get_element(i).unwrap());
    }
}

#[test]
fn outer_product_test() {
    let vec1 = Vector::from_array(&[c(1.0, 0.0), c(0.0, 1.0)]);
    let vec2 = Vector::from_array(&[c(2.0, 0.0), c(0.0, -1.0)]);
    let matrix = vec1.outer_product(&vec2).unwrap();
    assert_eq!(2, matrix.num_rows);
    assert_eq!(2, matrix.num_columns);
    assert_complex(c(2.0, 0.0), matrix.get_element(0, 0).unwrap());
    assert_complex(c(0.0, -1.0), matrix.get_element(0, 1).unwrap());
    assert_complex(c(0.0, 2.0), matrix.get_element(1, 0).unwrap());
    assert_complex(c(1.0, 0.0), matrix.get_element(1, 1).unwrap());
}

#[test]
fn outer_product_size_mismatch_test() {
    let vec1 = Vector::from_array(&[c(1.0, 0.0), c(0.0, 1.0)]);
    let vec2 = Vector::from_array(&[c(2.0, 0.0)]);
    assert!(matches!(
        vec1.outer_product(&vec2),
        Err(MathError::ShapeMismatch)
    ));
}

#[test]
fn vector_ones_test() {
    let vec: Vector<F32> = Vector::ones(2);
    assert_eq!(2, vec.size());
    assert_eq!(VectorType::COLUMN_VECTOR, vec.get_type());
    for i in 0..2 {
        assert_complex(c(0.0, 0.0), vec.get_element(i).unwrap());
    }
}
