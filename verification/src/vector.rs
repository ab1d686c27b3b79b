use vstd::prelude::*;

use crate::complex::{c_add, c_conj, c_mul, c_norm, c_scale, c_zero, Complex, ComplexArithmetic};
use crate::error::MathError;
use crate::matrix::Matrix;
use crate::scalar::Scalar;

verus! {

/// The orientation of a vector: a row vector stands for a linear
/// functional, a column vector for an element of the space. The
/// orientation decides which binary operations two vectors admit.
#[allow(non_camel_case_types)]
#[derive(Debug, Clone, Copy, PartialEq, Eq, Structural)]
pub enum VectorType {
    ROW_VECTOR,
    COLUMN_VECTOR,
}

/// An ordered, fixed-length sequence of complex numbers, tagged as a row
/// or a column vector. The element count is always the length of the
/// stored sequence.
#[derive(Debug, Clone)]
pub struct Vector<F: Scalar> {
    vector_type: VectorType,
    numbers: Vec<Complex<F>>,
}

impl<F: Scalar> View for Vector<F> {
    type V = Seq<Complex<F>>;

    closed spec fn view(&self) -> Seq<Complex<F>> {
        self.numbers@
    }
}

/// The sum `Σ a[k]·b[k]` over the first `n` elements, accumulated left to
/// right from complex zero — the contraction behind inner products and
/// matrix multiplication. Neither operand is conjugated.
pub open spec fn inner_spec<F: Scalar>(a: Seq<Complex<F>>, b: Seq<Complex<F>>, n: int) -> Complex<
    F,
>
    decreases n,
{
    if n <= 0 {
        c_zero::<F>()
    } else {
        c_add(inner_spec(a, b, n - 1), c_mul(a[n - 1], b[n - 1]))
    }
}

/// The sum `Σ |s[k]|²` over the first `n` elements, accumulated left to
/// right from scalar zero.
pub open spec fn sum_norm_sq_spec<F: Scalar>(s: Seq<Complex<F>>, n: int) -> F
    decreases n,
{
    if n <= 0 {
        F::zero_s()
    } else {
        sum_norm_sq_spec(s, n - 1).add_s(c_norm(s[n - 1]).mul_s(c_norm(s[n - 1])))
    }
}

/// The L2 norm `sqrt(Σ |s[k]|²)` of an element sequence.
pub open spec fn l2_spec<F: Scalar>(s: Seq<Complex<F>>) -> F {
    sum_norm_sq_spec(s, s.len() as int).sqrt_s()
}

/// Every element scaled by `1 / l2_spec(s)` — the result of normalizing.
pub open spec fn normalize_spec<F: Scalar>(s: Seq<Complex<F>>) -> Seq<Complex<F>> {
    s.map_values(|c: Complex<F>| c_scale(c, F::one_s().div_s(l2_spec(s))))
}

impl<F: Scalar> Vector<F> {
    /// The empty column vector.
    pub fn new() -> (r: Self)
        ensures
            r@ =~= Seq::<Complex<F>>::empty(),
            r.orientation() == VectorType::COLUMN_VECTOR,
    {
        Vector { vector_type: VectorType::COLUMN_VECTOR, numbers: Vec::new() }
    }

    /// The vector holding the elements of the given slice, in order, with
    /// the given orientation.
    pub fn from(arr: &[Complex<F>], vector_type: VectorType) -> (r: Self)
        ensures
            r@ == arr@,
            r.orientation() == vector_type,
    {
        let mut numbers: Vec<Complex<F>> = Vec::new();
        let n = arr.len();
        let mut i: usize = 0;
        while i < n
            invariant
                n == arr@.len(),
                i <= n,
                numbers@ == arr@.take(i as int),
            decreases n - i,
        {
            numbers.push(arr[i]);
            proof {
                assert(numbers@ =~= arr@.take(i + 1));
            }
            i += 1;
        }
        proof {
            assert(numbers@ =~= arr@);
        }
        Vector { vector_type, numbers }
    }

    /// The column vector holding the elements of the given slice, in order.
    pub fn from_array(arr: &[Complex<F>]) -> (r: Self)
        ensures
            r@ == arr@,
            r.orientation() == VectorType::COLUMN_VECTOR,
    {
        Vector::from(arr, VectorType::COLUMN_VECTOR)
    }

    /// The column vector holding the elements of the given `Vec`, in order.
    pub fn from_vec(vec: Vec<Complex<F>>) -> (r: Self)
        ensures
            r@ == vec@,
            r.orientation() == VectorType::COLUMN_VECTOR,
    {
        Vector { vector_type: VectorType::COLUMN_VECTOR, numbers: vec }
    }

    /// A column vector of the given length with every entry zero.
    pub fn zeros(size: usize) -> (r: Self)
        ensures
            r@.len() == size,
            forall|k: int| 0 <= k < size ==> r@[k] == c_zero::<F>(),
            r.orientation() == VectorType::COLUMN_VECTOR,
    {
        let mut numbers: Vec<Complex<F>> = Vec::new();
        let mut i: usize = 0;
        while i < size
            invariant
                i <= size,
                numbers@.len() == i,
                forall|k: int| 0 <= k < i ==> numbers@[k] == c_zero::<F>(),
            decreases size - i,
        {
            numbers.push(Complex::new());
            i += 1;
        }
        Vector { vector_type: VectorType::COLUMN_VECTOR, numbers }
    }

    /// A column vector of the given length filled with the same default
    /// entry as [`Vector::zeros`].
    pub fn ones(size: usize) -> (r: Self)
        ensures
            r@.len() == size,
            forall|k: int| 0 <= k < size ==> r@[k] == c_zero::<F>(),
            r.orientation() == VectorType::COLUMN_VECTOR,
    {
        Vector::zeros(size)
    }

    /// The orientation tag of this vector.
    pub closed spec fn orientation(self) -> VectorType {
        self.vector_type
    }

    /// The orientation tag of this vector.
    pub fn get_type(&self) -> (r: VectorType)
        ensures
            r == self.orientation(),
    {
        self.vector_type
    }

    /// The element at the given index, or `None` when the index is out of
    /// range.
    pub fn get_element(&self, index: usize) -> (r: Option<Complex<F>>)
        ensures
            index < self@.len() ==> r == Some(self@[index as int]),
            index >= self@.len() ==> r is None,
    {
        if index < self.numbers.len() {
            Some(self.numbers[index])
        } else {
            None
        }
    }

    /// Replaces the element at the given index; fails with `OutOfBounds`
    /// when the index is out of range, leaving the vector unchanged.
    pub fn set_element(&mut self, index: usize, element: Complex<F>) -> (r: Result<
        (),
        MathError,
    >)
        ensures
            r is Ok <==> index < old(self)@.len(),
            r is Err ==> r == Err::<(), MathError>(MathError::OutOfBounds) && *final(self)
                == *old(self),
            r is Ok ==> final(self)@ == old(self)@.update(index as int, element)
                && final(self).orientation() == old(self).orientation(),
    {
        if index >= self.numbers.len() {
            return Err(MathError::OutOfBounds);
        }
        self.numbers[index] = element;
        Ok(())
    }

    /// The element count.
    pub fn size(&self) -> (r: usize)
        ensures
            r == self@.len(),
    {
        self.numbers.len()
    }

    /// In-place scaling by `1 / norm_l2()`, turning a vector of nonzero
    /// norm into one of (approximately) unit norm. On a vector of
    /// near-zero norm the scaling factor is left to the scalar type's
    /// division; avoiding that case is the caller's responsibility.
    pub fn normalize(&mut self)
        ensures
            final(self)@ == normalize_spec(old(self)@),
            final(self).orientation() == old(self).orientation(),
    {
        let factor = F::one_e().div_e(self.norm_l2());
        self.scale(factor);
        proof {
            assert(self@ =~= normalize_spec(old(self)@));
        }
    }

    /// Element-wise addition of two vectors of the same orientation and
    /// length; fails with `ShapeMismatch` otherwise.
    pub fn add(&self, other: &Self) -> (r: Result<Self, MathError>)
        ensures
            r is Ok <==> (self.orientation() == other.orientation() && self@.len()
                == other@.len()),
            r is Err ==> r == Err::<Self, MathError>(MathError::ShapeMismatch),
            r matches Ok(v) ==> v.orientation() == self.orientation() && v@.len() == self@.len()
                && (forall|k: int| 0 <= k < self@.len() ==> v@[k] == c_add(self@[k], other@[k])),
    {
        if self.get_type() != other.get_type() {
            return Err(MathError::ShapeMismatch);
        }
        if self.numbers.len() != other.numbers.len() {
            return Err(MathError::ShapeMismatch);
        }
        let n = self.numbers.len();
        let mut result: Vec<Complex<F>> = Vec::new();
        let mut i: usize = 0;
        while i < n
            invariant
                n == self@.len(),
                n == other@.len(),
                i <= n,
                result@.len() == i,
                forall|k: int| 0 <= k < i ==> result@[k] == c_add(self@[k], other@[k]),
            decreases n - i,
        {
            let elem = self.numbers[i].addition(&other.numbers[i]);
            result.push(elem);
            i += 1;
        }
        Ok(Vector { vector_type: self.vector_type, numbers: result })
    }

    /// Subtraction, realized as addition of the other vector scaled by
    /// minus one; the same shape constraints as [`Vector::add`].
    pub fn subtract(&self, other: &Self) -> (r: Result<Self, MathError>)
        ensures
            r is Ok <==> (self.orientation() == other.orientation() && self@.len()
                == other@.len()),
            r is Err ==> r == Err::<Self, MathError>(MathError::ShapeMismatch),
            r matches Ok(v) ==> v.orientation() == self.orientation() && v@.len() == self@.len()
                && (forall|k: int|
                0 <= k < self@.len() ==> v@[k] == c_add(
                    self@[k],
                    c_scale(other@[k], F::one_s().neg_s()),
                )),
    {
        let mut other_copy = Vector {
            vector_type: other.vector_type,
            numbers: Vec::new(),
        };
        let n = other.numbers.len();
        let mut i: usize = 0;
        while i < n
            invariant
                n == other@.len(),
                i <= n,
                other_copy.numbers@.len() == i,
                other_copy.vector_type == other.orientation(),
                forall|k: int|
                    0 <= k < i ==> other_copy.numbers@[k] == c_scale(
                        other@[k],
                        F::one_s().neg_s(),
                    ),
            decreases n - i,
        {
            other_copy.numbers.push(other.numbers[i].scale(F::neg_one_e()));
            i += 1;
        }
        self.add(&other_copy)
    }

    /// In-place scaling: multiplies the real and the imaginary part of
    /// every element by the given real factor.
    pub fn scale(&mut self, factor: F)
        ensures
            final(self)@.len() == old(self)@.len(),
            forall|k: int|
                0 <= k < old(self)@.len() ==> final(self)@[k] == c_scale(old(self)@[k], factor),
            final(self).orientation() == old(self).orientation(),
    {
        let n = self.numbers.len();
        let mut result: Vec<Complex<F>> = Vec::new();
        let mut i: usize = 0;
        while i < n
            invariant
                n == self@.len(),
                i <= n,
                result@.len() == i,
                forall|k: int| 0 <= k < i ==> result@[k] == c_scale(self@[k], factor),
            decreases n - i,
        {
            result.push(self.numbers[i].scale(factor));
            i += 1;
        }
        self.numbers = result;
    }

    /// The bra-ket contraction `Σ self[k]·other[k]`, legal only between
    /// one row and one column vector; fails with
    /// `IncompatibleOrientation` when both operands share an orientation.
    /// Neither operand is conjugated.
    pub fn inner_product(&self, other: &Self) -> (r: Result<Complex<F>, MathError>)
        requires
            self@.len() == other@.len(),
        ensures
            r is Err <==> self.orientation() == other.orientation(),
            r is Err ==> r == Err::<Complex<F>, MathError>(MathError::IncompatibleOrientation),
            r matches Ok(v) ==> v == inner_spec(self@, other@, self@.len() as int),
    {
        if self.get_type() == other.get_type() {
            return Err(MathError::IncompatibleOrientation);
        }
        let n = self.numbers.len();
        let mut result: Complex<F> = Complex::new();
        let mut i: usize = 0;
        while i < n
            invariant
                n == self@.len(),
                n == other@.len(),
                i <= n,
                result == inner_spec(self@, other@, i as int),
            decreases n - i,
        {
            let elem = self.numbers[i].multiplication(&other.numbers[i]);
            result = result.addition(&elem);
            i += 1;
        }
        Ok(result)
    }

    /// The outer product of two vectors of equal length `n`: the square
    /// `n × n` matrix `M` with `M[i][j] = self[i]·other[j]`; fails with
    /// `ShapeMismatch` exactly when the lengths differ.
    pub fn outer_product(&self, other: &Self) -> (r: Result<Matrix<F>, MathError>)
        ensures
            r is Ok <==> self@.len() == other@.len(),
            r is Err ==> r == Err::<Matrix<F>, MathError>(MathError::ShapeMismatch),
            r matches Ok(m) ==> m.wf() && m.num_rows == self@.len() && m.num_columns == self@.len()
                && (forall|i: int, j: int|
                0 <= i < self@.len() && 0 <= j < self@.len() ==> m@[i][j] == c_mul(
                    self@[i],
                    other@[j],
                )),
    {
        let vector_size = self.size();
        if vector_size != other.size() {
            return Err(MathError::ShapeMismatch);
        }
        let mut rows: Vec<Vector<F>> = Vec::new();
        let mut i: usize = 0;
        while i < vector_size
            invariant
                vector_size == self@.len(),
                vector_size == other@.len(),
                i <= vector_size,
                rows@.len() == i,
                forall|k: int|
                    0 <= k < i ==> (#[trigger] rows@[k])@.len() == vector_size && (forall|j: int|
                        0 <= j < vector_size ==> rows@[k]@[j] == c_mul(self@[k], other@[j])),
            decreases vector_size - i,
        {
            let mut row: Vec<Complex<F>> = Vec::new();
            let mut j: usize = 0;
            while j < vector_size
                invariant
                    vector_size == self@.len(),
                    vector_size == other@.len(),
                    i < vector_size,
                    j <= vector_size,
                    row@.len() == j,
                    forall|t: int| 0 <= t < j ==> row@[t] == c_mul(self@[i as int], other@[t]),
                decreases vector_size - j,
            {
                row.push(self.numbers[i].multiplication(&other.numbers[j]));
                j += 1;
            }
            rows.push(Vector::from_vec(row));
            i += 1;
        }
        Ok(Matrix::from_rows(vector_size, vector_size, rows))
    }

    /// The L2 norm `sqrt(Σ |self[k]|²)`.
    pub fn norm_l2(&self) -> (r: F)
        ensures
            r == l2_spec(self@),
    {
        let n = self.numbers.len();
        let mut sum = F::zero_e();
        let mut i: usize = 0;
        while i < n
            invariant
                n == self@.len(),
                i <= n,
                sum == sum_norm_sq_spec(self@, i as int),
            decreases n - i,
        {
            let norm_value = self.numbers[i].norm();
            sum = sum.add_e(norm_value.mul_e(norm_value));
            i += 1;
        }
        sum.sqrt_e()
    }

    /// In-place conjugation of every element.
    pub fn conjugate(&mut self)
        ensures
            final(self)@.len() == old(self)@.len(),
            forall|k: int| 0 <= k < old(self)@.len() ==> final(self)@[k] == c_conj(old(self)@[k]),
            final(self).orientation() == old(self).orientation(),
    {
        let n = self.numbers.len();
        let mut result: Vec<Complex<F>> = Vec::new();
        let mut i: usize = 0;
        while i < n
            invariant
                n == self@.len(),
                i <= n,
                result@.len() == i,
                forall|k: int| 0 <= k < i ==> result@[k] == c_conj(self@[k]),
            decreases n - i,
        {
            let mut elem = self.numbers[i];
            elem.conjugate();
            result.push(elem);
            i += 1;
        }
        self.numbers = result;
    }

    /// In-place transposition: flips the orientation tag and leaves the
    /// elements unchanged.
    pub fn transpose(&mut self)
        ensures
            final(self)@ == old(self)@,
            old(self).orientation() == VectorType::ROW_VECTOR ==> final(self).orientation()
                == VectorType::COLUMN_VECTOR,
            old(self).orientation() == VectorType::COLUMN_VECTOR ==> final(self).orientation()
                == VectorType::ROW_VECTOR,
    {
        self.vector_type = match self.vector_type {
            VectorType::ROW_VECTOR => VectorType::COLUMN_VECTOR,
            VectorType::COLUMN_VECTOR => VectorType::ROW_VECTOR,
        };
    }

    /// In-place adjoint: the transpose with every element conjugated.
    pub fn adjoint(&mut self)
        ensures
            final(self)@.len() == old(self)@.len(),
            forall|k: int| 0 <= k < old(self)@.len() ==> final(self)@[k] == c_conj(old(self)@[k]),
            old(self).orientation() == VectorType::ROW_VECTOR ==> final(self).orientation()
                == VectorType::COLUMN_VECTOR,
            old(self).orientation() == VectorType::COLUMN_VECTOR ==> final(self).orientation()
                == VectorType::ROW_VECTOR,
    {
        self.transpose();
        self.conjugate();
    }
}

} // verus!
