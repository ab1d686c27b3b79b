use vstd::prelude::*;

use crate::error::MathError;
use crate::scalar::Scalar;

verus! {

/// A complex number: a pair of real coefficients over the scalar field `F`.
///
/// A value is created by an explicit constructor, copied freely, and never
/// mutated except by an explicit in-place `conjugate`.
#[derive(Clone, Copy, Debug)]
pub struct Complex<F: Scalar> {
    pub real: F,
    pub imaginary: F,
}

/// The complex number zero.
pub open spec fn c_zero<F: Scalar>() -> Complex<F> {
    Complex { real: F::zero_s(), imaginary: F::zero_s() }
}

/// The complex number one.
pub open spec fn c_one<F: Scalar>() -> Complex<F> {
    Complex { real: F::one_s(), imaginary: F::zero_s() }
}

/// Component-wise complex addition.
pub open spec fn c_add<F: Scalar>(a: Complex<F>, b: Complex<F>) -> Complex<F> {
    Complex { real: a.real.add_s(b.real), imaginary: a.imaginary.add_s(b.imaginary) }
}

/// Component-wise complex subtraction.
pub open spec fn c_sub<F: Scalar>(a: Complex<F>, b: Complex<F>) -> Complex<F> {
    Complex { real: a.real.sub_s(b.real), imaginary: a.imaginary.sub_s(b.imaginary) }
}

/// Complex multiplication: `(a·b).re = a.re·b.re − a.im·b.im` and
/// `(a·b).im = a.re·b.im + a.im·b.re`.
pub open spec fn c_mul<F: Scalar>(a: Complex<F>, b: Complex<F>) -> Complex<F> {
    Complex {
        real: a.real.mul_s(b.real).sub_s(a.imaginary.mul_s(b.imaginary)),
        imaginary: a.real.mul_s(b.imaginary).add_s(a.imaginary.mul_s(b.real)),
    }
}

/// Both parts multiplied by a real factor.
pub open spec fn c_scale<F: Scalar>(a: Complex<F>, factor: F) -> Complex<F> {
    Complex { real: a.real.mul_s(factor), imaginary: a.imaginary.mul_s(factor) }
}

/// The complex conjugate: the imaginary part negated.
pub open spec fn c_conj<F: Scalar>(a: Complex<F>) -> Complex<F> {
    Complex { real: a.real, imaginary: a.imaginary.neg_s() }
}

/// The modulus `sqrt(re² + im²)`, a real scalar.
pub open spec fn c_norm<F: Scalar>(a: Complex<F>) -> F {
    a.real.mul_s(a.real).add_s(a.imaginary.mul_s(a.imaginary)).sqrt_s()
}

/// The squared modulus `re² + im²` of the divisor, the denominator of a
/// complex division.
pub open spec fn c_den<F: Scalar>(b: Complex<F>) -> F {
    b.real.mul_s(b.real).add_s(b.imaginary.mul_s(b.imaginary))
}

/// Complex division `a / b`, computed as `(a·conj(b)) / |b|²`. The division
/// is refused when `|b|²` lies within the scalar type's absolute near-zero
/// threshold.
pub open spec fn c_div<F: Scalar>(a: Complex<F>, b: Complex<F>) -> Result<
    Complex<F>,
    MathError,
> {
    if c_den(b).near_zero_s() {
        Err(MathError::DivisionByZero)
    } else {
        Ok(
            Complex {
                real: a.real.mul_s(b.real).add_s(a.imaginary.mul_s(b.imaginary)).div_s(c_den(b)),
                imaginary: a.imaginary.mul_s(b.real).sub_s(a.real.mul_s(b.imaginary)).div_s(
                    c_den(b),
                ),
            },
        )
    }
}

/// The polar angle `atan(im / re)`.
pub open spec fn c_angle<F: Scalar>(a: Complex<F>) -> F {
    a.imaginary.div_s(a.real).atan_s()
}

/// The arithmetic a complex number supports. Implemented by [`Complex`];
/// the contracts live on that implementation.
pub trait ComplexArithmetic where Self: Sized {
    fn conjugate(&mut self);

    fn addition(&self, number: &Self) -> Self;

    fn subtraction(&self, number: &Self) -> Self;

    fn multiplication(&self, number: &Self) -> Self;

    fn division(&self, number: &Self) -> Result<Self, MathError>;
}

impl<F: Scalar> Complex<F> {
    /// The complex number zero.
    pub fn new() -> (r: Self)
        ensures
            r == c_zero::<F>(),
    {
        Complex { real: F::zero_e(), imaginary: F::zero_e() }
    }

    /// The complex number with the given real and imaginary parts.
    pub fn from(real_part: F, imaginary_part: F) -> (r: Self)
        ensures
            r.real == real_part,
            r.imaginary == imaginary_part,
    {
        Complex { real: real_part, imaginary: imaginary_part }
    }

    /// The complex number of the given polar coordinates, with
    /// `re = norm·sin(angle)` and `im = norm·cos(angle)` — the ordering this
    /// library pairs with [`Complex::to_polar`].
    pub fn from_polar(norm: F, angle: F) -> (r: Self)
        ensures
            r.real == norm.mul_s(angle.sin_s()),
            r.imaginary == norm.mul_s(angle.cos_s()),
    {
        let re = norm.mul_e(angle.sin_e());
        let im = norm.mul_e(angle.cos_e());
        Complex { real: re, imaginary: im }
    }

    /// The polar coordinates `(modulus, angle)` of this number.
    pub fn to_polar(&self) -> (r: (F, F))
        ensures
            r.0 == c_norm(*self),
            r.1 == c_angle(*self),
    {
        (self.norm(), self.calculate_angle())
    }

    /// The polar angle `atan(im / re)`.
    pub fn calculate_angle(&self) -> (r: F)
        ensures
            r == c_angle(*self),
    {
        self.imaginary.div_e(self.real).atan_e()
    }

    /// Both parts multiplied by a real factor.
    pub fn scale(&self, factor: F) -> (r: Self)
        ensures
            r == c_scale(*self, factor),
    {
        Complex { real: self.real.mul_e(factor), imaginary: self.imaginary.mul_e(factor) }
    }

    /// The modulus `sqrt(re² + im²)`, a real scalar.
    pub fn norm(&self) -> (r: F)
        ensures
            r == c_norm(*self),
    {
        self.real.mul_e(self.real).add_e(self.imaginary.mul_e(self.imaginary)).sqrt_e()
    }
}

impl<F: Scalar> ComplexArithmetic for Complex<F> {
    /// In-place conjugation: negates the imaginary part.
    fn conjugate(&mut self)
        ensures
            *final(self) == c_conj(*old(self)),
    {
        self.imaginary = self.imaginary.neg_e();
    }

    /// Component-wise complex addition.
    fn addition(&self, number: &Self) -> (r: Self)
        ensures
            r == c_add(*self, *number),
    {
        Complex {
            real: self.real.add_e(number.real),
            imaginary: self.imaginary.add_e(number.imaginary),
        }
    }

    /// Component-wise complex subtraction.
    fn subtraction(&self, number: &Self) -> (r: Self)
        ensures
            r == c_sub(*self, *number),
    {
        Complex {
            real: self.real.sub_e(number.real),
            imaginary: self.imaginary.sub_e(number.imaginary),
        }
    }

    /// Complex multiplication.
    fn multiplication(&self, number: &Self) -> (r: Self)
        ensures
            r == c_mul(*self, *number),
    {
        Complex {
            real: self.real.mul_e(number.real).sub_e(self.imaginary.mul_e(number.imaginary)),
            imaginary: self.real.mul_e(number.imaginary).add_e(self.imaginary.mul_e(number.real)),
        }
    }

    /// Complex division `(self·conj(number)) / |number|²`; fails with
    /// `DivisionByZero` exactly when `|number|²` lies within the scalar
    /// type's near-zero threshold.
    fn division(&self, number: &Self) -> (r: Result<Self, MathError>)
        ensures
            r == c_div(*self, *number),
    {
        let real_numerator = self.real.mul_e(number.real).add_e(
            self.imaginary.mul_e(number.imaginary),
        );
        let complex_numerator = self.imaginary.mul_e(number.real).sub_e(
            self.real.mul_e(number.imaginary),
        );
        let denominator = number.real.mul_e(number.real).add_e(
            number.imaginary.mul_e(number.imaginary),
        );
        if denominator.near_zero_e() {
            Err(MathError::DivisionByZero)
        } else {
            Ok(
                Complex {
                    real: real_numerator.div_e(denominator),
                    imaginary: complex_numerator.div_e(denominator),
                },
            )
        }
    }
}

/// Complex addition does not depend on the order of its operands, as long
/// as every coefficient is an ordinary finite number. (On NaN coefficients
/// an implementor's addition may pick either operand's payload, so they are
/// left out.)
pub proof fn lemma_addition_commutative<F: Scalar>(a: Complex<F>, b: Complex<F>)
    requires
        a.real.finite_s(),
        a.imaginary.finite_s(),
        b.real.finite_s(),
        b.imaginary.finite_s(),
    ensures
        c_add(a, b) == c_add(b, a),
{
    F::lemma_add_comm(a.real, b.real);
    F::lemma_add_comm(a.imaginary, b.imaginary);
}

/// Multiplying a complex number by its own conjugate yields a number with
/// imaginary part exactly zero, whose real part is the exact squared
/// modulus `re² + im²`. The products of the coefficients must be finite for
/// the cancellation to be exact.
pub proof fn lemma_multiplication_conjugate<F: Scalar>(a: Complex<F>)
    requires
        a.real.finite_s(),
        a.imaginary.finite_s(),
        a.real.mul_s(a.imaginary).finite_s(),
        a.real.mul_s(a.real).finite_s(),
        a.imaginary.mul_s(a.imaginary).finite_s(),
    ensures
        c_mul(a, c_conj(a)).imaginary == F::zero_s(),
        c_mul(a, c_conj(a)).real == a.real.mul_s(a.real).add_s(a.imaginary.mul_s(a.imaginary)),
{
    F::lemma_mul_neg(a.real, a.imaginary);
    F::lemma_mul_comm(a.imaginary, a.real);
    F::lemma_add_opposite(a.real.mul_s(a.imaginary));
    F::lemma_mul_neg(a.imaginary, a.imaginary);
    F::lemma_sub_neg(a.real.mul_s(a.real), a.imaginary.mul_s(a.imaginary));
}

} // verus!
