use vstd::prelude::*;

verus! {

/// The field of real coefficients over which the complex algebra is built.
///
/// The library never fixes the representation of a real number; it is
/// parameterized over any type that supports the arithmetic declared here,
/// resolved at compile time. Each executable method is pinned to an
/// uninterpreted spec-level counterpart, so every operation of the library
/// can state exactly which arithmetic expression each entry of its result
/// is, without committing to a particular number format.
///
/// An implementor supplies the concrete number type — typically an IEEE
/// floating-point representation — outside of this crate, and is responsible
/// for meeting these contracts, just as any caller of verified code is
/// responsible for its `requires` clauses:
///
/// - each `*_e` method must return the value its `*_s` spec function
///   denotes (for a pure, deterministic number type this only says that the
///   operation is a function of its operands);
/// - the proof methods state arithmetic identities that IEEE-754 arithmetic
///   satisfies on the stated operands. The ones that can fail on infinities
///   are guarded by `finite_s`, and none of them is claimed on NaN operands
///   (`finite_s` must exclude NaN as well as the infinities).
pub trait Scalar: Sized + Copy {
    /// The value the implementor's addition returns.
    spec fn add_s(self, other: Self) -> Self;

    /// The value the implementor's subtraction returns.
    spec fn sub_s(self, other: Self) -> Self;

    /// The value the implementor's multiplication returns.
    spec fn mul_s(self, other: Self) -> Self;

    /// The value the implementor's division returns.
    spec fn div_s(self, other: Self) -> Self;

    /// The value the implementor's negation returns.
    spec fn neg_s(self) -> Self;

    /// The value the implementor's square root returns.
    spec fn sqrt_s(self) -> Self;

    /// The value the implementor's sine returns.
    spec fn sin_s(self) -> Self;

    /// The value the implementor's cosine returns.
    spec fn cos_s(self) -> Self;

    /// The value the implementor's arc tangent returns.
    spec fn atan_s(self) -> Self;

    /// The implementor's additive neutral element (for a floating-point
    /// type: positive zero).
    spec fn zero_s() -> Self;

    /// The implementor's multiplicative neutral element.
    spec fn one_s() -> Self;

    /// Whether the value lies within the implementor's absolute near-zero
    /// threshold, the guard used before dividing.
    spec fn near_zero_s(self) -> bool;

    /// Whether the value is an ordinary finite number — neither an
    /// infinity nor a NaN. The arithmetic identities below are only
    /// claimed on such values.
    spec fn finite_s(self) -> bool;

    fn add_e(self, other: Self) -> (r: Self)
        ensures
            r == self.add_s(other),
    ;

    fn sub_e(self, other: Self) -> (r: Self)
        ensures
            r == self.sub_s(other),
    ;

    fn mul_e(self, other: Self) -> (r: Self)
        ensures
            r == self.mul_s(other),
    ;

    fn div_e(self, other: Self) -> (r: Self)
        ensures
            r == self.div_s(other),
    ;

    fn neg_e(self) -> (r: Self)
        ensures
            r == self.neg_s(),
    ;

    fn sqrt_e(self) -> (r: Self)
        ensures
            r == self.sqrt_s(),
    ;

    fn sin_e(self) -> (r: Self)
        ensures
            r == self.sin_s(),
    ;

    fn cos_e(self) -> (r: Self)
        ensures
            r == self.cos_s(),
    ;

    fn atan_e(self) -> (r: Self)
        ensures
            r == self.atan_s(),
    ;

    fn zero_e() -> (r: Self)
        ensures
            r == Self::zero_s(),
    ;

    fn one_e() -> (r: Self)
        ensures
            r == Self::one_s(),
    ;

    /// The scaling factor used to negate a vector: minus one.
    fn neg_one_e() -> (r: Self)
        ensures
            r == Self::one_s().neg_s(),
    ;

    fn near_zero_e(self) -> (r: bool)
        ensures
            r == self.near_zero_s(),
    ;

    /// Addition is commutative on finite operands (IEEE-754 addition
    /// returns the identical value for both operand orders).
    proof fn lemma_add_comm(a: Self, b: Self)
        ensures
            a.finite_s() && b.finite_s() ==> a.add_s(b) == b.add_s(a),
    ;

    /// Multiplication is commutative on finite operands.
    proof fn lemma_mul_comm(a: Self, b: Self)
        ensures
            a.finite_s() && b.finite_s() ==> a.mul_s(b) == b.mul_s(a),
    ;

    /// Multiplying by a negated finite operand negates the product
    /// (IEEE-754 negation only flips the sign, and the rounded magnitude
    /// of the product is unchanged).
    proof fn lemma_mul_neg(a: Self, b: Self)
        ensures
            a.finite_s() && b.finite_s() ==> a.mul_s(b.neg_s()) == a.mul_s(b).neg_s(),
    ;

    /// Negation is an involution (flipping the sign twice restores the
    /// original value, for every value).
    proof fn lemma_neg_neg(a: Self)
        ensures
            a.neg_s().neg_s() == a,
    ;

    /// A finite value added to its own negation cancels exactly to the
    /// additive neutral element.
    proof fn lemma_add_opposite(a: Self)
        ensures
            a.finite_s() ==> a.neg_s().add_s(a) == Self::zero_s(),
    ;

    /// Subtracting a negated finite operand is addition.
    proof fn lemma_sub_neg(a: Self, b: Self)
        ensures
            a.finite_s() && b.finite_s() ==> a.sub_s(b.neg_s()) == a.add_s(b),
    ;
}

} // verus!
