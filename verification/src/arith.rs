use vstd::prelude::*;
use crate::scalar::Scalar;
use crate::vec3::Vec3;

verus! {

/// The rounding arithmetic of binary32, supplied by the caller.
///
/// The solver decides by itself everything that is exact on bit patterns:
/// comparison, sign change, the test for zero, moving values about. Results
/// that round are asked of an implementation of this trait. Nothing is
/// assumed of them: what the solver promises, it promises for every
/// implementation, and where it says what a value is, it says of which
/// question to the implementation the value is an answer (`is_sum` and the
/// predicates after it).
pub trait Arithmetic {
    /// The scalar nearest to a count.
    fn from_count(&self, n: usize) -> Scalar;

    /// `a + b`
    fn sum(&self, a: Scalar, b: Scalar) -> Scalar;

    /// `a - b`
    fn difference(&self, a: Scalar, b: Scalar) -> Scalar;

    /// `a * b`
    fn product(&self, a: Scalar, b: Scalar) -> Scalar;

    /// `a / b`
    fn quotient(&self, a: Scalar, b: Scalar) -> Scalar;

    /// The square root of `a`.
    fn sqrt(&self, a: Scalar) -> Scalar;

    /// `a + b`, component by component.
    fn vec_sum(&self, a: Vec3, b: Vec3) -> Vec3;

    /// `a - b`, component by component.
    fn vec_difference(&self, a: Vec3, b: Vec3) -> Vec3;

    /// Each component of `v` times `s`.
    fn scaled(&self, v: Vec3, s: Scalar) -> Vec3;

    /// Each component of `v` over `s`.
    fn divided(&self, v: Vec3, s: Scalar) -> Vec3;

    /// The inner product of `a` and `b`.
    fn dot(&self, a: Vec3, b: Vec3) -> Scalar;

    /// The vector product `a × b`.
    fn cross(&self, a: Vec3, b: Vec3) -> Vec3;

    /// The Euclidean norm of `v`.
    fn length(&self, v: Vec3) -> Scalar;

    /// The square of the norm of `v`.
    fn length_squared(&self, v: Vec3) -> Scalar;

    /// The norm of `a - b`.
    fn distance(&self, a: Vec3, b: Vec3) -> Scalar;
}

/// `r` is an answer of `ar` to `from_count(n)`.
#[verifier::inline]
pub open spec fn is_count<A: Arithmetic>(ar: &A, n: usize, r: Scalar) -> bool {
    call_ensures(A::from_count, (ar, n), r)
}

/// `r` is an answer of `ar` to `sum(a, b)`.
#[verifier::inline]
pub open spec fn is_sum<A: Arithmetic>(ar: &A, a: Scalar, b: Scalar, r: Scalar) -> bool {
    call_ensures(A::sum, (ar, a, b), r)
}

/// `r` is an answer of `ar` to `difference(a, b)`.
#[verifier::inline]
pub open spec fn is_difference<A: Arithmetic>(ar: &A, a: Scalar, b: Scalar, r: Scalar) -> bool {
    call_ensures(A::difference, (ar, a, b), r)
}

/// `r` is an answer of `ar` to `product(a, b)`.
#[verifier::inline]
pub open spec fn is_product<A: Arithmetic>(ar: &A, a: Scalar, b: Scalar, r: Scalar) -> bool {
    call_ensures(A::product, (ar, a, b), r)
}

/// `r` is an answer of `ar` to `quotient(a, b)`.
#[verifier::inline]
pub open spec fn is_quotient<A: Arithmetic>(ar: &A, a: Scalar, b: Scalar, r: Scalar) -> bool {
    call_ensures(A::quotient, (ar, a, b), r)
}

/// `r` is an answer of `ar` to `sqrt(a)`.
#[verifier::inline]
pub open spec fn is_sqrt<A: Arithmetic>(ar: &A, a: Scalar, r: Scalar) -> bool {
    call_ensures(A::sqrt, (ar, a), r)
}

/// `r` is an answer of `ar` to `vec_sum(a, b)`.
#[verifier::inline]
pub open spec fn is_vec_sum<A: Arithmetic>(ar: &A, a: Vec3, b: Vec3, r: Vec3) -> bool {
    call_ensures(A::vec_sum, (ar, a, b), r)
}

/// `r` is an answer of `ar` to `vec_difference(a, b)`.
#[verifier::inline]
pub open spec fn is_vec_difference<A: Arithmetic>(ar: &A, a: Vec3, b: Vec3, r: Vec3) -> bool {
    call_ensures(A::vec_difference, (ar, a, b), r)
}

/// `r` is an answer of `ar` to `scaled(v, s)`.
#[verifier::inline]
pub open spec fn is_scaled<A: Arithmetic>(ar: &A, v: Vec3, s: Scalar, r: Vec3) -> bool {
    call_ensures(A::scaled, (ar, v, s), r)
}

/// `r` is an answer of `ar` to `divided(v, s)`.
#[verifier::inline]
pub open spec fn is_divided<A: Arithmetic>(ar: &A, v: Vec3, s: Scalar, r: Vec3) -> bool {
    call_ensures(A::divided, (ar, v, s), r)
}

/// `r` is an answer of `ar` to `dot(a, b)`.
#[verifier::inline]
pub open spec fn is_dot<A: Arithmetic>(ar: &A, a: Vec3, b: Vec3, r: Scalar) -> bool {
    call_ensures(A::dot, (ar, a, b), r)
}

/// `r` is an answer of `ar` to `cross(a, b)`.
#[verifier::inline]
pub open spec fn is_cross<A: Arithmetic>(ar: &A, a: Vec3, b: Vec3, r: Vec3) -> bool {
    call_ensures(A::cross, (ar, a, b), r)
}

/// `r` is an answer of `ar` to `length(v)`.
#[verifier::inline]
pub open spec fn is_length<A: Arithmetic>(ar: &A, v: Vec3, r: Scalar) -> bool {
    call_ensures(A::length, (ar, v), r)
}

/// `r` is an answer of `ar` to `length_squared(v)`.
#[verifier::inline]
pub open spec fn is_length_squared<A: Arithmetic>(ar: &A, v: Vec3, r: Scalar) -> bool {
    call_ensures(A::length_squared, (ar, v), r)
}

/// `r` is an answer of `ar` to `distance(a, b)`.
#[verifier::inline]
pub open spec fn is_distance<A: Arithmetic>(ar: &A, a: Vec3, b: Vec3, r: Scalar) -> bool {
    call_ensures(A::distance, (ar, a, b), r)
}

/// A source of scalars drawn uniformly from the half-open unit interval.
pub trait UnitSampler {
    /// The next sample.
    fn next_unit(&mut self) -> Scalar;
}

} // verus!
