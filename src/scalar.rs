use vstd::prelude::*;

verus! {

/// The arithmetic that the engine runs on.
///
/// Every operation is named by a `spec_` function, and each executable
/// operation returns exactly the named value, so that the contracts of the
/// layers and networks fix the whole computation (operation by operation, in
/// order) without committing to a number representation. The transcendental
/// functions used by the activation functions are part of this interface, so
/// any implementation (exact, approximate, vectorised) can be plugged in.
/// Outside verified code the `spec_` functions are ordinary functions: an
/// implementation gives them the same meaning as the matching operation.
pub trait Scalar: Copy + Sized {
    /// The scalar that stands for the count `n`.
    spec fn spec_of_count(n: usize) -> Self;

    spec fn spec_plus(a: Self, b: Self) -> Self;

    spec fn spec_minus(a: Self, b: Self) -> Self;

    spec fn spec_times(a: Self, b: Self) -> Self;

    spec fn spec_divided(a: Self, b: Self) -> Self;

    spec fn spec_negated(a: Self) -> Self;

    spec fn spec_less_than(a: Self, b: Self) -> bool;

    spec fn spec_at_most(a: Self, b: Self) -> bool;

    spec fn spec_exp(a: Self) -> Self;

    spec fn spec_tanh(a: Self) -> Self;

    spec fn spec_cos(a: Self) -> Self;

    spec fn spec_sin(a: Self) -> Self;

    spec fn spec_sigmoid(a: Self) -> Self;

    fn from_count(n: usize) -> (r: Self)
        ensures
            r == Self::spec_of_count(n),
    ;

    fn plus(self, o: Self) -> (r: Self)
        ensures
            r == Self::spec_plus(self, o),
    ;

    fn minus(self, o: Self) -> (r: Self)
        ensures
            r == Self::spec_minus(self, o),
    ;

    fn times(self, o: Self) -> (r: Self)
        ensures
            r == Self::spec_times(self, o),
    ;

    fn divided(self, o: Self) -> (r: Self)
        ensures
            r == Self::spec_divided(self, o),
    ;

    fn negated(self) -> (r: Self)
        ensures
            r == Self::spec_negated(self),
    ;

    fn less_than(self, o: Self) -> (r: bool)
        ensures
            r == Self::spec_less_than(self, o),
    ;

    fn at_most(self, o: Self) -> (r: bool)
        ensures
            r == Self::spec_at_most(self, o),
    ;

    fn exp(self) -> (r: Self)
        ensures
            r == Self::spec_exp(self),
    ;

    fn tanh(self) -> (r: Self)
        ensures
            r == Self::spec_tanh(self),
    ;

    fn cos(self) -> (r: Self)
        ensures
            r == Self::spec_cos(self),
    ;

    fn sin(self) -> (r: Self)
        ensures
            r == Self::spec_sin(self),
    ;

    fn sigmoid(self) -> (r: Self)
        ensures
            r == Self::spec_sigmoid(self),
    ;
}

/// The additive identity: the scalar for zero.
pub open spec fn zero<W: Scalar>() -> W {
    W::spec_of_count(0)
}

/// The multiplicative identity: the scalar for one.
pub open spec fn one<W: Scalar>() -> W {
    W::spec_of_count(1)
}

} // verus!
