//! The element types that vectors and matrices are built from.

use std::ops::{Add, Div, Mul, Neg, Sub};
use vstd::prelude::*;
use vstd::std_specs::cmp::PartialEqSpec;
use vstd::std_specs::ops::{AddSpec, DivSpec, MulSpec, NegSpec, SubSpec};

verus! {

/// A number that can fill a `Vector` or a `Matrix`: a copyable value with the
/// four arithmetic operators, equality, and the two identities.
///
/// What an operator demands of its operands is its `add_req`, `sub_req`,
/// `mul_req` or `div_req`, and what it returns is its `add_spec`, `sub_spec`,
/// `mul_spec` or `div_spec`. For the primitive integers the demand is that
/// the result fits the type, and that a divisor is not zero.
///
/// An element type declared in unverified code implements the operators and
/// `zero` and `one`, gives `zero_spec` and `one_spec` the bodies of `zero` and
/// `one`, and leaves the body of the lemma empty.
pub trait Number: Copy + PartialEq + Add<Output = Self> + Sub<Output = Self> + Mul<
    Output = Self,
> + Div<Output = Self> {
    /// The additive identity.
    spec fn zero_spec() -> Self;

    /// The multiplicative identity.
    spec fn one_spec() -> Self;

    /// Returns the additive identity.
    fn zero() -> (r: Self)
        ensures
            r == Self::zero_spec(),
    ;

    /// Returns the multiplicative identity.
    fn one() -> (r: Self)
        ensures
            r == Self::one_spec(),
    ;

    /// Every operator returns exactly what its `_spec` function says, and
    /// `==` holds exactly where `eq_spec` does.
    proof fn lemma_exact_arithmetic()
        ensures
            Self::obeys_add_spec(),
            Self::obeys_sub_spec(),
            Self::obeys_mul_spec(),
            Self::obeys_div_spec(),
            Self::obeys_eq_spec(),
    ;
}

/// A `Number` with a negation that undoes itself.
pub trait Signed: Number + Neg<Output = Self> {
    /// Negation returns exactly what `neg_spec` says.
    proof fn lemma_exact_negation()
        ensures
            Self::obeys_neg_spec(),
    ;

    /// Where `a` can be negated, so can `-a`, and that gives `a` back.
    proof fn lemma_neg_neg(a: Self)
        requires
            a.neg_req(),
        ensures
            a.neg_spec().neg_req(),
            a.neg_spec().neg_spec() == a,
    ;
}

/// A `Number` whose arithmetic keeps the identities of a ring wherever the
/// operations are defined, and in which the natural numbers can be counted
/// out by adding `one`.
pub trait Ring: Number {
    /// The element that stands for the natural number `n`.
    spec fn from_nat(n: nat) -> Self;

    /// Whether the type has an element for `n`.
    spec fn holds_nat(n: nat) -> bool;

    /// Adding `zero` on either side is always possible and changes nothing.
    proof fn lemma_zero_neutral(a: Self)
        ensures
            Self::zero_spec().add_req(a),
            Self::zero_spec().add_spec(a) == a,
            a.add_req(Self::zero_spec()),
            a.add_spec(Self::zero_spec()) == a,
    ;

    /// Multiplying by `one` on either side is always possible and changes
    /// nothing.
    proof fn lemma_one_neutral(a: Self)
        ensures
            Self::one_spec().mul_req(a),
            Self::one_spec().mul_spec(a) == a,
            a.mul_req(Self::one_spec()),
            a.mul_spec(Self::one_spec()) == a,
    ;

    /// Multiplying by `zero` on either side is always possible and gives
    /// `zero`.
    proof fn lemma_zero_absorbs(a: Self)
        ensures
            Self::zero_spec().mul_req(a),
            Self::zero_spec().mul_spec(a) == Self::zero_spec(),
            a.mul_req(Self::zero_spec()),
            a.mul_spec(Self::zero_spec()) == Self::zero_spec(),
    ;

    /// Where `a + b` is defined, `b` can be taken away again, and that gives
    /// `a` back.
    proof fn lemma_add_then_sub(a: Self, b: Self)
        requires
            a.add_req(b),
        ensures
            a.add_spec(b).sub_req(b),
            a.add_spec(b).sub_spec(b) == a,
    ;

    /// Two elements compare equal exactly where they are the same element.
    proof fn lemma_eq_is_equality(a: Self, b: Self)
        ensures
            a.eq_spec(&b) == (a == b),
    ;

    /// Counting starts at `zero`.
    proof fn lemma_from_nat_zero()
        ensures
            Self::holds_nat(0),
            Self::from_nat(0) == Self::zero_spec(),
    ;

    /// Where the type holds `n + 1`, it holds `n`, and adding `one` to `n`
    /// gives `n + 1`.
    proof fn lemma_from_nat_succ(n: nat)
        requires
            Self::holds_nat(n + 1),
        ensures
            Self::holds_nat(n),
            Self::from_nat(n).add_req(Self::one_spec()),
            Self::from_nat(n).add_spec(Self::one_spec()) == Self::from_nat(n + 1),
    ;
}

} // verus!
