//! The numbers that the simulation computes with.
//!
//! Every type of the library takes the scalar as a parameter `S`. The
//! contracts speak of `S` through the specifications of its operators:
//! [`sum`], [`prod`] and the others say what `+`, `*`, ... return, and
//! [`is_sqrt`] and its like relate an argument of a transcendental
//! function to whatever it returned.
//!
//! What is proved holds of a scalar that computes exactly, as [`exact`]
//! says it. A type that rounds, as every machine number with a fraction
//! does, meets those identities only up to its rounding, and so the
//! results only up to it.
use core::ops::{Add, Div, Mul, Neg, Sub};
use vstd::prelude::*;
use vstd::std_specs::cmp::{PartialEqSpec, PartialOrdIs, PartialOrdSpec};
use vstd::std_specs::convert::FromSpec;
use vstd::std_specs::ops::{AddSpec, DivSpec, MulSpec, NegSpec, SubSpec};

verus! {

/// A number type: the four operators, negation, an order, the small
/// integers, and the functions that no operator gives.
///
/// Nothing is promised of the five methods. Contracts that depend on one
/// of them name its argument and relate it to the value that came back.
pub trait Scalar: Copy + PartialOrd + Add<Output = Self> + Sub<Output = Self> + Mul<
    Output = Self,
> + Div<Output = Self> + Neg<Output = Self> + From<i16> {
    /// The square root.
    fn sqrt(self) -> Self;

    /// The sine of an angle in radians.
    fn sin(self) -> Self;

    /// The cosine of an angle in radians.
    fn cos(self) -> Self;

    /// The arc cosine, in radians.
    fn acos(self) -> Self;

    /// Whether the number is neither infinite nor undefined.
    fn is_finite(self) -> bool;
}

/// An integer that [`num`] takes: one of sixteen bits.
pub open spec fn small(n: int) -> bool {
    i16::MIN <= n <= i16::MAX
}

/// The scalar that stands for the integer `n`.
pub open spec fn num<S: Scalar>(n: int) -> S {
    S::from_spec(n as i16)
}

/// The scalar zero.
pub open spec fn zero<S: Scalar>() -> S {
    num(0)
}

/// The scalar one.
pub open spec fn one<S: Scalar>() -> S {
    num(1)
}

/// `n / d`, the way a constant such as one half is made.
pub open spec fn ratio<S: Scalar>(n: int, d: int) -> S {
    quot(num::<S>(n), num::<S>(d))
}

/// What `a + b` computes.
pub open spec fn sum<S: Scalar>(a: S, b: S) -> S {
    a.add_spec(b)
}

/// What `a - b` computes.
pub open spec fn diff<S: Scalar>(a: S, b: S) -> S {
    a.sub_spec(b)
}

/// What `a * b` computes.
pub open spec fn prod<S: Scalar>(a: S, b: S) -> S {
    a.mul_spec(b)
}

/// What `a / b` computes.
pub open spec fn quot<S: Scalar>(a: S, b: S) -> S {
    a.div_spec(b)
}

/// What `-a` computes.
pub open spec fn opp<S: Scalar>(a: S) -> S {
    a.neg_spec()
}

/// What `a == b` computes.
#[verifier::inline]
pub open spec fn same<S: Scalar>(a: S, b: S) -> bool {
    a.eq_spec(&b)
}

/// What `a < b` computes.
pub open spec fn less<S: Scalar>(a: S, b: S) -> bool {
    a.is_lt(&b)
}

/// What `a <= b` computes.
pub open spec fn at_most<S: Scalar>(a: S, b: S) -> bool {
    a.is_le(&b)
}

/// `r` is a value that the square root returns on `a`.
pub open spec fn is_sqrt<S: Scalar>(a: S, r: S) -> bool {
    call_ensures(S::sqrt, (a,), r)
}

/// `r` is a value that the sine returns on `a`.
pub open spec fn is_sin<S: Scalar>(a: S, r: S) -> bool {
    call_ensures(S::sin, (a,), r)
}

/// `r` is a value that the cosine returns on `a`.
pub open spec fn is_cos<S: Scalar>(a: S, r: S) -> bool {
    call_ensures(S::cos, (a,), r)
}

/// `r` is a value that the arc cosine returns on `a`.
pub open spec fn is_acos<S: Scalar>(a: S, r: S) -> bool {
    call_ensures(S::acos, (a,), r)
}

/// `r` is the answer of `is_finite` on `a`.
pub open spec fn said_finite<S: Scalar>(a: S, r: bool) -> bool {
    call_ensures(S::is_finite, (a,), r)
}

/// The comparisons of `S` are functions of their operands.
pub open spec fn compares<S: Scalar>() -> bool {
    S::obeys_eq_spec() && S::obeys_partial_cmp_spec()
}

/// The operators of `S` accept every operand and are functions of their
/// operands.
pub open spec fn regular<S: Scalar>() -> bool {
    &&& S::obeys_add_spec()
    &&& S::obeys_sub_spec()
    &&& S::obeys_mul_spec()
    &&& S::obeys_div_spec()
    &&& S::obeys_neg_spec()
    &&& S::obeys_from_spec()
    &&& compares::<S>()
    &&& forall|a: S, b: S| #[trigger] a.add_req(b)
    &&& forall|a: S, b: S| #[trigger] a.sub_req(b)
    &&& forall|a: S, b: S| #[trigger] a.mul_req(b)
    &&& forall|a: S, b: S| #[trigger] a.div_req(b)
    &&& forall|a: S| #[trigger] a.neg_req()
}

/// Zero and one are neutral and absorbing.
pub open spec fn neutral<S: Scalar>() -> bool {
    &&& forall|a: S| #[trigger] sum(a, zero()) == a
    &&& forall|a: S| #[trigger] sum(zero(), a) == a
    &&& forall|a: S| #[trigger] diff(a, zero()) == a
    &&& forall|a: S| #[trigger] diff(a, a) == zero::<S>()
    &&& forall|a: S| #[trigger] prod(a, zero()) == zero::<S>()
    &&& forall|a: S| #[trigger] prod(zero(), a) == zero::<S>()
    &&& forall|a: S| #[trigger] prod(a, one()) == a
    &&& forall|a: S| #[trigger] prod(one(), a) == a
    &&& forall|a: S| a != zero::<S>() ==> #[trigger] quot(zero(), a) == zero::<S>()
    &&& opp(zero::<S>()) == zero::<S>()
}

/// `==` is equality, `<=` is `<` or equality, `<` is strict and transitive,
/// the integers keep their order, and the mean of two scalars lies between
/// them.
pub open spec fn ordered<S: Scalar>() -> bool {
    &&& forall|a: S, b: S| #[trigger] same(a, b) <==> a == b
    &&& forall|a: S, b: S| #[trigger] at_most(a, b) <==> less(a, b) || a == b
    &&& forall|a: S| !#[trigger] less(a, a)
    &&& forall|a: S, b: S, c: S| #[trigger] less(a, b) && #[trigger] less(b, c) ==> less(a, c)
    &&& forall|n: int, m: int|
        small(n) && small(m) ==> (n < m <==> #[trigger] less(num::<S>(n), num::<S>(m)))
    &&& forall|n: int, m: int|
        small(n) && small(m) ==> (n == m <==> #[trigger] same(num::<S>(n), num::<S>(m)))
    &&& forall|a: S, b: S|
        at_most(a, b) ==> {
            &&& at_most(a, #[trigger] mean(a, b))
            &&& at_most(mean(a, b), b)
        }
}

/// Sums do not depend on the order or the grouping of their terms. This
/// holds in every ordered field.
pub open spec fn additive<S: Scalar>() -> bool {
    &&& forall|a: S, b: S| #[trigger] sum(a, b) == sum(b, a)
    &&& forall|a: S, b: S, c: S| #[trigger] sum(sum(a, b), c) == sum(a, sum(b, c))
}

/// One, halved `n` times.
pub open spec fn halved<S: Scalar>(n: nat) -> S
    decreases n,
{
    if n == 0 {
        one()
    } else {
        prod(halved::<S>((n - 1) as nat), ratio::<S>(1, 2))
    }
}

/// The mean of two scalars halves their distance, and ten halvings, no
/// fewer, bring one down to a thousandth or less. This holds in every
/// ordered field.
pub open spec fn halving<S: Scalar>() -> bool {
    &&& forall|a: S, b: S| #[trigger] diff(mean(a, b), a) == prod(diff(b, a), ratio::<S>(1, 2))
    &&& forall|a: S, b: S| #[trigger] diff(b, mean(a, b)) == prod(diff(b, a), ratio::<S>(1, 2))
    &&& forall|n: nat| n < 10 ==> less(ratio::<S>(1, 1000), #[trigger] halved::<S>(n))
    &&& !less(ratio::<S>(1, 1000), halved::<S>(10))
}

/// `S` computes exactly: its operators are regular and satisfy the
/// identities of [`neutral`] and [`ordered`]. They hold in every ordered
/// field, as `field::lemma_field_is_exact` shows.
pub open spec fn exact<S: Scalar>() -> bool {
    regular::<S>() && neutral::<S>() && ordered::<S>()
}

/// `a` without its sign: its negation where it is less than zero.
pub open spec fn abs<S: Scalar>(a: S) -> S {
    if less(a, zero()) {
        opp(a)
    } else {
        a
    }
}

/// The midpoint of `a` and `b`, as the bisection computes it.
pub open spec fn mean<S: Scalar>(a: S, b: S) -> S {
    prod(sum(a, b), ratio::<S>(1, 2))
}

/// The scalar for a small integer.
pub fn number<S: Scalar>(n: i16) -> (r: S)
    requires
        regular::<S>(),
    ensures
        r == num::<S>(n as int),
{
    S::from(n)
}

/// The scalar for the fraction `n / d`.
pub fn fraction<S: Scalar>(n: i16, d: i16) -> (r: S)
    requires
        regular::<S>(),
    ensures
        r == ratio::<S>(n as int, d as int),
{
    S::from(n) / S::from(d)
}

/// The absolute value, by a comparison with zero.
pub fn absolute<S: Scalar>(a: S) -> (r: S)
    requires
        regular::<S>(),
    ensures
        r == abs(a),
{
    if a < S::from(0) {
        a.neg()
    } else {
        a
    }
}

} // verus!
