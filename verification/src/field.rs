//! What holds of the scalars of an ordered field.
//!
//! The functions of the library ask little of their scalars: the few
//! identities of [`exact`], which the prover applies by itself. This
//! module states the axioms of an ordered field in [`field`], one lemma for
//! each, proves from them that an ordered field is exact, and goes on to
//! what the laws of the other modules need: that a segment between two
//! times in order can always be built, that the bisection reaches its
//! tolerance, that a product of matrices applies its right factor first.
//! The axioms stay out of the prover's sight, and each proof names the ones
//! that it uses.
use crate::scalar::{
    abs, additive, at_most, diff, exact, halved, halving, less, mean, neutral, num, one, opp,
    ordered, prod, quot, ratio, regular, same, small, sum, zero, Scalar,
};
use vstd::prelude::*;

verus! {

/// `S` is an ordered field. Sums and products are commutative and
/// associative, with zero and one as their neutral elements; a product
/// distributes over a sum; a scalar and its opposite add up to zero; a
/// difference adds the opposite; a quotient by a scalar other than zero
/// undoes a product. The order is total, strict and transitive, and is
/// kept by adding any scalar and by multiplying with a positive one. `==`
/// is equality, and `<=` is `<` or equality. The integers keep their order
/// as scalars, and add as scalars as they do as integers.
#[verifier::opaque]
pub open spec fn field<S: Scalar>() -> bool {
    &&& forall|a: S, b: S| #[trigger] sum(a, b) == sum(b, a)
    &&& forall|a: S, b: S, c: S| #[trigger] sum(sum(a, b), c) == sum(a, sum(b, c))
    &&& forall|a: S| #[trigger] sum(a, zero()) == a
    &&& forall|a: S| #[trigger] prod(a, one()) == a
    &&& forall|a: S, b: S| #[trigger] same(a, b) <==> a == b
    &&& forall|a: S, b: S| #[trigger] at_most(a, b) <==> less(a, b) || a == b
    &&& forall|a: S, b: S, c: S| #[trigger] less(a, b) && #[trigger] less(b, c) ==> less(a, c)
    &&& forall|n: int, m: int|
        small(n) && small(m) && n < m ==> #[trigger] less(num::<S>(n), num::<S>(m))
    &&& forall|a: S| #[trigger] sum(a, opp(a)) == zero::<S>()
    &&& forall|a: S, b: S| #[trigger] diff(a, b) == sum(a, opp(b))
    &&& forall|a: S, b: S| #[trigger] prod(a, b) == prod(b, a)
    &&& forall|a: S, b: S, c: S| #[trigger] prod(prod(a, b), c) == prod(a, prod(b, c))
    &&& forall|a: S, b: S, c: S| #[trigger] prod(a, sum(b, c)) == sum(prod(a, b), prod(a, c))
    &&& forall|a: S, b: S| b != zero::<S>() ==> #[trigger] prod(quot(a, b), b) == a
    &&& forall|a: S, b: S| b != zero::<S>() ==> #[trigger] quot(prod(a, b), b) == a
    &&& forall|n: int, m: int|
        small(n) && small(m) && small(n + m) ==> #[trigger] sum(num::<S>(n), num::<S>(m)) == num::<
            S,
        >(n + m)
    &&& forall|a: S, b: S, c: S|
        less(a, b) ==> less(#[trigger] sum(a, c), #[trigger] sum(b, c))
    &&& forall|a: S, b: S, c: S|
        less(zero(), c) && less(a, b) ==> less(#[trigger] prod(a, c), #[trigger] prod(b, c))
    &&& forall|a: S, b: S| #[trigger] less(a, b) || a == b || less(b, a)
    &&& forall|a: S| !#[trigger] less(a, a)
}

/// `a + b` is `b + a`.
pub proof fn lemma_sum_commutes<S: Scalar>(a: S, b: S)
    requires
        field::<S>(),
    ensures
        sum(a, b) == sum(b, a),
{
    reveal(field);
}

/// `(a + b) + c` is `a + (b + c)`.
pub proof fn lemma_sum_associates<S: Scalar>(a: S, b: S, c: S)
    requires
        field::<S>(),
    ensures
        sum(sum(a, b), c) == sum(a, sum(b, c)),
{
    reveal(field);
}

/// Zero is neutral in a sum, and one in a product.
pub proof fn lemma_neutral<S: Scalar>(a: S)
    requires
        field::<S>(),
    ensures
        sum(a, zero()) == a,
        prod(a, one()) == a,
{
    reveal(field);
}

/// `a + (-a)` is zero.
pub proof fn lemma_opposite<S: Scalar>(a: S)
    requires
        field::<S>(),
    ensures
        sum(a, opp(a)) == zero::<S>(),
{
    reveal(field);
}

/// `a - b` is `a + (-b)`.
pub proof fn lemma_difference<S: Scalar>(a: S, b: S)
    requires
        field::<S>(),
    ensures
        diff(a, b) == sum(a, opp(b)),
{
    reveal(field);
}

/// `a * b` is `b * a`.
pub proof fn lemma_prod_commutes<S: Scalar>(a: S, b: S)
    requires
        field::<S>(),
    ensures
        prod(a, b) == prod(b, a),
{
    reveal(field);
}

/// `(a * b) * c` is `a * (b * c)`.
pub proof fn lemma_prod_associates<S: Scalar>(a: S, b: S, c: S)
    requires
        field::<S>(),
    ensures
        prod(prod(a, b), c) == prod(a, prod(b, c)),
{
    reveal(field);
}

/// `a * (b + c)` is `a * b + a * c`.
pub proof fn lemma_distributes<S: Scalar>(a: S, b: S, c: S)
    requires
        field::<S>(),
    ensures
        prod(a, sum(b, c)) == sum(prod(a, b), prod(a, c)),
{
    reveal(field);
}

/// `(a / b) * b` is `a`, and so is `(a * b) / b`, unless `b` is zero.
pub proof fn lemma_quotient<S: Scalar>(a: S, b: S)
    requires
        field::<S>(),
        b != zero::<S>(),
    ensures
        prod(quot(a, b), b) == a,
        quot(prod(a, b), b) == a,
{
    reveal(field);
}

/// Of two scalars one is less than the other, or they are equal; and no
/// scalar is less than itself.
pub proof fn lemma_order_total<S: Scalar>(a: S, b: S)
    requires
        field::<S>(),
    ensures
        less(a, b) || a == b || less(b, a),
        !less(a, a),
{
    reveal(field);
}

/// `a < b` and `b < c` give `a < c`.
pub proof fn lemma_order_transitive<S: Scalar>(a: S, b: S, c: S)
    requires
        field::<S>(),
        less(a, b),
        less(b, c),
    ensures
        less(a, c),
{
    reveal(field);
}

/// Adding a scalar on both sides keeps the order.
pub proof fn lemma_order_add<S: Scalar>(a: S, b: S, c: S)
    requires
        field::<S>(),
        less(a, b),
    ensures
        less(sum(a, c), sum(b, c)),
{
    reveal(field);
}

/// Multiplying both sides by a positive scalar keeps the order.
pub proof fn lemma_order_mul<S: Scalar>(a: S, b: S, c: S)
    requires
        field::<S>(),
        less(zero(), c),
        less(a, b),
    ensures
        less(prod(a, c), prod(b, c)),
{
    reveal(field);
}

/// `==` is equality, and `<=` is `<` or equality.
pub proof fn lemma_comparisons<S: Scalar>(a: S, b: S)
    requires
        field::<S>(),
    ensures
        same(a, b) <==> a == b,
        at_most(a, b) <==> less(a, b) || a == b,
{
    reveal(field);
}

/// The scalars of two integers are in the order of the integers.
pub proof fn lemma_num_order<S: Scalar>(n: int, m: int)
    requires
        field::<S>(),
        small(n),
        small(m),
        n < m,
    ensures
        less(num::<S>(n), num::<S>(m)),
{
    reveal(field);
}

/// The scalars of two integers add up to the scalar of their sum.
pub proof fn lemma_num_adds<S: Scalar>(n: int, m: int)
    requires
        field::<S>(),
        small(n),
        small(m),
        small(n + m),
    ensures
        sum(num::<S>(n), num::<S>(m)) == num::<S>(n + m),
{
    reveal(field);
}

/// `(a + b) - a` is `b`.
pub proof fn lemma_add_then_take<S: Scalar>(a: S, b: S)
    requires
        field::<S>(),
    ensures
        diff(sum(a, b), a) == b,
{
    lemma_difference(sum(a, b), a);
    lemma_sum_commutes(a, b);
    lemma_sum_associates(b, a, opp(a));
    lemma_opposite(a);
    lemma_neutral(b);
}

/// `a - (a - b)` is `b`.
pub proof fn lemma_take_twice<S: Scalar>(a: S, b: S)
    requires
        field::<S>(),
    ensures
        diff(a, diff(a, b)) == b,
{
    let d = diff(a, b);
    // d + b is a
    lemma_difference(a, b);
    lemma_sum_associates(a, opp(b), b);
    lemma_sum_commutes(opp(b), b);
    lemma_opposite(b);
    lemma_neutral(a);
    assert(sum(d, b) == a);
    // so a - d is (d + b) - d, which is b
    lemma_add_then_take(d, b);
}

/// `a + (b - a)` is `b`.
pub proof fn lemma_add_the_rest<S: Scalar>(a: S, b: S)
    requires
        field::<S>(),
    ensures
        sum(a, diff(b, a)) == b,
{
    lemma_difference(b, a);
    lemma_sum_commutes(a, sum(b, opp(a)));
    lemma_sum_associates(b, opp(a), a);
    lemma_sum_commutes(opp(a), a);
    lemma_opposite(a);
    lemma_neutral(b);
}

/// Zero and one are neutral on either side, zero absorbs every product,
/// and differences and quotients behave with zero as they should.
pub proof fn lemma_zero_laws<S: Scalar>(a: S)
    requires
        field::<S>(),
    ensures
        sum(zero(), a) == a,
        diff(a, zero()) == a,
        diff(a, a) == zero::<S>(),
        prod(a, zero()) == zero::<S>(),
        prod(zero(), a) == zero::<S>(),
        prod(one(), a) == a,
        a != zero::<S>() ==> quot(zero(), a) == zero::<S>(),
        opp(zero::<S>()) == zero::<S>(),
{
    let o = zero::<S>();
    lemma_neutral(a);
    lemma_sum_commutes(o, a);
    // -0 is 0
    lemma_opposite(o);
    lemma_sum_commutes(o, opp(o));
    lemma_neutral(opp(o));
    assert(opp(o) == o);
    lemma_difference(a, o);
    lemma_difference(a, a);
    lemma_opposite(a);
    // x = a * 0 is x + x, so it is zero
    let x = prod(a, o);
    lemma_neutral(o);
    lemma_distributes(a, o, o);
    assert(x == sum(x, x));
    lemma_opposite(x);
    lemma_sum_associates(x, x, opp(x));
    lemma_neutral(x);
    assert(x == o);
    lemma_prod_commutes(o, a);
    lemma_prod_commutes(one::<S>(), a);
    if a != o {
        lemma_quotient(o, a);
    }
}

/// What adds up to zero with `a` is the opposite of `a`.
pub proof fn lemma_opposite_is_unique<S: Scalar>(a: S, b: S)
    requires
        field::<S>(),
        sum(a, b) == zero::<S>(),
    ensures
        b == opp(a),
{
    // b = (-a + a) + b = -a + (a + b) = -a
    lemma_sum_commutes(opp(a), a);
    lemma_opposite(a);
    lemma_sum_associates(opp(a), a, b);
    lemma_zero_laws(b);
    lemma_neutral(opp(a));
    assert(sum(sum(opp(a), a), b) == b);
    assert(sum(opp(a), sum(a, b)) == opp(a));
}

/// `a * (-b)` is `-(a * b)`.
pub proof fn lemma_times_opposite<S: Scalar>(a: S, b: S)
    requires
        field::<S>(),
    ensures
        prod(a, opp(b)) == opp(prod(a, b)),
{
    lemma_distributes(a, b, opp(b));
    lemma_opposite(b);
    lemma_zero_laws(a);
    lemma_opposite_is_unique(prod(a, b), prod(a, opp(b)));
}

/// The scalar of `-n` is the opposite of the scalar of `n`.
pub proof fn lemma_num_opposite<S: Scalar>(n: int)
    requires
        field::<S>(),
        small(n),
        small(-n),
    ensures
        num::<S>(-n) == opp(num::<S>(n)),
{
    lemma_num_adds::<S>(n, -n);
    lemma_opposite_is_unique(num::<S>(n), num::<S>(-n));
}

/// `a * (-k) + b * k` is `(b - a) * k`, for an integer `k`.
pub proof fn lemma_weighted_difference<S: Scalar>(a: S, b: S, k: int)
    requires
        field::<S>(),
        small(k),
        small(-k),
    ensures
        sum(prod(a, num(-k)), prod(b, num(k))) == prod(diff(b, a), num(k)),
{
    let n = num::<S>(k);
    lemma_num_opposite::<S>(k);
    lemma_times_opposite(a, n);
    // the right side
    lemma_prod_commutes(diff(b, a), n);
    lemma_difference(b, a);
    lemma_distributes(n, b, opp(a));
    lemma_times_opposite(n, a);
    lemma_prod_commutes(n, b);
    lemma_prod_commutes(n, a);
    assert(prod(diff(b, a), n) == sum(prod(b, n), opp(prod(a, n))));
    // the left side
    lemma_sum_commutes(opp(prod(a, n)), prod(b, n));
}

/// `(a + b) * t` is `a * t + b * t`.
pub proof fn lemma_distributes_right<S: Scalar>(a: S, b: S, t: S)
    requires
        field::<S>(),
    ensures
        prod(sum(a, b), t) == sum(prod(a, t), prod(b, t)),
{
    lemma_prod_commutes(sum(a, b), t);
    lemma_distributes(t, a, b);
    lemma_prod_commutes(t, a);
    lemma_prod_commutes(t, b);
}

/// `(a + b) + (c + d)` is `(a + c) + (b + d)`.
pub proof fn lemma_interchange<S: Scalar>(a: S, b: S, c: S, d: S)
    requires
        field::<S>(),
    ensures
        sum(sum(a, b), sum(c, d)) == sum(sum(a, c), sum(b, d)),
{
    lemma_sum_associates(a, b, sum(c, d));
    lemma_sum_associates(b, c, d);
    lemma_sum_commutes(b, c);
    lemma_sum_associates(c, b, d);
    lemma_sum_associates(a, c, sum(b, d));
}

/// A positive factor can be taken off both sides of `<`.
pub proof fn lemma_order_cancel<S: Scalar>(a: S, b: S, c: S)
    requires
        field::<S>(),
        less(zero(), c),
        less(prod(a, c), prod(b, c)),
    ensures
        less(a, b),
{
    lemma_order_total(a, b);
    lemma_order_total(prod(a, c), prod(a, c));
    if less(b, a) {
        lemma_order_mul(b, a, c);
        lemma_order_transitive(prod(a, c), prod(b, c), prod(a, c));
    }
}

/// The scalars of two integers compare as the integers do.
pub proof fn lemma_num_embeds<S: Scalar>(n: int, m: int)
    requires
        field::<S>(),
        small(n),
        small(m),
    ensures
        n < m <==> less(num::<S>(n), num::<S>(m)),
        n == m <==> same(num::<S>(n), num::<S>(m)),
{
    let a = num::<S>(n);
    let b = num::<S>(m);
    lemma_comparisons(a, b);
    lemma_order_total(a, a);
    if n < m {
        lemma_num_order::<S>(n, m);
    }
    if m < n {
        lemma_num_order::<S>(m, n);
        if less(a, b) {
            lemma_order_transitive(a, b, a);
        }
    }
}

/// The difference of a greater and a lesser scalar is positive.
pub proof fn lemma_positive_difference<S: Scalar>(a: S, b: S)
    requires
        field::<S>(),
        less(a, b),
    ensures
        less(zero(), diff(b, a)),
        diff(b, a) != zero::<S>(),
{
    lemma_order_add(a, b, opp(a));
    lemma_opposite(a);
    lemma_difference(b, a);
    lemma_order_total(zero::<S>(), zero::<S>());
}

/// The product of two positive scalars is positive.
pub proof fn lemma_positive_product<S: Scalar>(a: S, b: S)
    requires
        field::<S>(),
        less(zero(), a),
        less(zero(), b),
    ensures
        less(zero(), prod(a, b)),
        prod(a, b) != zero::<S>(),
{
    lemma_order_mul(zero::<S>(), a, b);
    lemma_zero_laws(b);
    lemma_order_total(zero::<S>(), zero::<S>());
}

/// The quotient of two positive scalars is positive.
pub proof fn lemma_positive_quotient<S: Scalar>(a: S, b: S)
    requires
        field::<S>(),
        less(zero(), a),
        less(zero(), b),
    ensures
        less(zero(), quot(a, b)),
{
    let o = zero::<S>();
    let y = quot(a, b);
    lemma_order_total(o, o);
    lemma_quotient(a, b);
    lemma_order_total(o, y);
    lemma_zero_laws(b);
    if less(y, o) {
        lemma_order_mul(y, o, b);
        lemma_order_transitive(o, a, o);
    }
}

/// Two is positive, a half of it is one, and to double is to add to
/// itself.
pub proof fn lemma_two<S: Scalar>(a: S)
    requires
        field::<S>(),
    ensures
        less(zero::<S>(), num::<S>(2)),
        num::<S>(2) != zero::<S>(),
        prod(ratio::<S>(1, 2), num(2)) == one::<S>(),
        prod(a, num(2)) == sum(a, a),
        quot(prod(a, num(2)), num(2)) == a,
{
    lemma_num_order::<S>(0, 2);
    lemma_order_total(zero::<S>(), zero::<S>());
    lemma_quotient(one::<S>(), num::<S>(2));
    lemma_quotient(a, num::<S>(2));
    lemma_num_adds::<S>(1, 1);
    lemma_distributes(a, one::<S>(), one::<S>());
    lemma_neutral(a);
}

/// Twice the mean of two scalars is their sum.
pub proof fn lemma_mean_doubled<S: Scalar>(a: S, b: S)
    requires
        field::<S>(),
    ensures
        prod(mean(a, b), num(2)) == sum(a, b),
{
    lemma_two(a);
    lemma_prod_associates(sum(a, b), ratio::<S>(1, 2), num::<S>(2));
    lemma_neutral(sum(a, b));
}

/// The mean of two scalars lies between them.
pub proof fn lemma_mean_between<S: Scalar>(a: S, b: S)
    requires
        field::<S>(),
        at_most(a, b),
    ensures
        at_most(a, mean(a, b)),
        at_most(mean(a, b), b),
{
    let m = mean(a, b);
    let two = num::<S>(2);
    lemma_mean_doubled(a, b);
    lemma_two(a);
    lemma_two(b);
    lemma_two(m);
    lemma_comparisons(a, b);
    lemma_comparisons(a, m);
    lemma_comparisons(m, b);
    if less(a, b) {
        lemma_order_add(a, b, a);
        lemma_sum_commutes(b, a);
        lemma_order_cancel(a, m, two);
        lemma_order_add(a, b, b);
        lemma_order_cancel(m, b, two);
    } else {
        assert(prod(m, two) == prod(a, two));
        assert(m == a);
    }
}

/// From one scalar to the mean of two is half the way to the other, and
/// so is the rest of the way.
pub proof fn lemma_mean_halves<S: Scalar>(a: S, b: S)
    requires
        field::<S>(),
    ensures
        diff(mean(a, b), a) == prod(diff(b, a), ratio::<S>(1, 2)),
        diff(b, mean(a, b)) == prod(diff(b, a), ratio::<S>(1, 2)),
{
    let m = mean(a, b);
    let two = num::<S>(2);
    let d = diff(b, a);
    let e = prod(d, ratio::<S>(1, 2));
    let c = sum(a, e);
    lemma_add_the_rest(a, b);
    // twice e is d, so d is e + e
    lemma_two(e);
    lemma_prod_associates(d, ratio::<S>(1, 2), two);
    lemma_neutral(d);
    assert(d == sum(e, e));
    // twice c is (a + e) + (a + e), which is a + (a + (e + e)), twice m
    lemma_two(c);
    lemma_two(m);
    lemma_mean_doubled(a, b);
    lemma_sum_associates(a, e, sum(a, e));
    lemma_sum_associates(e, a, e);
    lemma_sum_commutes(e, a);
    lemma_sum_associates(a, e, e);
    assert(sum(c, c) == sum(a, sum(a, sum(e, e))));
    assert(prod(c, two) == prod(m, two));
    assert(c == m);
    lemma_add_then_take(a, e);
    // b is (a + e) + e
    lemma_add_then_take(m, e);
}

/// Two to the power `n`.
pub open spec fn two_to(n: nat) -> int
    decreases n,
{
    if n == 0 {
        1
    } else {
        2 * two_to((n - 1) as nat)
    }
}

/// The powers of two up to the tenth.
pub proof fn lemma_two_to_ten()
    ensures
        two_to(0) == 1,
        two_to(1) == 2,
        two_to(2) == 4,
        two_to(3) == 8,
        two_to(4) == 16,
        two_to(5) == 32,
        two_to(6) == 64,
        two_to(7) == 128,
        two_to(8) == 256,
        two_to(9) == 512,
        two_to(10) == 1024,
{
    reveal_with_fuel(two_to, 12);
}

/// One halved `n` times, taken two to the power `n` times, is one.
pub proof fn lemma_halved_times<S: Scalar>(n: nat)
    requires
        field::<S>(),
        n <= 10,
    ensures
        1 <= two_to(n) <= 1024,
        prod(halved::<S>(n), num(two_to(n))) == one::<S>(),
    decreases n,
{
    lemma_two_to_ten();
    if n == 0 {
        lemma_neutral(one::<S>());
    } else {
        let m = (n - 1) as nat;
        lemma_halved_times::<S>(m);
        let x = halved::<S>(m);
        let k = num::<S>(two_to(m));
        let h = ratio::<S>(1, 2);
        let two = num::<S>(2);
        lemma_num_adds::<S>(two_to(m), two_to(m));
        lemma_two(k);
        assert(num::<S>(two_to(n)) == prod(k, two));
        lemma_prod_associates(x, h, prod(k, two));
        lemma_prod_associates(h, k, two);
        lemma_prod_commutes(h, k);
        lemma_prod_associates(k, h, two);
        lemma_neutral(k);
        assert(prod(h, prod(k, two)) == k);
    }
}

/// Fewer than ten halvings leave more than a thousandth of one, and ten do
/// not.
pub proof fn lemma_halved_bounds<S: Scalar>(n: nat)
    requires
        field::<S>(),
        n <= 10,
    ensures
        n < 10 ==> less(ratio::<S>(1, 1000), halved::<S>(n)),
        n == 10 ==> !less(ratio::<S>(1, 1000), halved::<S>(n)),
{
    let o = zero::<S>();
    let y = ratio::<S>(1, 1000);
    let z = halved::<S>(n);
    let k = num::<S>(two_to(n));
    let thousand = num::<S>(1000);
    lemma_two_to_ten();
    lemma_halved_times::<S>(n);
    lemma_order_total(o, o);
    lemma_num_order::<S>(0, 1);
    lemma_num_order::<S>(0, 1000);
    lemma_num_order::<S>(0, two_to(n));
    lemma_quotient(one::<S>(), thousand);
    lemma_positive_quotient(one::<S>(), thousand);
    lemma_prod_commutes(k, y);
    lemma_prod_commutes(thousand, y);
    if n < 10 {
        lemma_num_order::<S>(two_to(n), 1000);
        lemma_order_mul(k, thousand, y);
        lemma_order_cancel(y, z, k);
    } else {
        lemma_num_order::<S>(1000, two_to(n));
        lemma_order_mul(thousand, k, y);
        lemma_order_cancel(z, y, k);
        if less(y, z) {
            lemma_order_transitive(y, z, y);
            lemma_order_total(y, y);
        }
    }
}

/// An ordered field computes exactly: it has every property that the
/// contracts of this library ask of the scalars.
pub proof fn lemma_field_is_exact<S: Scalar>()
    requires
        regular::<S>(),
        field::<S>(),
    ensures
        exact::<S>(),
{
    assert(neutral::<S>()) by {
        assert forall|a: S| #[trigger] sum(a, zero()) == a by {
            lemma_neutral(a);
        }
        assert forall|a: S| #[trigger] sum(zero(), a) == a by {
            lemma_zero_laws(a);
        }
        assert forall|a: S| #[trigger] diff(a, zero()) == a by {
            lemma_zero_laws(a);
        }
        assert forall|a: S| #[trigger] diff(a, a) == zero::<S>() by {
            lemma_zero_laws(a);
        }
        assert forall|a: S| #[trigger] prod(a, zero()) == zero::<S>() by {
            lemma_zero_laws(a);
        }
        assert forall|a: S| #[trigger] prod(zero(), a) == zero::<S>() by {
            lemma_zero_laws(a);
        }
        assert forall|a: S| #[trigger] prod(a, one()) == a by {
            lemma_neutral(a);
        }
        assert forall|a: S| #[trigger] prod(one(), a) == a by {
            lemma_zero_laws(a);
        }
        assert forall|a: S| a != zero::<S>() implies #[trigger] quot(zero(), a) == zero::<S>() by {
            lemma_zero_laws(a);
        }
        lemma_zero_laws(zero::<S>());
    }
    assert(ordered::<S>()) by {
        assert forall|a: S, b: S| #[trigger] same(a, b) <==> a == b by {
            lemma_comparisons(a, b);
        }
        assert forall|a: S, b: S| #[trigger] at_most(a, b) <==> less(a, b) || a == b by {
            lemma_comparisons(a, b);
        }
        assert forall|a: S| !#[trigger] less(a, a) by {
            lemma_order_total(a, a);
        }
        assert forall|a: S, b: S, c: S| #[trigger] less(a, b) && #[trigger] less(b, c) implies less(
            a,
            c,
        ) by {
            lemma_order_transitive(a, b, c);
        }
        assert forall|n: int, m: int| small(n) && small(m) implies (n < m <==> #[trigger] less(
            num::<S>(n),
            num::<S>(m),
        )) by {
            lemma_num_embeds::<S>(n, m);
        }
        assert forall|n: int, m: int| small(n) && small(m) implies (n == m <==> #[trigger] same(
            num::<S>(n),
            num::<S>(m),
        )) by {
            lemma_num_embeds::<S>(n, m);
        }
        assert forall|a: S, b: S| at_most(a, b) implies at_most(a, #[trigger] mean(a, b))
            && at_most(mean(a, b), b) by {
            lemma_mean_between(a, b);
        }
    }
}

/// In an ordered field sums do not depend on the order or the grouping of
/// their terms.
pub proof fn lemma_field_adds<S: Scalar>()
    requires
        field::<S>(),
    ensures
        additive::<S>(),
{
    assert(additive::<S>()) by {
        assert forall|a: S, b: S| #[trigger] sum(a, b) == sum(b, a) by {
            lemma_sum_commutes(a, b);
        }
        assert forall|a: S, b: S, c: S| #[trigger] sum(sum(a, b), c) == sum(a, sum(b, c)) by {
            lemma_sum_associates(a, b, c);
        }
    }
}

/// In an ordered field the mean of two scalars halves their distance, and
/// ten halvings, no fewer, bring one down to a thousandth or less.
pub proof fn lemma_field_halves<S: Scalar>()
    requires
        field::<S>(),
    ensures
        halving::<S>(),
{
    assert(halving::<S>()) by {
        assert forall|a: S, b: S| #[trigger]
            diff(mean(a, b), a) == prod(diff(b, a), ratio::<S>(1, 2)) by {
            lemma_mean_halves(a, b);
        }
        assert forall|a: S, b: S| #[trigger]
            diff(b, mean(a, b)) == prod(diff(b, a), ratio::<S>(1, 2)) by {
            lemma_mean_halves(a, b);
        }
        assert forall|n: nat| n < 10 implies less(
            ratio::<S>(1, 1000),
            #[trigger] halved::<S>(n),
        ) by {
            lemma_halved_bounds::<S>(n);
        }
        lemma_halved_bounds::<S>(10);
    }
}

/// A third and two thirds of the way from `a` to a greater `b` lie in this
/// order strictly between the two.
pub proof fn lemma_thirds<S: Scalar>(a: S, b: S)
    requires
        field::<S>(),
        less(a, b),
    ensures
        less(a, sum(a, quot(diff(b, a), num(3)))),
        less(sum(a, quot(diff(b, a), num(3))), sum(a, quot(prod(diff(b, a), num(2)), num(3)))),
        less(sum(a, quot(prod(diff(b, a), num(2)), num(3))), b),
{
    let three = num::<S>(3);
    let s = diff(b, a);
    let q = quot(s, three);
    let r = quot(prod(s, num(2)), three);
    lemma_num_order::<S>(0, 3);
    lemma_num_order::<S>(2, 3);
    lemma_order_total(zero::<S>(), zero::<S>());
    lemma_zero_laws(a);
    lemma_zero_laws(s);
    lemma_positive_difference(a, b);
    lemma_positive_quotient(s, three);
    lemma_quotient(s, three);
    lemma_quotient(prod(s, num(2)), three);

    // a < a + q
    lemma_order_add(zero::<S>(), q, a);
    lemma_sum_commutes(q, a);

    // q < r, since q * 3 = s < s + s = s * 2 = r * 3
    lemma_two(s);
    lemma_order_add(zero::<S>(), s, s);
    assert(less(prod(q, three), prod(r, three)));
    lemma_order_cancel(q, r, three);
    lemma_order_add(q, r, a);
    lemma_sum_commutes(r, a);

    // r < s, since r * 3 = s * 2 < s * 3
    lemma_order_mul(num::<S>(2), three, s);
    lemma_prod_commutes(num::<S>(2), s);
    lemma_prod_commutes(three, s);
    assert(less(prod(r, three), prod(s, three)));
    lemma_order_cancel(r, s, three);
    lemma_order_add(r, s, a);
    lemma_sum_commutes(s, a);
    lemma_add_the_rest(a, b);
}

/// What moves by `v * h` in a time `h`, a positive one, has the velocity
/// `v`: with both taken three times, the quotient of the way and the time
/// is `v`, and that of the time and itself is one.
pub proof fn lemma_way_over_time<S: Scalar>(v: S, h: S)
    requires
        field::<S>(),
        less(zero(), h),
    ensures
        quot(prod(prod(v, h), num(3)), prod(h, num(3))) == v,
        quot(prod(h, num(3)), prod(h, num(3))) == one::<S>(),
{
    let three = num::<S>(3);
    lemma_num_order::<S>(0, 3);
    lemma_positive_product(h, three);
    lemma_prod_associates(v, h, three);
    lemma_quotient(v, prod(h, three));
    lemma_quotient(one::<S>(), prod(h, three));
    lemma_zero_laws(prod(h, three));
}

/// A hundredth is positive, and zero is its own absolute value.
pub proof fn lemma_tolerance<S: Scalar>()
    requires
        field::<S>(),
    ensures
        less(zero::<S>(), ratio::<S>(1, 100)),
        abs(zero::<S>()) == zero::<S>(),
{
    lemma_num_order::<S>(0, 1);
    lemma_num_order::<S>(0, 100);
    lemma_positive_quotient(num::<S>(1), num::<S>(100));
    lemma_order_total(zero::<S>(), zero::<S>());
}

/// Four scalars added up from zero, the first one first.
pub open spec fn sum4<S: Scalar>(x: (S, S, S, S)) -> S {
    sum(sum(sum(sum(zero(), x.0), x.1), x.2), x.3)
}

/// Four products added up from zero: the scalar product of two rows of
/// four.
pub open spec fn dot4<S: Scalar>(p: (S, S, S, S), q: (S, S, S, S)) -> S {
    sum4((prod(p.0, q.0), prod(p.1, q.1), prod(p.2, q.2), prod(p.3, q.3)))
}

/// Two sums of four add up term by term.
pub proof fn lemma_sum4_adds<S: Scalar>(x: (S, S, S, S), y: (S, S, S, S))
    requires
        field::<S>(),
    ensures
        sum(sum4(x), sum4(y)) == sum4((sum(x.0, y.0), sum(x.1, y.1), sum(x.2, y.2), sum(x.3, y.3))),
{
    lemma_zero_laws(x.0);
    lemma_zero_laws(y.0);
    lemma_zero_laws(sum(x.0, y.0));
    lemma_interchange(x.0, x.1, y.0, y.1);
    lemma_interchange(sum(x.0, x.1), x.2, sum(y.0, y.1), y.2);
    lemma_interchange(sum(sum(x.0, x.1), x.2), x.3, sum(sum(y.0, y.1), y.2), y.3);
}

/// A sum of four times a scalar is the sum of the four products, with the
/// scalar on the right or on the left.
pub proof fn lemma_sum4_times<S: Scalar>(x: (S, S, S, S), t: S)
    requires
        field::<S>(),
    ensures
        prod(sum4(x), t) == sum4((prod(x.0, t), prod(x.1, t), prod(x.2, t), prod(x.3, t))),
        prod(t, sum4(x)) == sum4((prod(t, x.0), prod(t, x.1), prod(t, x.2), prod(t, x.3))),
{
    lemma_zero_laws(x.0);
    lemma_zero_laws(prod(x.0, t));
    lemma_zero_laws(prod(t, x.0));
    lemma_distributes_right(x.0, x.1, t);
    lemma_distributes_right(sum(x.0, x.1), x.2, t);
    lemma_distributes_right(sum(sum(x.0, x.1), x.2), x.3, t);
    lemma_distributes(t, x.0, x.1);
    lemma_distributes(t, sum(x.0, x.1), x.2);
    lemma_distributes(t, sum(sum(x.0, x.1), x.2), x.3);
}

/// Sixteen scalars add up to the same by rows as by columns.
pub proof fn lemma_sum4_transposes<S: Scalar>(
    r0: (S, S, S, S),
    r1: (S, S, S, S),
    r2: (S, S, S, S),
    r3: (S, S, S, S),
)
    requires
        field::<S>(),
    ensures
        sum4((sum4(r0), sum4(r1), sum4(r2), sum4(r3))) == sum4(
            (
                sum4((r0.0, r1.0, r2.0, r3.0)),
                sum4((r0.1, r1.1, r2.1, r3.1)),
                sum4((r0.2, r1.2, r2.2, r3.2)),
                sum4((r0.3, r1.3, r2.3, r3.3)),
            ),
        ),
{
    let r01 = (sum(r0.0, r1.0), sum(r0.1, r1.1), sum(r0.2, r1.2), sum(r0.3, r1.3));
    let r012 = (sum(r01.0, r2.0), sum(r01.1, r2.1), sum(r01.2, r2.2), sum(r01.3, r2.3));
    lemma_zero_laws(sum4(r0));
    lemma_sum4_adds(r0, r1);
    lemma_sum4_adds(r01, r2);
    lemma_sum4_adds(r012, r3);
    lemma_zero_laws(r0.0);
    lemma_zero_laws(r0.1);
    lemma_zero_laws(r0.2);
    lemma_zero_laws(r0.3);
}

/// The scalar products of a row `a` with four columns, weighted by `v` and
/// added up, are the scalar product of `a` with the rows of the columns,
/// each weighted by `v` and added up.
pub proof fn lemma_dot4_swaps<S: Scalar>(
    a: (S, S, S, S),
    b0: (S, S, S, S),
    b1: (S, S, S, S),
    b2: (S, S, S, S),
    b3: (S, S, S, S),
    v: (S, S, S, S),
)
    requires
        field::<S>(),
    ensures
        dot4((dot4(a, b0), dot4(a, b1), dot4(a, b2), dot4(a, b3)), v) == dot4(
            a,
            (
                dot4((b0.0, b1.0, b2.0, b3.0), v),
                dot4((b0.1, b1.1, b2.1, b3.1), v),
                dot4((b0.2, b1.2, b2.2, b3.2), v),
                dot4((b0.3, b1.3, b2.3, b3.3), v),
            ),
        ),
{
    // the sixteen terms a_j * (b_kj * v_k), by the column k
    let t0 = (
        prod(a.0, prod(b0.0, v.0)),
        prod(a.1, prod(b0.1, v.0)),
        prod(a.2, prod(b0.2, v.0)),
        prod(a.3, prod(b0.3, v.0)),
    );
    let t1 = (
        prod(a.0, prod(b1.0, v.1)),
        prod(a.1, prod(b1.1, v.1)),
        prod(a.2, prod(b1.2, v.1)),
        prod(a.3, prod(b1.3, v.1)),
    );
    let t2 = (
        prod(a.0, prod(b2.0, v.2)),
        prod(a.1, prod(b2.1, v.2)),
        prod(a.2, prod(b2.2, v.2)),
        prod(a.3, prod(b2.3, v.2)),
    );
    let t3 = (
        prod(a.0, prod(b3.0, v.3)),
        prod(a.1, prod(b3.1, v.3)),
        prod(a.2, prod(b3.2, v.3)),
        prod(a.3, prod(b3.3, v.3)),
    );
    // on the left, each scalar product times its weight is a sum of four terms
    assert(prod(dot4(a, b0), v.0) == sum4(t0)) by {
        lemma_sum4_times((prod(a.0, b0.0), prod(a.1, b0.1), prod(a.2, b0.2), prod(a.3, b0.3)), v.0);
        lemma_prod_associates(a.0, b0.0, v.0);
        lemma_prod_associates(a.1, b0.1, v.0);
        lemma_prod_associates(a.2, b0.2, v.0);
        lemma_prod_associates(a.3, b0.3, v.0);
    }
    assert(prod(dot4(a, b1), v.1) == sum4(t1)) by {
        lemma_sum4_times((prod(a.0, b1.0), prod(a.1, b1.1), prod(a.2, b1.2), prod(a.3, b1.3)), v.1);
        lemma_prod_associates(a.0, b1.0, v.1);
        lemma_prod_associates(a.1, b1.1, v.1);
        lemma_prod_associates(a.2, b1.2, v.1);
        lemma_prod_associates(a.3, b1.3, v.1);
    }
    assert(prod(dot4(a, b2), v.2) == sum4(t2)) by {
        lemma_sum4_times((prod(a.0, b2.0), prod(a.1, b2.1), prod(a.2, b2.2), prod(a.3, b2.3)), v.2);
        lemma_prod_associates(a.0, b2.0, v.2);
        lemma_prod_associates(a.1, b2.1, v.2);
        lemma_prod_associates(a.2, b2.2, v.2);
        lemma_prod_associates(a.3, b2.3, v.2);
    }
    assert(prod(dot4(a, b3), v.3) == sum4(t3)) by {
        lemma_sum4_times((prod(a.0, b3.0), prod(a.1, b3.1), prod(a.2, b3.2), prod(a.3, b3.3)), v.3);
        lemma_prod_associates(a.0, b3.0, v.3);
        lemma_prod_associates(a.1, b3.1, v.3);
        lemma_prod_associates(a.2, b3.2, v.3);
        lemma_prod_associates(a.3, b3.3, v.3);
    }
    // on the right, each part of `a` times its weighted row is a sum of four terms
    lemma_sum4_times((prod(b0.0, v.0), prod(b1.0, v.1), prod(b2.0, v.2), prod(b3.0, v.3)), a.0);
    lemma_sum4_times((prod(b0.1, v.0), prod(b1.1, v.1), prod(b2.1, v.2), prod(b3.1, v.3)), a.1);
    lemma_sum4_times((prod(b0.2, v.0), prod(b1.2, v.1), prod(b2.2, v.2), prod(b3.2, v.3)), a.2);
    lemma_sum4_times((prod(b0.3, v.0), prod(b1.3, v.1), prod(b2.3, v.2), prod(b3.3, v.3)), a.3);
    lemma_sum4_transposes(t0, t1, t2, t3);
}

/// Adding a scalar on both sides, or taking one away, keeps `<=`.
pub proof fn lemma_at_most_shifts<S: Scalar>(a: S, b: S, c: S)
    requires
        field::<S>(),
        at_most(a, b),
    ensures
        at_most(sum(a, c), sum(b, c)),
        at_most(diff(a, c), diff(b, c)),
{
    lemma_comparisons(a, b);
    lemma_comparisons(sum(a, c), sum(b, c));
    lemma_comparisons(diff(a, c), diff(b, c));
    lemma_difference(a, c);
    lemma_difference(b, c);
    if less(a, b) {
        lemma_order_add(a, b, c);
        lemma_order_add(a, b, opp(c));
    }
}

/// What is at most a scalar that is less than a third is less than the
/// third.
pub proof fn lemma_at_most_then_less<S: Scalar>(a: S, b: S, c: S)
    requires
        field::<S>(),
        at_most(a, b),
        less(b, c),
    ensures
        less(a, c),
{
    lemma_comparisons(a, b);
    if less(a, b) {
        lemma_order_transitive(a, b, c);
    }
}

/// One, halved any number of times, is positive.
pub proof fn lemma_halved_positive<S: Scalar>(n: nat)
    requires
        field::<S>(),
    ensures
        less(zero::<S>(), halved::<S>(n)),
    decreases n,
{
    lemma_num_order::<S>(0, 1);
    if n > 0 {
        lemma_halved_positive::<S>((n - 1) as nat);
        lemma_num_order::<S>(0, 2);
        lemma_positive_quotient(one::<S>(), num::<S>(2));
        lemma_positive_product(halved::<S>((n - 1) as nat), ratio::<S>(1, 2));
    }
}

/// Half of a positive scalar is less than the scalar.
pub proof fn lemma_half_is_less<S: Scalar>(w: S)
    requires
        field::<S>(),
        less(zero(), w),
    ensures
        less(prod(w, ratio::<S>(1, 2)), w),
{
    let half = ratio::<S>(1, 2);
    let two = num::<S>(2);
    // a half is less than one: twice it is one, which is less than two
    lemma_two(half);
    lemma_num_order::<S>(1, 2);
    lemma_order_total(half, one::<S>());
    lemma_order_total(one::<S>(), one::<S>());
    lemma_zero_laws(two);
    if less(one::<S>(), half) {
        lemma_order_mul(one::<S>(), half, two);
        lemma_order_transitive(one::<S>(), two, one::<S>());
    }
    assert(less(half, one::<S>()));
    lemma_order_mul(half, one::<S>(), w);
    lemma_prod_commutes(half, w);
    lemma_zero_laws(w);
}

/// The sum of four scalars, each taken a whole number of times.
pub open spec fn lin<S: Scalar>(v: (S, S, S, S), c: (int, int, int, int)) -> S {
    dot4(v, (num::<S>(c.0), num::<S>(c.1), num::<S>(c.2), num::<S>(c.3)))
}

/// The four numbers are small, and so are their doubles.
pub open spec fn few(c: (int, int, int, int)) -> bool {
    &&& -8 <= c.0 <= 8
    &&& -8 <= c.1 <= 8
    &&& -8 <= c.2 <= 8
    &&& -8 <= c.3 <= 8
}

/// Sums, differences and opposites of scalars times a common factor are
/// the factor times the sum, the difference, the opposite.
pub proof fn lemma_common_factor<S: Scalar>(a: S, b: S, q: S)
    requires
        field::<S>(),
    ensures
        sum(prod(a, q), prod(b, q)) == prod(sum(a, b), q),
        diff(prod(a, q), prod(b, q)) == prod(diff(a, b), q),
        opp(prod(a, q)) == prod(opp(a), q),
{
    lemma_distributes_right(a, b, q);
    lemma_times_opposite(q, a);
    lemma_prod_commutes(q, a);
    lemma_prod_commutes(q, opp(a));
    lemma_times_opposite(q, b);
    lemma_prod_commutes(q, b);
    lemma_prod_commutes(q, opp(b));
    lemma_difference(prod(a, q), prod(b, q));
    lemma_difference(a, b);
    lemma_distributes_right(a, opp(b), q);
}

/// Two sums of the same four scalars add up by the numbers of times.
pub proof fn lemma_lin_adds<S: Scalar>(
    v: (S, S, S, S),
    c: (int, int, int, int),
    d: (int, int, int, int),
)
    requires
        field::<S>(),
        few(c),
        few(d),
    ensures
        sum(lin(v, c), lin(v, d)) == lin(v, (c.0 + d.0, c.1 + d.1, c.2 + d.2, c.3 + d.3)),
{
    lemma_sum4_adds(
        (prod(v.0, num(c.0)), prod(v.1, num(c.1)), prod(v.2, num(c.2)), prod(v.3, num(c.3))),
        (prod(v.0, num(d.0)), prod(v.1, num(d.1)), prod(v.2, num(d.2)), prod(v.3, num(d.3))),
    );
    lemma_distributes(v.0, num::<S>(c.0), num::<S>(d.0));
    lemma_distributes(v.1, num::<S>(c.1), num::<S>(d.1));
    lemma_distributes(v.2, num::<S>(c.2), num::<S>(d.2));
    lemma_distributes(v.3, num::<S>(c.3), num::<S>(d.3));
    lemma_num_adds::<S>(c.0, d.0);
    lemma_num_adds::<S>(c.1, d.1);
    lemma_num_adds::<S>(c.2, d.2);
    lemma_num_adds::<S>(c.3, d.3);
}

/// A sum in which only the scalar at `n` is taken is that scalar times its
/// number; each of the four scalars is the sum that takes it once.
pub proof fn lemma_lin_single<S: Scalar>(v: (S, S, S, S), k: int)
    requires
        field::<S>(),
    ensures
        lin(v, (k, 0, 0, 0)) == prod(v.0, num(k)),
        lin(v, (0, k, 0, 0)) == prod(v.1, num(k)),
        lin(v, (0, 0, k, 0)) == prod(v.2, num(k)),
        lin(v, (0, 0, 0, k)) == prod(v.3, num(k)),
        lin(v, (0, 0, 0, 0)) == zero::<S>(),
        lin(v, (1, 0, 0, 0)) == v.0,
        lin(v, (0, 1, 0, 0)) == v.1,
        lin(v, (0, 0, 1, 0)) == v.2,
        lin(v, (0, 0, 0, 1)) == v.3,
{
    lemma_zero_laws(v.0);
    lemma_zero_laws(v.1);
    lemma_zero_laws(v.2);
    lemma_zero_laws(v.3);
    lemma_neutral(v.0);
    lemma_neutral(v.1);
    lemma_neutral(v.2);
    lemma_neutral(v.3);
    lemma_zero_laws(zero::<S>());
    lemma_neutral(zero::<S>());
    lemma_zero_laws(prod(v.0, num(k)));
    lemma_zero_laws(prod(v.1, num(k)));
    lemma_zero_laws(prod(v.2, num(k)));
    lemma_zero_laws(prod(v.3, num(k)));
    lemma_neutral(prod(v.0, num(k)));
    lemma_neutral(prod(v.1, num(k)));
    lemma_neutral(prod(v.2, num(k)));
    lemma_neutral(prod(v.3, num(k)));
}

/// The opposite of a sum of four scalars takes each the opposite number of
/// times, and a difference of two such sums takes each the difference of
/// the numbers.
pub proof fn lemma_lin_takes<S: Scalar>(
    v: (S, S, S, S),
    c: (int, int, int, int),
    d: (int, int, int, int),
)
    requires
        field::<S>(),
        few(c),
        few(d),
    ensures
        opp(lin(v, d)) == lin(v, (-d.0, -d.1, -d.2, -d.3)),
        diff(lin(v, c), lin(v, d)) == lin(v, (c.0 - d.0, c.1 - d.1, c.2 - d.2, c.3 - d.3)),
{
    let e = (-d.0, -d.1, -d.2, -d.3);
    lemma_lin_adds(v, d, e);
    lemma_lin_single(v, 0);
    lemma_opposite_is_unique(lin(v, d), lin(v, e));
    lemma_difference(lin(v, c), lin(v, d));
    lemma_lin_adds(v, c, e);
}

/// A sum of four scalars times a factor is the sum of the four, each times
/// the factor; twice the sum takes each twice as often.
pub proof fn lemma_lin_times<S: Scalar>(v: (S, S, S, S), c: (int, int, int, int), t: S)
    requires
        field::<S>(),
        few(c),
    ensures
        prod(lin(v, c), t) == lin((prod(v.0, t), prod(v.1, t), prod(v.2, t), prod(v.3, t)), c),
        prod(lin(v, c), num(2)) == lin(v, (2 * c.0, 2 * c.1, 2 * c.2, 2 * c.3)),
{
    lemma_sum4_times(
        (prod(v.0, num(c.0)), prod(v.1, num(c.1)), prod(v.2, num(c.2)), prod(v.3, num(c.3))),
        t,
    );
    lemma_swap_last(v.0, num::<S>(c.0), t);
    lemma_swap_last(v.1, num::<S>(c.1), t);
    lemma_swap_last(v.2, num::<S>(c.2), t);
    lemma_swap_last(v.3, num::<S>(c.3), t);
    lemma_two(lin(v, c));
    lemma_lin_adds(v, c, c);
}

/// `(a * b) * c` is `(a * c) * b`.
pub proof fn lemma_swap_last<S: Scalar>(a: S, b: S, c: S)
    requires
        field::<S>(),
    ensures
        prod(prod(a, b), c) == prod(prod(a, c), b),
{
    lemma_prod_associates(a, b, c);
    lemma_prod_commutes(b, c);
    lemma_prod_associates(a, c, b);
}

/// `a * ((b * c) * t)` is `((a * b) * c) * t`, and `(a * b) * (t * c)` is
/// `((c * a) * b) * t`.
pub proof fn lemma_monomials<S: Scalar>(a: S, b: S, c: S, t: S)
    requires
        field::<S>(),
    ensures
        prod(a, prod(prod(b, c), t)) == prod(prod(prod(a, b), c), t),
        prod(prod(a, b), prod(t, c)) == prod(prod(prod(c, a), b), t),
{
    lemma_prod_associates(a, prod(b, c), t);
    lemma_prod_associates(a, b, c);
    // (a b)(t c) = (a b)(c t) = ((a b) c) t = (c (a b)) t = ((c a) b) t
    lemma_prod_commutes(t, c);
    lemma_prod_associates(prod(a, b), c, t);
    lemma_prod_commutes(prod(a, b), c);
    lemma_prod_associates(c, a, b);
}

/// Six scalars, added up in two groupings.
pub proof fn lemma_regroup<S: Scalar>(t1: S, tc: S, tb: S, ra: S, rb: S, rc: S)
    requires
        field::<S>(),
    ensures
        sum(sum(t1, diff(tc, tb)), sum(sum(ra, rb), rc)) == sum(
            sum(sum(t1, ra), diff(rb, tb)),
            sum(tc, rc),
        ),
{
    let n = opp(tb);
    lemma_difference(tc, tb);
    lemma_difference(rb, tb);
    lemma_interchange(t1, sum(tc, n), sum(ra, rb), rc);
    lemma_sum_associates(t1, ra, rb);
    lemma_sum_commutes(tc, n);
    lemma_sum_associates(n, tc, rc);
    lemma_sum_associates(sum(sum(t1, ra), rb), n, sum(tc, rc));
    lemma_sum_associates(sum(t1, ra), rb, n);
}

/// One row of the rotation that a quaternion with the real part `r` and
/// the vector part `(wa, wb, wc)` stands for, applied to `(ua, ub, uc)`,
/// the three parts in cyclic order from the row's own.
pub proof fn lemma_rotation_row<S: Scalar>(
    r: S,
    w: (S, S, S),
    u: (S, S, S),
    maa: S,
    mab: S,
    mac: S,
    ww: S,
    d: S,
)
    requires
        field::<S>(),
        maa == lin(
            (prod(r, r), prod(w.0, w.0), prod(w.1, w.1), prod(w.2, w.2)),
            (1, 1, -1, -1),
        ),
        mab == prod(num(2), diff(prod(w.0, w.1), prod(r, w.2))),
        mac == prod(num(2), sum(prod(w.0, w.2), prod(r, w.1))),
        ww == lin((prod(r, r), prod(w.0, w.0), prod(w.1, w.1), prod(w.2, w.2)), (0, 1, 1, 1)),
        d == sum(sum(prod(w.0, u.0), prod(w.1, u.1)), prod(w.2, u.2)),
    ensures
        sum(sum(prod(maa, u.0), prod(mab, u.1)), prod(mac, u.2)) == sum(
            sum(
                prod(u.0, diff(prod(r, r), ww)),
                prod(diff(prod(w.1, u.2), prod(w.2, u.1)), prod(num(2), r)),
            ),
            prod(w.0, prod(d, num(2))),
        ),
{
    let two = num::<S>(2);
    let o = zero::<S>();
    let a4 = (prod(r, r), prod(w.0, w.0), prod(w.1, w.1), prod(w.2, w.2));
    let alpha = (prod(a4.0, u.0), prod(a4.1, u.0), prod(a4.2, u.0), prod(a4.3, u.0));
    let b4 = (prod(w.0, w.1), prod(r, w.2), o, o);
    let beta = (prod(b4.0, u.1), prod(b4.1, u.1), prod(o, u.1), prod(o, u.1));
    let c4 = (prod(w.0, w.2), prod(r, w.1), o, o);
    let gamma = (prod(c4.0, u.2), prod(c4.1, u.2), prod(o, u.2), prod(o, u.2));

    // the left side, entry by entry
    lemma_lin_times(a4, (1, 1, -1, -1), u.0);
    assert(prod(maa, u.0) == lin(alpha, (1, 1, -1, -1)));
    assert(prod(mab, u.1) == lin(beta, (2, -2, 0, 0))) by {
        lemma_lin_single(b4, 1);
        lemma_lin_takes(b4, (1, 0, 0, 0), (0, 1, 0, 0));
        lemma_prod_commutes(two, diff(b4.0, b4.1));
        lemma_lin_times(b4, (1, -1, 0, 0), u.1);
        lemma_lin_times(b4, (2, -2, 0, 0), u.1);
    }
    assert(prod(mac, u.2) == lin(gamma, (2, 2, 0, 0))) by {
        lemma_lin_single(c4, 1);
        lemma_lin_adds(c4, (1, 0, 0, 0), (0, 1, 0, 0));
        lemma_prod_commutes(two, sum(c4.0, c4.1));
        lemma_lin_times(c4, (1, 1, 0, 0), u.2);
        lemma_lin_times(c4, (2, 2, 0, 0), u.2);
    }

    // the right side, term by term
    let t1 = prod(u.0, diff(prod(r, r), ww));
    assert(t1 == lin(alpha, (1, -1, -1, -1))) by {
        lemma_lin_single(a4, 1);
        lemma_lin_takes(a4, (1, 0, 0, 0), (0, 1, 1, 1));
        lemma_prod_commutes(u.0, diff(prod(r, r), ww));
        lemma_lin_times(a4, (1, -1, -1, -1), u.0);
    }
    let tc = prod(prod(w.1, u.2), prod(two, r));
    let tb = prod(prod(w.2, u.1), prod(two, r));
    lemma_common_factor(prod(w.1, u.2), prod(w.2, u.1), prod(two, r));
    lemma_monomials(w.1, u.2, r, two);
    lemma_monomials(w.2, u.1, r, two);
    lemma_lin_single(gamma, 2);
    lemma_lin_single(beta, 2);
    assert(tc == lin(gamma, (0, 2, 0, 0)));
    assert(tb == lin(beta, (0, 2, 0, 0)));
    let ra = prod(w.0, prod(prod(w.0, u.0), two));
    let rb = prod(w.0, prod(prod(w.1, u.1), two));
    let rc = prod(w.0, prod(prod(w.2, u.2), two));
    assert(prod(w.0, prod(d, two)) == sum(sum(ra, rb), rc)) by {
        lemma_distributes_right(prod(w.0, u.0), prod(w.1, u.1), two);
        lemma_distributes_right(sum(prod(w.0, u.0), prod(w.1, u.1)), prod(w.2, u.2), two);
        lemma_distributes(w.0, prod(prod(w.0, u.0), two), prod(prod(w.1, u.1), two));
        lemma_distributes(
            w.0,
            sum(prod(prod(w.0, u.0), two), prod(prod(w.1, u.1), two)),
            prod(prod(w.2, u.2), two),
        );
    }
    lemma_monomials(w.0, w.0, u.0, two);
    lemma_monomials(w.0, w.1, u.1, two);
    lemma_monomials(w.0, w.2, u.2, two);
    lemma_lin_single(alpha, 2);
    assert(ra == lin(alpha, (0, 2, 0, 0)));
    assert(rb == lin(beta, (2, 0, 0, 0)));
    assert(rc == lin(gamma, (2, 0, 0, 0)));

    // like terms together
    lemma_lin_adds(alpha, (1, -1, -1, -1), (0, 2, 0, 0));
    lemma_lin_takes(beta, (2, 0, 0, 0), (0, 2, 0, 0));
    lemma_lin_adds(gamma, (0, 2, 0, 0), (2, 0, 0, 0));
    lemma_regroup(t1, tc, tb, ra, rb, rc);
}

/// Three scalars add up to the same from any of them on.
pub proof fn lemma_rotate<S: Scalar>(x: S, y: S, z: S)
    requires
        field::<S>(),
    ensures
        sum(sum(x, y), z) == sum(sum(y, z), x),
        sum(sum(x, y), z) == sum(sum(z, x), y),
{
    lemma_sum_associates(x, y, z);
    lemma_sum_commutes(x, sum(y, z));
    lemma_sum_commutes(sum(x, y), z);
    lemma_sum_associates(z, x, y);
}

/// `(a * b) * (c * d)` is `(a * c) * (b * d)`.
pub proof fn lemma_prod_interchange<S: Scalar>(a: S, b: S, c: S, d: S)
    requires
        field::<S>(),
    ensures
        prod(prod(a, b), prod(c, d)) == prod(prod(a, c), prod(b, d)),
{
    lemma_prod_associates(a, b, prod(c, d));
    lemma_prod_associates(b, c, d);
    lemma_prod_commutes(b, c);
    lemma_prod_associates(c, b, d);
    lemma_prod_associates(a, c, prod(b, d));
}

/// A common factor `s` on the left of a sum of three products, or of a
/// difference of two, can be taken out.
pub proof fn lemma_factor_out<S: Scalar>(s: S, x: (S, S, S), y: (S, S, S))
    requires
        field::<S>(),
    ensures
        sum(
            sum(prod(prod(s, x.0), y.0), prod(prod(s, x.1), y.1)),
            prod(prod(s, x.2), y.2),
        ) == prod(s, sum(sum(prod(x.0, y.0), prod(x.1, y.1)), prod(x.2, y.2))),
        diff(prod(prod(s, x.0), y.0), prod(prod(s, x.1), y.1)) == prod(
            s,
            diff(prod(x.0, y.0), prod(x.1, y.1)),
        ),
{
    let (first, second, third) = (prod(x.0, y.0), prod(x.1, y.1), prod(x.2, y.2));
    lemma_prod_associates(s, x.0, y.0);
    lemma_prod_associates(s, x.1, y.1);
    lemma_prod_associates(s, x.2, y.2);
    lemma_distributes(s, first, second);
    lemma_distributes(s, sum(first, second), third);
    lemma_common_factor(first, second, s);
    lemma_prod_commutes(first, s);
    lemma_prod_commutes(second, s);
    lemma_prod_commutes(diff(first, second), s);
}

/// The terms of the rotation formula for a vector part that is an axis
/// times `s`: `(s z)(2 c)` is `z (2 (c s))`, and `(s x)((s y) 2)` is
/// `x (y (2 (s s)))`.
pub proof fn lemma_axis_terms<S: Scalar>(s: S, c: S, x: S, y: S, z: S)
    requires
        field::<S>(),
    ensures
        prod(prod(s, z), prod(num(2), c)) == prod(z, prod(num(2), prod(c, s))),
        prod(prod(s, x), prod(prod(s, y), num(2))) == prod(
            x,
            prod(y, prod(num(2), prod(s, s))),
        ),
{
    let two = num::<S>(2);
    // ((c s) z) 2 on both sides
    lemma_monomials(s, z, c, two);
    lemma_prod_commutes(two, prod(c, s));
    lemma_prod_associates(z, prod(c, s), two);
    lemma_prod_commutes(z, prod(c, s));
    // ((s s)(x y)) 2 on both sides
    lemma_prod_associates(prod(s, x), prod(s, y), two);
    lemma_prod_interchange(s, x, s, y);
    lemma_prod_associates(x, y, prod(two, prod(s, s)));
    lemma_prod_commutes(two, prod(s, s));
    lemma_prod_associates(prod(x, y), prod(s, s), two);
    lemma_prod_commutes(prod(x, y), prod(s, s));
}

} // verus!
