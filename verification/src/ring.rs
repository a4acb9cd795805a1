//! What follows from the laws of exact arithmetic: consequences of the ring
//! laws, and the rewriting rules that larger identities are proved with.
use crate::sample::{ExactSample, Sample};
use vstd::prelude::*;

verus! {

/// A value added to itself.
pub open spec fn twice<S: Sample>(a: S) -> S {
    S::sum(a, a)
}

/// In exact arithmetic, zero added on the left changes nothing.
pub proof fn lemma_zero_plus<S: ExactSample>(a: S)
    ensures
        S::sum(S::zero_value(), a) == a,
{
    S::sum_commutes(S::zero_value(), a);
    S::sum_with_zero(a);
}

/// In exact arithmetic, a summand can be cancelled on both sides.
pub proof fn lemma_sum_cancels<S: ExactSample>(u: S, v: S, b: S)
    requires
        S::sum(u, b) == S::sum(v, b),
    ensures
        u == v,
{
    // n is an opposite of b: n + b == 0
    let n = S::difference(S::zero_value(), b);
    S::difference_cancels(S::zero_value(), b);
    S::sum_commutes(n, b);
    S::sum_associates(u, b, n);
    S::sum_associates(v, b, n);
    S::sum_with_zero(u);
    S::sum_with_zero(v);
}

/// In exact arithmetic, the difference `a - b` is the one value that gives
/// `a` back when `b` is added to it.
pub proof fn lemma_difference_is<S: ExactSample>(a: S, b: S, u: S)
    requires
        S::sum(u, b) == a,
    ensures
        S::difference(a, b) == u,
{
    S::difference_cancels(a, b);
    lemma_sum_cancels(S::difference(a, b), u, b);
}

/// In exact arithmetic, a product with zero is zero.
pub proof fn lemma_product_with_zero<S: ExactSample>(a: S)
    ensures
        S::product(a, S::zero_value()) == S::zero_value(),
        S::product(S::zero_value(), a) == S::zero_value(),
{
    let z = S::zero_value();
    let t = S::product(a, z);
    // t + t == a * (0 + 0) == t == 0 + t
    S::product_distributes(a, z, z);
    S::sum_with_zero(z);
    lemma_zero_plus(t);
    lemma_sum_cancels(t, z, t);
    S::product_commutes(a, z);
}

/// In exact arithmetic, one multiplied from the left changes nothing.
pub proof fn lemma_one_times<S: ExactSample>(a: S)
    ensures
        S::product(S::one_value(), a) == a,
{
    S::product_commutes(S::one_value(), a);
    S::product_with_one(a);
}

/// In exact arithmetic, subtracting zero changes nothing, and a value
/// subtracted from itself leaves zero.
pub proof fn lemma_difference_trivial<S: ExactSample>(a: S)
    ensures
        S::difference(a, S::zero_value()) == a,
        S::difference(a, a) == S::zero_value(),
{
    S::sum_with_zero(a);
    lemma_difference_is(a, S::zero_value(), a);
    lemma_zero_plus(a);
    lemma_difference_is(a, a, S::zero_value());
}

/// The opposite of a value: zero minus the value.
pub open spec fn negation<S: Sample>(a: S) -> S {
    S::difference(S::zero_value(), a)
}

/// In exact arithmetic, a value and its opposite sum to zero.
pub proof fn lemma_negation_cancels<S: ExactSample>(a: S)
    ensures
        S::sum(a, negation(a)) == S::zero_value(),
        S::sum(negation(a), a) == S::zero_value(),
{
    S::difference_cancels(S::zero_value(), a);
    S::sum_commutes(a, negation(a));
}

/// In exact arithmetic, subtracting is adding the opposite.
pub proof fn lemma_difference_as_sum<S: ExactSample>(a: S, b: S)
    ensures
        S::difference(a, b) == S::sum(a, negation(b)),
{
    lemma_negation_cancels(b);
    S::sum_associates(a, negation(b), b);
    S::sum_with_zero(a);
    lemma_difference_is(a, b, S::sum(a, negation(b)));
}

/// In exact arithmetic, the product distributes over a sum on its left too.
pub proof fn lemma_product_distributes_right<S: ExactSample>(a: S, b: S, c: S)
    ensures
        S::product(S::sum(a, b), c) == S::sum(S::product(a, c), S::product(b, c)),
{
    S::product_commutes(S::sum(a, b), c);
    S::product_distributes(c, a, b);
    S::product_commutes(c, a);
    S::product_commutes(c, b);
}

/// In exact arithmetic, the opposite of a factor is the opposite of the
/// product.
pub proof fn lemma_negation_of_product<S: ExactSample>(a: S, b: S)
    ensures
        S::product(negation(a), b) == negation(S::product(a, b)),
        S::product(a, negation(b)) == negation(S::product(a, b)),
{
    lemma_product_distributes_right(negation(a), a, b);
    lemma_negation_cancels(a);
    lemma_product_with_zero(b);
    lemma_difference_is(S::zero_value(), S::product(a, b), S::product(negation(a), b));
    S::product_commutes(a, negation(b));
    lemma_product_distributes_right(negation(b), b, a);
    lemma_negation_cancels(b);
    lemma_product_with_zero(a);
    S::product_commutes(b, a);
    lemma_difference_is(S::zero_value(), S::product(a, b), S::product(negation(b), a));
}

/// In exact arithmetic, the opposite of a sum is the sum of the opposites.
pub proof fn lemma_negation_of_sum<S: ExactSample>(a: S, b: S)
    ensures
        negation(S::sum(a, b)) == S::sum(negation(a), negation(b)),
{
    let na = negation(a);
    let nb = negation(b);
    lemma_negation_cancels(a);
    lemma_negation_cancels(b);
    // (na + nb) + (a + b) == na + ((nb + b) + a) == 0
    S::sum_associates(na, nb, S::sum(a, b));
    S::sum_associates(nb, a, b);
    S::sum_commutes(nb, a);
    S::sum_associates(a, nb, b);
    S::sum_with_zero(a);
    lemma_difference_is(S::zero_value(), S::sum(a, b), S::sum(na, nb));
}

/// In exact arithmetic, sums may be regrouped and reordered at will: the
/// two laws, for all values at once.
pub proof fn lemma_sums_rearrange<S: ExactSample>()
    ensures
        forall|a: S, b: S| #[trigger] S::sum(a, b) == S::sum(b, a),
        forall|a: S, b: S, c: S| #[trigger]
            S::sum(S::sum(a, b), c) == S::sum(a, S::sum(b, c)),
{
    assert forall|a: S, b: S| #[trigger] S::sum(a, b) == S::sum(b, a) by {
        S::sum_commutes(a, b);
    }
    assert forall|a: S, b: S, c: S| #[trigger]
        S::sum(S::sum(a, b), c) == S::sum(a, S::sum(b, c)) by {
        S::sum_associates(a, b, c);
    }
}

/// In exact arithmetic, every expression expands into a sum of products and
/// of opposites of products: the rules that do so, for all values at once.
/// Differences become sums, products distribute over sums, and opposites
/// move out of products and into sums.
pub proof fn lemma_expansion_rules<S: ExactSample>()
    ensures
        forall|a: S, b: S| #[trigger] S::difference(a, b) == S::sum(a, negation(b)),
        forall|a: S, b: S, c: S| #[trigger]
            S::product(S::sum(a, b), c) == S::sum(S::product(a, c), S::product(b, c)),
        forall|a: S, b: S, c: S| #[trigger]
            S::product(a, S::sum(b, c)) == S::sum(S::product(a, b), S::product(a, c)),
        forall|a: S, b: S| #[trigger] S::product(negation(a), b) == negation(S::product(a, b)),
        forall|a: S, b: S| #[trigger] S::product(a, negation(b)) == negation(S::product(a, b)),
        forall|a: S, b: S| #[trigger]
            negation(S::sum(a, b)) == S::sum(negation(a), negation(b)),
{
    assert forall|a: S, b: S| #[trigger] S::difference(a, b) == S::sum(a, negation(b)) by {
        lemma_difference_as_sum(a, b);
    }
    assert forall|a: S, b: S, c: S| #[trigger]
        S::product(S::sum(a, b), c) == S::sum(S::product(a, c), S::product(b, c)) by {
        lemma_product_distributes_right(a, b, c);
    }
    assert forall|a: S, b: S, c: S| #[trigger]
        S::product(a, S::sum(b, c)) == S::sum(S::product(a, b), S::product(a, c)) by {
        S::product_distributes(a, b, c);
    }
    assert forall|a: S, b: S| #[trigger]
        S::product(negation(a), b) == negation(S::product(a, b)) by {
        lemma_negation_of_product(a, b);
    }
    assert forall|a: S, b: S| #[trigger]
        S::product(a, negation(b)) == negation(S::product(a, b)) by {
        lemma_negation_of_product(a, b);
    }
    assert forall|a: S, b: S| #[trigger]
        negation(S::sum(a, b)) == S::sum(negation(a), negation(b)) by {
        lemma_negation_of_sum(a, b);
    }
}

/// In exact arithmetic, one and zero simplify away: the rules that do so,
/// for all values at once.
pub proof fn lemma_unit_rules<S: ExactSample>()
    ensures
        forall|a: S| #[trigger] S::product(a, S::one_value()) == a,
        forall|a: S| #[trigger] S::product(S::one_value(), a) == a,
        forall|a: S| #[trigger] S::product(a, S::zero_value()) == S::zero_value(),
        forall|a: S| #[trigger] S::product(S::zero_value(), a) == S::zero_value(),
        forall|a: S| #[trigger] S::sum(a, S::zero_value()) == a,
        forall|a: S| #[trigger] S::sum(S::zero_value(), a) == a,
        forall|a: S| #[trigger] S::difference(a, S::zero_value()) == a,
{
    assert forall|a: S| #[trigger] S::product(a, S::one_value()) == a by {
        S::product_with_one(a);
    }
    assert forall|a: S| #[trigger] S::product(S::one_value(), a) == a by {
        lemma_one_times(a);
    }
    assert forall|a: S| #[trigger] S::product(a, S::zero_value()) == S::zero_value() by {
        lemma_product_with_zero(a);
    }
    assert forall|a: S| #[trigger] S::product(S::zero_value(), a) == S::zero_value() by {
        lemma_product_with_zero(a);
    }
    assert forall|a: S| #[trigger] S::sum(a, S::zero_value()) == a by {
        S::sum_with_zero(a);
    }
    assert forall|a: S| #[trigger] S::sum(S::zero_value(), a) == a by {
        lemma_zero_plus(a);
    }
    assert forall|a: S| #[trigger] S::difference(a, S::zero_value()) == a by {
        lemma_difference_trivial(a);
    }
}

/// In exact arithmetic, the opposite of the opposite is the value itself.
pub proof fn lemma_double_negation<S: ExactSample>(a: S)
    ensures
        negation(negation(a)) == a,
{
    lemma_negation_cancels(a);
    lemma_difference_is(S::zero_value(), negation(a), a);
}

/// In exact arithmetic, nested products may be regrouped to the right: the
/// law, for all values at once.
pub proof fn lemma_products_regroup<S: ExactSample>()
    ensures
        forall|a: S, b: S, c: S| #[trigger]
            S::product(S::product(a, b), c) == S::product(a, S::product(b, c)),
{
    assert forall|a: S, b: S, c: S| #[trigger]
        S::product(S::product(a, b), c) == S::product(a, S::product(b, c)) by {
        S::product_associates(a, b, c);
    }
}

/// In exact arithmetic, the middle factors of a product of two products may
/// change places: `(p q)(r s) == (p r)(q s)`.
pub proof fn lemma_product_interchange<S: ExactSample>(p: S, q: S, r: S, s: S)
    ensures
        S::product(S::product(p, q), S::product(r, s)) == S::product(
            S::product(p, r),
            S::product(q, s),
        ),
{
    // (p q)(r s) == p (q (r s)) == p ((q r) s) == p ((r q) s) == p (r (q s)) == (p r)(q s)
    S::product_associates(p, q, S::product(r, s));
    S::product_associates(q, r, s);
    S::product_commutes(q, r);
    S::product_associates(r, q, s);
    S::product_associates(p, r, S::product(q, s));
}

/// In exact arithmetic, one is neutral for the product and zero for the sum,
/// on either side, and a product with zero is zero.
pub proof fn lemma_unit_and_zero<S: ExactSample>(z: S)
    ensures
        S::product(S::one_value(), z) == z,
        S::product(z, S::one_value()) == z,
        S::product(S::zero_value(), z) == S::zero_value(),
        S::product(z, S::zero_value()) == S::zero_value(),
        S::sum(z, S::zero_value()) == z,
        S::sum(S::zero_value(), z) == z,
{
    lemma_one_times(z);
    S::product_with_one(z);
    lemma_product_with_zero(z);
    S::sum_with_zero(z);
    lemma_zero_plus(z);
}

/// In exact arithmetic, the value of a count that is a sum is the sum of the
/// values of its parts.
pub proof fn lemma_count_adds<S: ExactSample>(a: usize, b: usize)
    requires
        a + b <= usize::MAX,
    ensures
        S::count_value((a + b) as usize) == S::sum(S::count_value(a), S::count_value(b)),
    decreases b,
{
    if b == 0 {
        S::count_from_zero();
        S::sum_with_zero(S::count_value(a));
    } else {
        let before = (b - 1) as usize;
        lemma_count_adds::<S>(a, before);
        S::count_goes_up_by_one((a + before) as usize);
        S::count_goes_up_by_one(before);
        S::sum_associates(S::count_value(a), S::count_value(before), S::one_value());
    }
}

} // verus!
