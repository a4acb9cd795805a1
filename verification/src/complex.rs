//! Complex numbers over a sample format.
use crate::ring::{
    lemma_difference_trivial, lemma_expansion_rules, lemma_one_times, lemma_product_with_zero,
    lemma_products_regroup, lemma_sums_rearrange, lemma_zero_plus,
};
use crate::sample::{ExactSample, Sample};
use vstd::prelude::*;

verus! {

/// A complex number in Cartesian form.
#[derive(Debug)]
pub struct Complex<S: Sample> {
    /// The real part.
    pub re: S,
    /// The imaginary part.
    pub im: S,
}

impl<S: Sample> Clone for Complex<S> {
    fn clone(&self) -> (z: Self)
        ensures
            z == *self,
    {
        Complex { re: self.re, im: self.im }
    }
}

impl<S: Sample> Copy for Complex<S> {

}

impl<S: Sample> Complex<S> {
    /// The real number `re` as a complex one.
    pub open spec fn real_value(re: S) -> Self {
        Complex { re, im: S::zero_value() }
    }

    /// The imaginary unit.
    pub open spec fn i_value() -> Self {
        Complex { re: S::zero_value(), im: S::one_value() }
    }

    pub fn new(re: S, im: S) -> (z: Self)
        ensures
            z == (Complex { re, im }),
    {
        Complex { re, im }
    }

    pub fn from_real(re: S) -> (z: Self)
        ensures
            z == Self::real_value(re),
    {
        Complex { re, im: S::zero() }
    }

    pub fn i() -> (z: Self)
        ensures
            z == Self::i_value(),
    {
        Complex { re: S::zero(), im: S::one() }
    }
}

/// Complex numbers over a sample format are a sample format themselves.
impl<S: Sample> Sample for Complex<S> {
    open spec fn zero_value() -> Self {
        Complex { re: S::zero_value(), im: S::zero_value() }
    }

    open spec fn one_value() -> Self {
        Complex { re: S::one_value(), im: S::zero_value() }
    }

    /// The sum, part by part.
    open spec fn sum(a: Self, b: Self) -> Self {
        Complex { re: S::sum(a.re, b.re), im: S::sum(a.im, b.im) }
    }

    /// The difference, part by part.
    open spec fn difference(a: Self, b: Self) -> Self {
        Complex { re: S::difference(a.re, b.re), im: S::difference(a.im, b.im) }
    }

    /// The product `(a.re b.re - a.im b.im) + i (a.re b.im + a.im b.re)`.
    open spec fn product(a: Self, b: Self) -> Self {
        Complex {
            re: S::difference(S::product(a.re, b.re), S::product(a.im, b.im)),
            im: S::sum(S::product(a.re, b.im), S::product(a.im, b.re)),
        }
    }

    open spec fn finite(self) -> bool {
        self.re.finite() && self.im.finite()
    }

    open spec fn count_value(n: usize) -> Self {
        Complex { re: S::count_value(n), im: S::zero_value() }
    }

    fn zero() -> (z: Self) {
        Complex { re: S::zero(), im: S::zero() }
    }

    fn one() -> (z: Self) {
        Complex { re: S::one(), im: S::zero() }
    }

    fn plus(self, other: Self) -> (z: Self) {
        Complex { re: self.re.plus(other.re), im: self.im.plus(other.im) }
    }

    fn minus(self, other: Self) -> (z: Self) {
        Complex { re: self.re.minus(other.re), im: self.im.minus(other.im) }
    }

    fn times(self, other: Self) -> (z: Self) {
        let re = self.re.times(other.re).minus(self.im.times(other.im));
        let im = self.re.times(other.im).plus(self.im.times(other.re));
        Complex { re, im }
    }

    fn is_finite(self) -> (r: bool) {
        self.re.is_finite() && self.im.is_finite()
    }

    fn from_count(n: usize) -> (z: Self) {
        Complex { re: S::from_count(n), im: S::zero() }
    }
}

/// Complex numbers over a commutative ring are a commutative ring.
impl<S: ExactSample> ExactSample for Complex<S> {
    proof fn sum_commutes(a: Self, b: Self) {
        S::sum_commutes(a.re, b.re);
        S::sum_commutes(a.im, b.im);
    }

    proof fn sum_associates(a: Self, b: Self, c: Self) {
        S::sum_associates(a.re, b.re, c.re);
        S::sum_associates(a.im, b.im, c.im);
    }

    proof fn sum_with_zero(a: Self) {
        S::sum_with_zero(a.re);
        S::sum_with_zero(a.im);
    }

    proof fn difference_cancels(a: Self, b: Self) {
        S::difference_cancels(a.re, b.re);
        S::difference_cancels(a.im, b.im);
    }

    proof fn product_commutes(a: Self, b: Self) {
        S::product_commutes(a.re, b.re);
        S::product_commutes(a.im, b.im);
        S::product_commutes(a.re, b.im);
        S::product_commutes(a.im, b.re);
        S::sum_commutes(S::product(a.re, b.im), S::product(a.im, b.re));
    }

    proof fn product_associates(a: Self, b: Self, c: Self) {
        lemma_sums_rearrange::<S>();
        lemma_expansion_rules::<S>();
        lemma_products_regroup::<S>();
    }

    proof fn product_with_one(a: Self) {
        S::product_with_one(a.re);
        S::product_with_one(a.im);
        lemma_product_with_zero(a.re);
        lemma_product_with_zero(a.im);
        lemma_difference_trivial(a.re);
        lemma_zero_plus(a.im);
    }

    proof fn product_distributes(a: Self, b: Self, c: Self) {
        lemma_sums_rearrange::<S>();
        lemma_expansion_rules::<S>();
    }

    proof fn count_from_zero() {
        S::count_from_zero();
    }

    proof fn count_goes_up_by_one(n: usize) {
        S::count_goes_up_by_one(n);
        S::sum_with_zero(S::zero_value());
    }
}

/// The squared modulus `re^2 + im^2` of a complex number.
pub open spec fn norm_sqr<S: Sample>(z: Complex<S>) -> S {
    S::sum(S::product(z.re, z.re), S::product(z.im, z.im))
}

/// In exact arithmetic, the imaginary unit times a real number `r` is the
/// purely imaginary `i r`, and that times a real `s` is `i (r s)`.
pub proof fn lemma_imaginary_scaling<S: ExactSample>(r: S, s: S)
    ensures
        Complex::product(Complex::i_value(), Complex::real_value(r)) == (Complex {
            re: S::zero_value(),
            im: r,
        }),
        Complex::product(
            Complex::product(Complex::i_value(), Complex::real_value(r)),
            Complex::real_value(s),
        ) == (Complex { re: S::zero_value(), im: S::product(r, s) }),
{
    let z = S::zero_value();
    lemma_product_with_zero(r);
    lemma_product_with_zero(s);
    lemma_product_with_zero(S::one_value());
    lemma_product_with_zero(z);
    lemma_one_times(r);
    lemma_difference_trivial(z);
    lemma_zero_plus(r);
    lemma_zero_plus(S::product(r, s));
}

} // verus!
