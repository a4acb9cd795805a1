//! The arithmetic that a sample, an impedance or a matrix coefficient carries:
//! the operations of a number format, the laws of an exact one, and exact
//! fixed-point words as the format that has them all.
//!
//! This crate holds no rounding arithmetic of its own. A rounding format,
//! such as double precision, is supplied by the program that uses the crate,
//! as an implementation of [`Sample`].
use vstd::arithmetic::div_mod::{
    lemma_add_mod_noop, lemma_fundamental_div_mod, lemma_mod_multiples_vanish,
    lemma_mul_mod_noop_general, lemma_small_mod,
};
use vstd::arithmetic::mul::{lemma_mul_is_associative, lemma_mul_is_distributive_add};
use vstd::prelude::*;
use vstd::wrapping::i64_specs;

verus! {

/// A number format for signal values.
///
/// Each operation comes twice: as a specification function that names its
/// result, and as the executable method that computes exactly that result.
/// Nothing else is asked of an implementation; in particular no algebraic law
/// is assumed (a rounding format breaks most of them), see [`ExactSample`].
///
/// What this crate proves of a routine is proved for every format. It holds
/// of a format that is implemented elsewhere as far as that implementation
/// keeps the one promise made here: that each method returns what the
/// specification function of the same operation names.
pub trait Sample: Sized + Copy {
    /// The value of silence, the neutral element that sums start from.
    spec fn zero_value() -> Self;

    /// The unit gain.
    spec fn one_value() -> Self;

    /// The result of adding `b` to `a`.
    spec fn sum(a: Self, b: Self) -> Self;

    /// The result of subtracting `b` from `a`.
    spec fn difference(a: Self, b: Self) -> Self;

    /// The result of multiplying `a` by `b`.
    spec fn product(a: Self, b: Self) -> Self;

    /// Whether the value is an ordinary number, as opposed to an infinity or
    /// a not-a-number marker of the format.
    spec fn finite(self) -> bool;

    /// The value that stands for the count `n`, such as the index of a bin.
    spec fn count_value(n: usize) -> Self;

    fn zero() -> (r: Self)
        ensures
            r == Self::zero_value(),
    ;

    fn one() -> (r: Self)
        ensures
            r == Self::one_value(),
    ;

    fn plus(self, other: Self) -> (r: Self)
        ensures
            r == Self::sum(self, other),
    ;

    fn minus(self, other: Self) -> (r: Self)
        ensures
            r == Self::difference(self, other),
    ;

    fn times(self, other: Self) -> (r: Self)
        ensures
            r == Self::product(self, other),
    ;

    fn is_finite(self) -> (r: bool)
        ensures
            r == self.finite(),
    ;

    fn from_count(n: usize) -> (r: Self)
        ensures
            r == Self::count_value(n),
    ;
}

/// A sample format with an order.
pub trait OrderedSample: Sample {
    /// Whether `a` is strictly less than `b` in the format's own order.
    spec fn below(a: Self, b: Self) -> bool;

    fn less_than(self, other: Self) -> (r: bool)
        ensures
            r == Self::below(self, other),
    ;
}

/// A sample format whose arithmetic is a commutative ring: sums and products
/// are exact, so the order in which terms are accumulated does not matter.
pub trait ExactSample: Sample {
    proof fn sum_commutes(a: Self, b: Self)
        ensures
            Self::sum(a, b) == Self::sum(b, a),
    ;

    proof fn sum_associates(a: Self, b: Self, c: Self)
        ensures
            Self::sum(Self::sum(a, b), c) == Self::sum(a, Self::sum(b, c)),
    ;

    proof fn sum_with_zero(a: Self)
        ensures
            Self::sum(a, Self::zero_value()) == a,
    ;

    proof fn difference_cancels(a: Self, b: Self)
        ensures
            Self::sum(Self::difference(a, b), b) == a,
    ;

    proof fn product_commutes(a: Self, b: Self)
        ensures
            Self::product(a, b) == Self::product(b, a),
    ;

    proof fn product_associates(a: Self, b: Self, c: Self)
        ensures
            Self::product(Self::product(a, b), c) == Self::product(a, Self::product(b, c)),
    ;

    proof fn product_with_one(a: Self)
        ensures
            Self::product(a, Self::one_value()) == a,
    ;

    proof fn product_distributes(a: Self, b: Self, c: Self)
        ensures
            Self::product(a, Self::sum(b, c)) == Self::sum(
                Self::product(a, b),
                Self::product(a, c),
            ),
    ;

    proof fn count_from_zero()
        ensures
            Self::count_value(0) == Self::zero_value(),
    ;

    proof fn count_goes_up_by_one(n: usize)
        requires
            n < usize::MAX,
        ensures
            Self::count_value((n + 1) as usize) == Self::sum(
                Self::count_value(n),
                Self::one_value(),
            ),
    ;
}

/// Fixed-point samples in a 64-bit two's-complement word. Sums, differences
/// and products wrap, which makes the arithmetic exact modulo 2^64: the
/// words are a commutative ring, and with them the laws of [`ExactSample`]
/// have a model.
impl Sample for i64 {
    open spec fn zero_value() -> i64 {
        0
    }

    open spec fn one_value() -> i64 {
        1
    }

    open spec fn sum(a: i64, b: i64) -> i64 {
        i64_specs::wrapping_add(a, b)
    }

    open spec fn difference(a: i64, b: i64) -> i64 {
        i64_specs::wrapping_sub(a, b)
    }

    open spec fn product(a: i64, b: i64) -> i64 {
        i64_specs::wrapping_mul(a, b)
    }

    open spec fn finite(self) -> bool {
        true
    }

    open spec fn count_value(n: usize) -> i64 {
        i64_specs::signed_crop(n as int)
    }

    fn zero() -> (r: i64) {
        0
    }

    fn one() -> (r: i64) {
        1
    }

    fn plus(self, other: i64) -> (r: i64) {
        self.wrapping_add(other)
    }

    fn minus(self, other: i64) -> (r: i64) {
        self.wrapping_sub(other)
    }

    fn times(self, other: i64) -> (r: i64) {
        self.wrapping_mul(other)
    }

    fn is_finite(self) -> (r: bool) {
        true
    }

    fn from_count(n: usize) -> (r: i64) {
        let wide: u64 = n as u64;
        proof {
            lemma_small_mod(wide as nat, word_modulus() as nat);
        }
        if wide <= 0x7fff_ffff_ffff_ffff {
            wide as i64
        } else {
            let upper: u64 = wide - 0x8000_0000_0000_0000;
            (upper as i64) + i64::MIN
        }
    }
}

impl OrderedSample for i64 {
    open spec fn below(a: i64, b: i64) -> bool {
        a < b
    }

    fn less_than(self, other: i64) -> (r: bool) {
        self < other
    }
}

/// The modulus of 64-bit wrapping arithmetic.
pub open spec fn word_modulus() -> int {
    0x1_0000_0000_0000_0000
}

/// A wrapped value is the one word congruent to the exact value.
pub proof fn lemma_crop_congruent(x: int)
    ensures
        (i64_specs::signed_crop(x) as int) % word_modulus() == x % word_modulus(),
{
    let m = word_modulus();
    let r = x % m;
    assert(0 <= r < m) by {
        lemma_fundamental_div_mod(x, m);
    }
    if r > i64::MAX as int {
        assert(i64_specs::signed_crop(x) as int == r - m);
        assert((r - m) % m == r % m) by {
            lemma_mod_multiples_vanish(-1, r, m);
        }
        assert(r % m == r) by {
            lemma_small_mod(r as nat, m as nat);
        }
    } else {
        assert(i64_specs::signed_crop(x) as int == r);
        assert(r % m == r) by {
            lemma_small_mod(r as nat, m as nat);
        }
    }
}

/// Two exact values that are congruent wrap to the same word.
pub proof fn lemma_crop_respects_congruence(x: int, y: int)
    requires
        x % word_modulus() == y % word_modulus(),
    ensures
        i64_specs::signed_crop(x) == i64_specs::signed_crop(y),
{
}

impl ExactSample for i64 {
    proof fn count_from_zero() {
        lemma_small_mod(0, word_modulus() as nat);
    }

    proof fn count_goes_up_by_one(n: usize) {
        let m = word_modulus();
        let c = i64_specs::signed_crop(n as int);
        lemma_wrapping_add_is_crop(c, 1);
        lemma_crop_congruent(n as int);
        lemma_add_mod_noop(c as int, 1, m);
        lemma_add_mod_noop(n as int, 1, m);
        lemma_crop_respects_congruence(c + 1, (n + 1) as int);
    }

    proof fn sum_commutes(a: i64, b: i64) {
    }

    proof fn sum_associates(a: i64, b: i64, c: i64) {
    }

    proof fn sum_with_zero(a: i64) {
    }

    proof fn difference_cancels(a: i64, b: i64) {
    }

    proof fn product_commutes(a: i64, b: i64) {
        assert(a * b == b * a) by (nonlinear_arith);
    }

    proof fn product_associates(a: i64, b: i64, c: i64) {
        let m = word_modulus();
        let ab = i64_specs::signed_crop(a * b) as int;
        let bc = i64_specs::signed_crop(b * c) as int;
        lemma_crop_congruent(a * b);
        lemma_crop_congruent(b * c);
        lemma_mul_mod_noop_general(ab, c as int, m);
        lemma_mul_mod_noop_general(a * b, c as int, m);
        lemma_mul_mod_noop_general(a as int, bc, m);
        lemma_mul_mod_noop_general(a as int, b * c, m);
        lemma_mul_is_associative(a as int, b as int, c as int);
        lemma_crop_respects_congruence(ab * c, a * bc);
    }

    proof fn product_with_one(a: i64) {
        let m = word_modulus();
        assert(a * 1 == a as int);
        if a >= 0 {
            lemma_small_mod(a as nat, m as nat);
        } else {
            lemma_mod_multiples_vanish(1, a as int, m);
            lemma_small_mod((a + m) as nat, m as nat);
        }
    }

    proof fn product_distributes(a: i64, b: i64, c: i64) {
        let m = word_modulus();
        let s = i64_specs::wrapping_add(b, c) as int;
        let ab = i64_specs::signed_crop(a * b) as int;
        let ac = i64_specs::signed_crop(a * c) as int;
        // the wrapped sum of two words is the crop of their exact sum
        lemma_wrapping_add_is_crop(b, c);
        lemma_wrapping_add_is_crop(ab as i64, ac as i64);
        lemma_crop_congruent(b + c);
        lemma_crop_congruent(a * b);
        lemma_crop_congruent(a * c);
        lemma_mul_mod_noop_general(a as int, s, m);
        lemma_mul_mod_noop_general(a as int, b + c, m);
        lemma_mul_is_distributive_add(a as int, b as int, c as int);
        lemma_add_mod_noop(ab, ac, m);
        lemma_add_mod_noop(a * b, a * c, m);
        lemma_crop_respects_congruence(a * s, ab + ac);
    }
}

/// Wrapping addition is the exact sum brought back into the word.
pub proof fn lemma_wrapping_add_is_crop(a: i64, b: i64)
    ensures
        i64_specs::wrapping_add(a, b) == i64_specs::signed_crop(a + b),
{
    let m = word_modulus();
    let s = a + b;
    if s > i64::MAX as int {
        lemma_mod_multiples_vanish(-1, s, m);
        lemma_small_mod((s - m + m) as nat, m as nat);
        assert((s - m) % m == s % m);
        lemma_mod_multiples_vanish(1, s - m, m);
    } else if s < i64::MIN as int {
        lemma_mod_multiples_vanish(1, s, m);
        lemma_small_mod((s + m) as nat, m as nat);
    } else if s >= 0 {
        lemma_small_mod(s as nat, m as nat);
    } else {
        lemma_mod_multiples_vanish(1, s, m);
        lemma_small_mod((s + m) as nat, m as nat);
    }
}

} // verus!
