//! Two-by-two complex transfer matrices of acoustic elements, and their
//! composition along a duct.
use crate::complex::{lemma_imaginary_scaling, norm_sqr};
use crate::ring::{
    lemma_difference_is, lemma_difference_trivial, lemma_double_negation,
    lemma_expansion_rules, lemma_negation_cancels, lemma_one_times, lemma_product_interchange,
    lemma_product_with_zero, lemma_products_regroup, lemma_sums_rearrange,
    lemma_unit_and_zero, lemma_unit_rules, lemma_zero_plus, negation, twice,
};
use crate::sample::{ExactSample, Sample};
use vstd::prelude::*;

pub use crate::complex::Complex;

verus! {

/// The transfer matrix of an acoustic element or of a chain of them. It
/// relates sound pressure and volume flow on the two sides:
///
/// ```text
/// [p_out]   [a  b] [p_in]
/// [U_out] = [c  d] [U_in]
/// ```
#[derive(Debug)]
pub struct TransferMatrix<S: Sample> {
    pub a: Complex<S>,
    pub b: Complex<S>,
    pub c: Complex<S>,
    pub d: Complex<S>,
}

impl<S: Sample> Clone for TransferMatrix<S> {
    fn clone(&self) -> (m: Self)
        ensures
            m == *self,
    {
        TransferMatrix { a: self.a, b: self.b, c: self.c, d: self.d }
    }
}

impl<S: Sample> Copy for TransferMatrix<S> {

}

impl<S: Sample> TransferMatrix<S> {
    /// The matrix of an element that changes nothing.
    pub open spec fn identity_value() -> Self {
        TransferMatrix {
            a: Complex::one_value(),
            b: Complex::zero_value(),
            c: Complex::zero_value(),
            d: Complex::one_value(),
        }
    }

    /// The matrix product `m1 * m2`: the element `m1` on the source side,
    /// followed by `m2` towards the load.
    pub open spec fn chained(m1: Self, m2: Self) -> Self {
        TransferMatrix {
            a: Complex::sum(Complex::product(m1.a, m2.a), Complex::product(m1.b, m2.c)),
            b: Complex::sum(Complex::product(m1.a, m2.b), Complex::product(m1.b, m2.d)),
            c: Complex::sum(Complex::product(m1.c, m2.a), Complex::product(m1.d, m2.c)),
            d: Complex::sum(Complex::product(m1.c, m2.b), Complex::product(m1.d, m2.d)),
        }
    }

    /// The matrix of a whole chain: the product of the elements' matrices in
    /// their order from source to load, the identity for an empty chain.
    pub open spec fn cascade_of(matrices: Seq<Self>) -> Self
        decreases matrices.len(),
    {
        if matrices.len() == 0 {
            Self::identity_value()
        } else {
            Self::chained(Self::cascade_of(matrices.drop_last()), matrices.last())
        }
    }

    /// The determinant `a d - b c`.
    pub open spec fn determinant(self) -> Complex<S> {
        Complex::difference(Complex::product(self.a, self.d), Complex::product(self.b, self.c))
    }

    /// The matrix of a straight duct, from the cosine and sine of its
    /// electrical length `kL`, its characteristic impedance `z` and the
    /// reciprocal `y` of that impedance: `a = d = cos kL`, `b = i z sin kL`,
    /// `c = i y sin kL`.
    pub open spec fn straight_duct_value(cos_kl: S, sin_kl: S, z: S, y: S) -> Self {
        TransferMatrix {
            a: Complex::real_value(cos_kl),
            b: Complex::product(
                Complex::product(Complex::i_value(), Complex::real_value(z)),
                Complex::real_value(sin_kl),
            ),
            c: Complex::product(
                Complex::product(Complex::i_value(), Complex::real_value(y)),
                Complex::real_value(sin_kl),
            ),
            d: Complex::real_value(cos_kl),
        }
    }

    /// The sum `a + b y_load + z_source c + z_source d y_load`, where `y_load`
    /// stands for the reciprocal of the load impedance. The transmission loss
    /// between the two impedances is `20 log10` of half its modulus, and the
    /// pressure transfer function is two divided by it.
    pub open spec fn transfer_denominator_value(self, z_source: S, y_load: S) -> Complex<S> {
        let zs = Complex::real_value(z_source);
        let yl = Complex::real_value(y_load);
        Complex::sum(
            Complex::sum(
                Complex::sum(self.a, Complex::product(self.b, yl)),
                Complex::product(zs, self.c),
            ),
            Complex::product(Complex::product(zs, self.d), yl),
        )
    }

    pub fn new(a: Complex<S>, b: Complex<S>, c: Complex<S>, d: Complex<S>) -> (m: Self)
        ensures
            m == (TransferMatrix { a, b, c, d }),
    {
        TransferMatrix { a, b, c, d }
    }

    /// The identity matrix, the transfer matrix of an empty chain.
    pub fn identity() -> (m: Self)
        ensures
            m == Self::identity_value(),
    {
        TransferMatrix {
            a: Complex::one(),
            b: Complex::zero(),
            c: Complex::zero(),
            d: Complex::one(),
        }
    }

    /// Chains this element with the one that follows it towards the load:
    /// the matrix product `self * other`.
    pub fn chain(&self, other: &TransferMatrix<S>) -> (m: TransferMatrix<S>)
        ensures
            m == Self::chained(*self, *other),
    {
        TransferMatrix {
            a: self.a.times(other.a).plus(self.b.times(other.c)),
            b: self.a.times(other.b).plus(self.b.times(other.d)),
            c: self.c.times(other.a).plus(self.d.times(other.c)),
            d: self.c.times(other.b).plus(self.d.times(other.d)),
        }
    }

    /// Composes the matrices of a chain of elements, given in their order
    /// from source to load.
    pub fn cascade(matrices: &[TransferMatrix<S>]) -> (m: TransferMatrix<S>)
        ensures
            m == Self::cascade_of(matrices@),
    {
        let mut total = Self::identity();
        let mut i: usize = 0;
        while i < matrices.len()
            invariant
                i <= matrices.len(),
                total == Self::cascade_of(matrices@.take(i as int)),
            decreases matrices.len() - i,
        {
            total = total.chain(&matrices[i]);
            i += 1;
            assert(matrices@.take(i as int).drop_last() =~= matrices@.take(i - 1));
        }
        assert(matrices@.take(i as int) =~= matrices@);
        total
    }

    /// Computes `a + b/z_load + z_source c + z_source d/z_load`, the
    /// denominator of the pressure transfer function, from the source
    /// impedance and the reciprocal `y_load` of the load impedance.
    pub fn transfer_denominator(&self, z_source: S, y_load: S) -> (den: Complex<S>)
        ensures
            den == self.transfer_denominator_value(z_source, y_load),
    {
        let zs = Complex::from_real(z_source);
        let yl = Complex::from_real(y_load);
        self.a.plus(self.b.times(yl)).plus(zs.times(self.c)).plus(zs.times(self.d).times(yl))
    }

    /// The matrix of a straight duct. The caller supplies the cosine and the
    /// sine of the electrical length, the characteristic impedance `z` and
    /// its reciprocal `y`.
    pub fn straight_duct(cos_kl: S, sin_kl: S, z: S, y: S) -> (m: TransferMatrix<S>)
        ensures
            m == Self::straight_duct_value(cos_kl, sin_kl, z, y),
    {
        let cos = Complex::from_real(cos_kl);
        let sin = Complex::from_real(sin_kl);
        let j = Complex::i();
        TransferMatrix {
            a: cos,
            b: j.times(Complex::from_real(z)).times(sin),
            c: j.times(Complex::from_real(y)).times(sin),
            d: cos,
        }
    }
}

/// In exact arithmetic, chaining with the identity changes nothing, whether
/// the identity stands before an element or after it.
pub proof fn lemma_chain_identity<S: ExactSample>(m: TransferMatrix<S>)
    ensures
        TransferMatrix::chained(TransferMatrix::identity_value(), m) == m,
        TransferMatrix::chained(m, TransferMatrix::identity_value()) == m,
{
    lemma_unit_and_zero(m.a);
    lemma_unit_and_zero(m.b);
    lemma_unit_and_zero(m.c);
    lemma_unit_and_zero(m.d);
}

/// Chaining is associative. In exact arithmetic, it does not matter how a
/// chain of three elements is grouped, as long as their order is kept.
pub proof fn lemma_chain_associates<S: ExactSample>(
    m1: TransferMatrix<S>,
    m2: TransferMatrix<S>,
    m3: TransferMatrix<S>,
)
    ensures
        TransferMatrix::chained(TransferMatrix::chained(m1, m2), m3) == TransferMatrix::chained(
            m1,
            TransferMatrix::chained(m2, m3),
        ),
{
    lemma_sums_rearrange::<Complex<S>>();
    lemma_expansion_rules::<Complex<S>>();
    lemma_products_regroup::<Complex<S>>();
}

/// In exact arithmetic, the determinant of a chain is the product of the
/// determinants of its two parts.
pub proof fn lemma_determinant_of_chain<S: ExactSample>(m1: TransferMatrix<S>, m2: TransferMatrix<S>)
    ensures
        TransferMatrix::chained(m1, m2).determinant() == Complex::product(
            m1.determinant(),
            m2.determinant(),
        ),
{
    let (a, b, c, d) = (m1.a, m1.b, m1.c, m1.d);
    let (e, f, g, h) = (m2.a, m2.b, m2.c, m2.d);
    // the eight monomials of det(m1 m2), each with its factors paired by matrix
    lemma_product_interchange(a, e, c, f);
    lemma_product_interchange(a, e, d, h);
    lemma_product_interchange(b, g, c, f);
    lemma_product_interchange(b, g, d, h);
    lemma_product_interchange(a, f, c, e);
    lemma_product_interchange(a, f, d, g);
    lemma_product_interchange(b, h, c, e);
    lemma_product_interchange(b, h, d, g);
    Complex::product_commutes(e, f);
    Complex::product_commutes(g, f);
    Complex::product_commutes(h, e);
    Complex::product_commutes(h, g);
    let ac_ef = Complex::product(Complex::product(a, c), Complex::product(e, f));
    let bd_gh = Complex::product(Complex::product(b, d), Complex::product(g, h));
    lemma_negation_cancels(ac_ef);
    lemma_negation_cancels(bd_gh);
    let ad_eh = Complex::product(Complex::product(a, d), Complex::product(e, h));
    let bc_fg = Complex::product(Complex::product(b, c), Complex::product(f, g));
    let ad_fg = Complex::product(Complex::product(a, d), Complex::product(f, g));
    let bc_eh = Complex::product(Complex::product(b, c), Complex::product(e, h));
    let lhs = TransferMatrix::chained(m1, m2).determinant();
    let rhs = Complex::product(m1.determinant(), m2.determinant());
    assert(lhs == Complex::sum(
        Complex::sum(
            Complex::sum(ac_ef, ad_eh),
            Complex::sum(bc_fg, bd_gh),
        ),
        Complex::sum(
            Complex::sum(negation(ac_ef), negation(ad_fg)),
            Complex::sum(negation(bc_eh), negation(bd_gh)),
        ),
    )) by {
        lemma_expansion_rules::<Complex<S>>();
    }
    assert(rhs == Complex::sum(
        Complex::sum(ad_eh, negation(ad_fg)),
        Complex::sum(negation(bc_eh), bc_fg),
    )) by {
        lemma_expansion_rules::<Complex<S>>();
        lemma_double_negation(bc_fg);
    }
    assert(lhs == rhs) by {
        lemma_sums_rearrange::<Complex<S>>();
        Complex::sum_with_zero(ad_eh);
        Complex::sum_with_zero(bc_fg);
        Complex::sum_with_zero(Complex::sum(ad_eh, bc_fg));
    }
}

/// In exact arithmetic, the off-diagonal coefficients of a straight duct are
/// purely imaginary: `b = i (z sin kL)` and `c = i (y sin kL)`.
pub proof fn lemma_straight_duct_entries<S: ExactSample>(cos_kl: S, sin_kl: S, z: S, y: S)
    ensures
        TransferMatrix::straight_duct_value(cos_kl, sin_kl, z, y) == (TransferMatrix {
            a: Complex { re: cos_kl, im: S::zero_value() },
            b: Complex { re: S::zero_value(), im: S::product(z, sin_kl) },
            c: Complex { re: S::zero_value(), im: S::product(y, sin_kl) },
            d: Complex { re: cos_kl, im: S::zero_value() },
        }),
{
    lemma_imaginary_scaling(z, sin_kl);
    lemma_imaginary_scaling(y, sin_kl);
}

/// Reciprocity of a passive duct. In exact arithmetic, whenever
/// `cos^2 + sin^2 == 1` holds of the two trigonometric values and `y` is the
/// reciprocal of `z`, the duct's transfer matrix has determinant one.
pub proof fn lemma_straight_duct_reciprocal<S: ExactSample>(cos_kl: S, sin_kl: S, z: S, y: S)
    requires
        S::sum(S::product(cos_kl, cos_kl), S::product(sin_kl, sin_kl)) == S::one_value(),
        S::product(z, y) == S::one_value(),
    ensures
        TransferMatrix::straight_duct_value(cos_kl, sin_kl, z, y).determinant()
            == Complex::<S>::one_value(),
{
    let zero = S::zero_value();
    let m = TransferMatrix::straight_duct_value(cos_kl, sin_kl, z, y);
    lemma_straight_duct_entries(cos_kl, sin_kl, z, y);
    let zs = S::product(z, sin_kl);
    let ys = S::product(y, sin_kl);
    let cc = S::product(cos_kl, cos_kl);
    let ss = S::product(sin_kl, sin_kl);

    // a d == cos^2
    lemma_product_with_zero(cos_kl);
    lemma_product_with_zero(zero);
    lemma_difference_trivial(cc);
    lemma_zero_plus(zero);
    assert(Complex::product(m.a, m.d) == (Complex { re: cc, im: zero }));

    // b c == -(z sin)(y sin) == -sin^2
    lemma_product_with_zero(zs);
    lemma_product_with_zero(ys);
    let prod = S::product(zs, ys);
    assert(Complex::product(m.b, m.c) == (Complex { re: S::difference(zero, prod), im: zero }));
    assert(prod == ss) by {
        // (z s)(y s) == (z y)(s s)
        S::product_associates(z, sin_kl, ys);
        S::product_commutes(y, sin_kl);
        S::product_associates(sin_kl, sin_kl, y);
        S::product_commutes(ss, y);
        S::product_associates(z, y, ss);
        lemma_one_times(ss);
    }
    // cos^2 - (0 - sin^2) == cos^2 + sin^2
    let neg = S::difference(zero, ss);
    S::difference_cancels(zero, ss);
    S::sum_associates(cc, ss, neg);
    S::sum_commutes(ss, neg);
    S::sum_with_zero(cc);
    lemma_difference_is(cc, neg, S::sum(cc, ss));
    lemma_difference_trivial(zero);
}

/// An empty chain between matched impedances is transparent. In exact
/// arithmetic, the transfer denominator of the identity matrix is two when
/// the load impedance equals the source impedance `z` (so that `z y == 1`);
/// the transmission loss `20 log10(2 / 2)` is then zero.
pub proof fn lemma_identity_denominator<S: ExactSample>(z: S, y: S)
    requires
        S::product(z, y) == S::one_value(),
    ensures
        TransferMatrix::<S>::identity_value().transfer_denominator_value(z, y) == Complex::<
            S,
        >::real_value(twice(S::one_value())),
{
    let zero = S::zero_value();
    let one = S::one_value();
    lemma_unit_and_zero(zero);
    lemma_unit_and_zero(one);
    lemma_unit_and_zero(z);
    lemma_unit_and_zero(y);
    lemma_difference_trivial(zero);
    lemma_difference_trivial(one);
    lemma_difference_trivial(z);
    let id = TransferMatrix::<S>::identity_value();
    let zs = Complex::real_value(z);
    let yl = Complex::real_value(y);
    assert(Complex::product(id.b, yl) == Complex::<S>::zero_value());
    assert(Complex::product(zs, id.c) == Complex::<S>::zero_value());
    assert(Complex::product(zs, id.d) == zs);
    assert(Complex::product(zs, yl) == Complex::<S>::one_value());
}

/// The transfer denominator of an expansion chamber. In exact arithmetic, a
/// straight duct of impedance `zc` (reciprocal `yc`) between a source and a
/// load of impedance `zp` (reciprocal `yp`, so that `zp yp == 1`) has the
/// denominator `2 cos kL + i sin kL (zc/zp + zp/zc)`.
pub proof fn lemma_chamber_denominator<S: ExactSample>(
    cos_kl: S,
    sin_kl: S,
    zc: S,
    yc: S,
    zp: S,
    yp: S,
)
    requires
        S::product(zp, yp) == S::one_value(),
    ensures
        TransferMatrix::straight_duct_value(cos_kl, sin_kl, zc, yc).transfer_denominator_value(
            zp,
            yp,
        ) == (Complex {
            re: twice(cos_kl),
            im: S::product(sin_kl, S::sum(S::product(zc, yp), S::product(zp, yc))),
        }),
{
    let zero = S::zero_value();
    let duct = TransferMatrix::straight_duct_value(cos_kl, sin_kl, zc, yc);
    let zs = Complex::real_value(zp);
    let yl = Complex::real_value(yp);
    lemma_straight_duct_entries(cos_kl, sin_kl, zc, yc);
    let zc_sin = S::product(zc, sin_kl);
    let yc_sin = S::product(yc, sin_kl);
    assert(Complex::product(duct.b, yl) == (Complex { re: zero, im: S::product(zc_sin, yp) }))
        by {
        lemma_unit_rules::<S>();
    }
    assert(Complex::product(zs, duct.c) == (Complex { re: zero, im: S::product(zp, yc_sin) }))
        by {
        lemma_unit_rules::<S>();
    }
    assert(Complex::product(Complex::product(zs, duct.d), yl) == (Complex {
        re: cos_kl,
        im: zero,
    })) by {
        lemma_unit_rules::<S>();
        // (zp cos) yp == cos (zp yp)
        S::product_commutes(zp, cos_kl);
        S::product_associates(cos_kl, zp, yp);
    }
    assert(S::sum(S::product(zc_sin, yp), S::product(zp, yc_sin)) == S::product(
        sin_kl,
        S::sum(S::product(zc, yp), S::product(zp, yc)),
    )) by {
        S::product_commutes(zc, sin_kl);
        S::product_associates(sin_kl, zc, yp);
        S::product_commutes(yc, sin_kl);
        S::product_associates(zp, sin_kl, yc);
        S::product_commutes(zp, sin_kl);
        S::product_associates(sin_kl, zp, yc);
        S::product_distributes(sin_kl, S::product(zc, yp), S::product(zp, yc));
    }
    lemma_unit_rules::<S>();
}

/// The closed form of an expansion chamber's transmission loss. In exact
/// arithmetic, with `cos^2 + sin^2 == 1` and with `yc`, `yp` the reciprocals
/// of the chamber's and the pipes' impedances, the squared modulus of the
/// transfer denominator is `4 + sin^2 kL (m - 1/m)^2`, where `m = zp/zc` is
/// the ratio of the chamber's cross-section to the pipes'. A quarter of it is
/// `1 + (m - 1/m)^2 sin^2 kL / 4`, whose `10 log10` is the transmission loss.
pub proof fn lemma_expansion_chamber_closed_form<S: ExactSample>(
    cos_kl: S,
    sin_kl: S,
    zc: S,
    yc: S,
    zp: S,
    yp: S,
)
    requires
        S::sum(S::product(cos_kl, cos_kl), S::product(sin_kl, sin_kl)) == S::one_value(),
        S::product(zc, yc) == S::one_value(),
        S::product(zp, yp) == S::one_value(),
    ensures
        norm_sqr(
            TransferMatrix::straight_duct_value(
                cos_kl,
                sin_kl,
                zc,
                yc,
            ).transfer_denominator_value(zp, yp),
        ) == S::sum(
            twice(twice(S::one_value())),
            S::product(
                S::product(sin_kl, sin_kl),
                S::product(
                    S::difference(S::product(zp, yc), S::product(zc, yp)),
                    S::difference(S::product(zp, yc), S::product(zc, yp)),
                ),
            ),
        ),
{
    let one = S::one_value();
    let m = S::product(zp, yc);
    let w = S::product(zc, yp);
    let cc = S::product(cos_kl, cos_kl);
    let ss = S::product(sin_kl, sin_kl);
    let t = S::sum(w, m);
    let gap = S::difference(m, w);
    let four = twice(twice(one));
    lemma_chamber_denominator(cos_kl, sin_kl, zc, yc, zp, yp);
    let re = twice(cos_kl);
    let im = S::product(sin_kl, t);

    // re^2 == 4 cos^2
    assert(S::product(re, re) == twice(twice(cc))) by {
        lemma_expansion_rules::<S>();
    }
    // w m == (zc yc)(yp zp) == 1
    assert(S::product(w, m) == one && S::product(m, w) == one) by {
        S::product_commutes(zp, yc);
        lemma_product_interchange(zc, yp, yc, zp);
        S::product_commutes(yp, zp);
        S::product_with_one(one);
        S::product_commutes(w, m);
    }
    // (w + m)^2 == (m - w)^2 + 4
    let ww = S::product(w, w);
    let mm = S::product(m, m);
    assert(S::product(t, t) == S::sum(S::sum(ww, one), S::sum(one, mm))) by {
        lemma_expansion_rules::<S>();
    }
    assert(S::product(gap, gap) == S::sum(
        S::sum(mm, negation(one)),
        S::sum(negation(one), ww),
    )) by {
        lemma_expansion_rules::<S>();
        lemma_double_negation(ww);
    }
    assert(S::product(t, t) == S::sum(S::product(gap, gap), four)) by {
        lemma_sums_rearrange::<S>();
        lemma_negation_cancels(one);
        S::sum_with_zero(one);
        S::sum_with_zero(mm);
        S::sum_with_zero(ww);
        S::sum_with_zero(S::sum(mm, ww));
        S::sum_with_zero(S::sum(ww, mm));
    }
    // im^2 == sin^2 (w + m)^2 == sin^2 (m - w)^2 + 4 sin^2
    let q = S::product(ss, S::product(gap, gap));
    assert(S::product(im, im) == S::sum(q, twice(twice(ss)))) by {
        lemma_product_interchange(sin_kl, t, sin_kl, t);
        S::product_distributes(ss, S::product(gap, gap), four);
        S::product_distributes(ss, twice(one), twice(one));
        S::product_distributes(ss, one, one);
        S::product_with_one(ss);
    }
    // 4 cos^2 + 4 sin^2 == 4 (cos^2 + sin^2) == 4
    assert(S::sum(twice(twice(cc)), twice(twice(ss))) == four) by {
        lemma_sums_rearrange::<S>();
    }
    assert(S::sum(twice(twice(cc)), S::sum(q, twice(twice(ss)))) == S::sum(four, q)) by {
        S::sum_commutes(q, twice(twice(ss)));
        S::sum_associates(twice(twice(cc)), twice(twice(ss)), q);
    }
}

/// No loss at resonance. In exact arithmetic, where `sin kL == 0` the squared
/// modulus of an expansion chamber's transfer denominator is four, whatever
/// the area ratio is; the transmission loss `10 log10(4 / 4)` is then zero.
pub proof fn lemma_expansion_chamber_resonance<S: ExactSample>(
    cos_kl: S,
    zc: S,
    yc: S,
    zp: S,
    yp: S,
)
    requires
        S::product(cos_kl, cos_kl) == S::one_value(),
        S::product(zc, yc) == S::one_value(),
        S::product(zp, yp) == S::one_value(),
    ensures
        norm_sqr(
            TransferMatrix::straight_duct_value(
                cos_kl,
                S::zero_value(),
                zc,
                yc,
            ).transfer_denominator_value(zp, yp),
        ) == twice(twice(S::one_value())),
{
    let zero = S::zero_value();
    let gap = S::difference(S::product(zp, yc), S::product(zc, yp));
    lemma_product_with_zero(zero);
    S::sum_with_zero(S::one_value());
    lemma_expansion_chamber_closed_form(cos_kl, zero, zc, yc, zp, yp);
    lemma_product_with_zero(S::product(gap, gap));
    S::sum_with_zero(twice(twice(S::one_value())));
}

/// The peak of the loss. In exact arithmetic, where `cos kL == 0` (and so
/// `sin^2 kL == 1`) the squared modulus of an expansion chamber's transfer
/// denominator is `4 + (m - 1/m)^2`, with `m = zp/zc` the area ratio.
pub proof fn lemma_expansion_chamber_peak<S: ExactSample>(
    sin_kl: S,
    zc: S,
    yc: S,
    zp: S,
    yp: S,
)
    requires
        S::product(sin_kl, sin_kl) == S::one_value(),
        S::product(zc, yc) == S::one_value(),
        S::product(zp, yp) == S::one_value(),
    ensures
        norm_sqr(
            TransferMatrix::straight_duct_value(
                S::zero_value(),
                sin_kl,
                zc,
                yc,
            ).transfer_denominator_value(zp, yp),
        ) == S::sum(
            twice(twice(S::one_value())),
            S::product(
                S::difference(S::product(zp, yc), S::product(zc, yp)),
                S::difference(S::product(zp, yc), S::product(zc, yp)),
            ),
        ),
{
    let zero = S::zero_value();
    let gap = S::difference(S::product(zp, yc), S::product(zc, yp));
    lemma_product_with_zero(zero);
    lemma_zero_plus(S::one_value());
    lemma_expansion_chamber_closed_form(zero, sin_kl, zc, yc, zp, yp);
    lemma_one_times(S::product(gap, gap));
}

/// In exact arithmetic, the identity matrix has determinant one.
pub proof fn lemma_identity_determinant<S: ExactSample>()
    ensures
        TransferMatrix::<S>::identity_value().determinant() == Complex::<S>::one_value(),
{
    let one = Complex::<S>::one_value();
    let zero = Complex::<S>::zero_value();
    lemma_unit_and_zero(one);
    lemma_unit_and_zero(zero);
    lemma_difference_trivial(one);
}

/// In exact arithmetic, the cascade of a chain that is cut in two is the
/// cascade of the first part chained with the cascade of the second.
pub proof fn lemma_cascade_splits<S: ExactSample>(
    first: Seq<TransferMatrix<S>>,
    second: Seq<TransferMatrix<S>>,
)
    ensures
        TransferMatrix::cascade_of(first + second) == TransferMatrix::chained(
            TransferMatrix::cascade_of(first),
            TransferMatrix::cascade_of(second),
        ),
    decreases second.len(),
{
    if second.len() == 0 {
        assert(first + second =~= first);
        lemma_chain_identity(TransferMatrix::cascade_of(first));
    } else {
        let whole = first + second;
        assert(whole.drop_last() =~= first + second.drop_last());
        assert(whole.last() == second.last());
        lemma_cascade_splits(first, second.drop_last());
        lemma_chain_associates(
            TransferMatrix::cascade_of(first),
            TransferMatrix::cascade_of(second.drop_last()),
            second.last(),
        );
    }
}

/// Reciprocity carries over to chains. In exact arithmetic, a chain of
/// elements whose matrices all have determinant one has determinant one.
pub proof fn lemma_cascade_reciprocal<S: ExactSample>(matrices: Seq<TransferMatrix<S>>)
    requires
        forall|i: int|
            0 <= i < matrices.len() ==> (#[trigger] matrices[i]).determinant()
                == Complex::<S>::one_value(),
    ensures
        TransferMatrix::cascade_of(matrices).determinant() == Complex::<S>::one_value(),
    decreases matrices.len(),
{
    if matrices.len() == 0 {
        lemma_identity_determinant::<S>();
    } else {
        let before = matrices.drop_last();
        lemma_cascade_reciprocal(before);
        lemma_determinant_of_chain(TransferMatrix::cascade_of(before), matrices.last());
        lemma_unit_and_zero(Complex::<S>::one_value());
    }
}

/// The cascade of a single element is, in exact arithmetic, that element's
/// own matrix.
pub proof fn lemma_cascade_of_one<S: ExactSample>(m: TransferMatrix<S>)
    ensures
        TransferMatrix::cascade_of(seq![m]) == m,
{
    let s = seq![m];
    assert(s.drop_last() =~= Seq::<TransferMatrix<S>>::empty());
    assert(TransferMatrix::cascade_of(s.drop_last()) == TransferMatrix::<S>::identity_value());
    lemma_chain_identity(m);
}

} // verus!
