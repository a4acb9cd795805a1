//! Nothing is lost in overlap-add: in exact arithmetic, what a block puts
//! out and what it leaves pending add up to what was pending before and what
//! the block's convolution produced, whatever the lengths involved are.
use crate::audio::convolution::{
    block_output, carried_at, conv_at, conv_partial, mixed_at, next_overlap, unconsumed,
};
use crate::ring::{
    lemma_product_distributes_right, lemma_product_with_zero, lemma_sums_rearrange,
    lemma_zero_plus,
};
use crate::sample::{ExactSample, Sample};
use vstd::prelude::*;

verus! {

/// The sum of all samples of a sequence, taken from the first to the last.
pub open spec fn total<S: Sample>(s: Seq<S>) -> S
    decreases s.len(),
{
    if s.len() == 0 {
        S::zero_value()
    } else {
        S::sum(total(s.drop_last()), s.last())
    }
}

/// `len` samples of silence.
pub open spec fn zeros<S: Sample>(len: nat) -> Seq<S> {
    Seq::new(len, |i: int| S::zero_value())
}

/// A sequence brought to length `len` with silence at its end.
pub open spec fn padded<S: Sample>(s: Seq<S>, len: nat) -> Seq<S> {
    Seq::new(
        len,
        |i: int|
            if i < s.len() {
                s[i]
            } else {
                S::zero_value()
            },
    )
}

/// The sample-by-sample sum of two sequences of one length.
pub open spec fn added<S: Sample>(a: Seq<S>, b: Seq<S>) -> Seq<S> {
    Seq::new(a.len(), |i: int| S::sum(a[i], b[i]))
}

/// In exact arithmetic, silence sums to zero.
pub proof fn lemma_total_of_zeros<S: ExactSample>(len: nat)
    ensures
        total(zeros::<S>(len)) == S::zero_value(),
    decreases len,
{
    if len > 0 {
        assert(zeros::<S>(len).drop_last() =~= zeros::<S>((len - 1) as nat));
        lemma_total_of_zeros::<S>((len - 1) as nat);
        S::sum_with_zero(S::zero_value());
    }
}

/// In exact arithmetic, the total of two sequences joined is the sum of
/// their totals.
pub proof fn lemma_total_of_concat<S: ExactSample>(a: Seq<S>, b: Seq<S>)
    ensures
        total(a + b) == S::sum(total(a), total(b)),
    decreases b.len(),
{
    if b.len() == 0 {
        assert(a + b =~= a);
        S::sum_with_zero(total(a));
    } else {
        assert((a + b).drop_last() =~= a + b.drop_last());
        lemma_total_of_concat(a, b.drop_last());
        S::sum_associates(total(a), total(b.drop_last()), b.last());
    }
}

/// In exact arithmetic, silence at the end of a sequence does not change its
/// total.
pub proof fn lemma_total_of_padded<S: ExactSample>(s: Seq<S>, len: nat)
    requires
        s.len() <= len,
    ensures
        total(padded(s, len)) == total(s),
{
    assert(padded(s, len) =~= s + zeros::<S>((len - s.len()) as nat));
    lemma_total_of_concat(s, zeros::<S>((len - s.len()) as nat));
    lemma_total_of_zeros::<S>((len - s.len()) as nat);
    S::sum_with_zero(total(s));
}

/// In exact arithmetic, the total of a sample-by-sample sum is the sum of
/// the totals.
pub proof fn lemma_total_of_added<S: ExactSample>(a: Seq<S>, b: Seq<S>)
    requires
        a.len() == b.len(),
    ensures
        total(added(a, b)) == S::sum(total(a), total(b)),
    decreases a.len(),
{
    if a.len() == 0 {
        S::sum_with_zero(S::zero_value());
    } else {
        assert(added(a, b).drop_last() =~= added(a.drop_last(), b.drop_last()));
        lemma_total_of_added(a.drop_last(), b.drop_last());
        lemma_sums_rearrange::<S>();
    }
}

/// In exact arithmetic, a factor common to all samples can be taken out of
/// their total.
pub proof fn lemma_total_of_scaled<S: ExactSample>(c: S, h: Seq<S>)
    ensures
        total(Seq::new(h.len(), |j: int| S::product(c, h[j]))) == S::product(c, total(h)),
    decreases h.len(),
{
    let scaled = Seq::new(h.len(), |j: int| S::product(c, h[j]));
    if h.len() == 0 {
        lemma_product_with_zero(c);
    } else {
        let front = h.drop_last();
        assert(scaled.drop_last() =~= Seq::new(front.len(), |j: int| S::product(c, front[j])));
        lemma_total_of_scaled(c, front);
        S::product_distributes(c, total(front), h.last());
    }
}

/// The convolution of the first `m` input samples with `h`, at every
/// position of the whole convolution.
pub open spec fn partial_convolution<S: Sample>(x: Seq<S>, h: Seq<S>, m: nat) -> Seq<S> {
    Seq::new((x.len() + h.len() - 1) as nat, |n: int| conv_partial(x, h, n, m))
}

/// In exact arithmetic, the samples of a convolution sum to the product of
/// the totals of its two factors. Here for the first `m` input samples.
pub proof fn lemma_total_of_partial_convolution<S: ExactSample>(x: Seq<S>, h: Seq<S>, m: nat)
    requires
        m <= x.len(),
        h.len() >= 1,
    ensures
        total(partial_convolution(x, h, m)) == S::product(total(x.take(m as int)), total(h)),
    decreases m,
{
    let len = (x.len() + h.len() - 1) as nat;
    let row = partial_convolution(x, h, m);
    if m == 0 {
        assert(row =~= zeros::<S>(len));
        lemma_total_of_zeros::<S>(len);
        assert(x.take(0) =~= Seq::<S>::empty());
        lemma_product_with_zero(total(h));
    } else {
        let i = (m - 1) as nat;
        let before = partial_convolution(x, h, i);
        let scaled = Seq::new(h.len(), |j: int| S::product(x[i as int], h[j]));
        let term = zeros::<S>(i) + scaled + zeros::<S>((len - i - h.len()) as nat);
        assert(row =~= added(before, term)) by {
            assert forall|n: int| 0 <= n < len implies row[n] == S::sum(before[n], term[n]) by {
                if 0 <= n - i < h.len() {
                    assert(term[n] == scaled[n - i]);
                } else {
                    S::sum_with_zero(before[n]);
                }
            }
        }
        lemma_total_of_added(before, term);
        lemma_total_of_partial_convolution(x, h, i);
        // the term sums to x[i] * total(h)
        lemma_total_of_concat(zeros::<S>(i) + scaled, zeros::<S>((len - i - h.len()) as nat));
        lemma_total_of_concat(zeros::<S>(i), scaled);
        lemma_total_of_zeros::<S>(i);
        lemma_total_of_zeros::<S>((len - i - h.len()) as nat);
        lemma_total_of_scaled(x[i as int], h);
        lemma_zero_plus(total(scaled));
        S::sum_with_zero(total(scaled));
        // total(x[..m]) == total(x[..i]) + x[i]
        assert(x.take(m as int).drop_last() =~= x.take(i as int));
        assert(x.take(m as int).last() == x[i as int]);
        lemma_product_distributes_right(total(x.take(i as int)), x[i as int], total(h));
    }
}

/// In exact arithmetic, the samples of a whole convolution sum to the
/// product of the total of the block and the total of the impulse response.
pub proof fn lemma_total_of_convolution<S: ExactSample>(x: Seq<S>, h: Seq<S>)
    requires
        h.len() >= 1,
    ensures
        total(Seq::new((x.len() + h.len() - 1) as nat, |n: int| conv_at(x, h, n))) == S::product(
            total(x),
            total(h),
        ),
{
    lemma_total_of_partial_convolution(x, h, x.len());
    assert(x.take(x.len() as int) =~= x);
    assert(partial_convolution(x, h, x.len()) =~= Seq::new(
        (x.len() + h.len() - 1) as nat,
        |n: int| conv_at(x, h, n),
    ));
}

/// In exact arithmetic: if output and spill together are the convolution
/// and the used part of the tail, then output, rest and spill together are
/// the whole tail and the convolution.
proof fn lemma_balance<S: ExactSample>(out: S, spill: S, rest: S, used: S, conv: S)
    requires
        S::sum(out, spill) == S::sum(conv, used),
    ensures
        S::sum(out, S::sum(rest, spill)) == S::sum(S::sum(used, rest), conv),
{
    // out + (rest + spill) == (out + spill) + rest
    S::sum_commutes(rest, spill);
    S::sum_associates(out, spill, rest);
    // (conv + used) + rest == conv + (used + rest) == (used + rest) + conv
    S::sum_associates(conv, used, rest);
    S::sum_commutes(conv, S::sum(used, rest));
}

/// Overlap-add conserves the signal. In exact arithmetic, for every impulse
/// response, every pending tail and every block: the samples that the block
/// returns and the samples that stay pending afterwards sum to what was
/// pending before plus the total of the block times the total of the
/// impulse response. In particular a swap to a shorter impulse response, or
/// to an empty one, drops nothing of a long tail.
pub proof fn lemma_overlap_add_conserves<S: ExactSample>(h: Seq<S>, tail: Seq<S>, x: Seq<S>)
    ensures
        S::sum(total(block_output(h, tail, x)), total(next_overlap(h, tail, x))) == S::sum(
            total(tail),
            S::product(total(x), total(h)),
        ),
{
    if h.len() == 0 || x.len() == 0 {
        assert(block_output(h, tail, x) =~= zeros::<S>(x.len()));
        lemma_total_of_zeros::<S>(x.len());
        lemma_product_with_zero(total(x));
        lemma_product_with_zero(total(h));
        lemma_zero_plus(total(tail));
        S::sum_with_zero(total(tail));
    } else {
        let len = (x.len() + h.len() - 1) as nat;
        let conv = Seq::new(len, |n: int| conv_at(x, h, n));
        let mixed = Seq::new(len, |n: int| mixed_at(x, h, tail, n));
        let rest = unconsumed(tail, len as int);
        let used = tail.take(tail.len() - rest.len());
        let out = block_output(h, tail, x);
        let spill = mixed.skip(x.len() as int);
        let next = next_overlap(h, tail, x);

        // the convolution
        lemma_total_of_convolution(x, h);

        // mixing the old tail in: total(mixed) == total(conv) + total(used)
        assert(mixed =~= added(conv, padded(used, len))) by {
            assert forall|n: int| 0 <= n < len implies mixed[n] == S::sum(
                conv[n],
                padded(used, len)[n],
            ) by {
                if n >= tail.len() {
                    S::sum_with_zero(conv[n]);
                }
            }
        }
        lemma_total_of_added(conv, padded(used, len));
        lemma_total_of_padded(used, len);

        // the old tail is what was used and what was not
        assert(tail =~= used + rest);
        lemma_total_of_concat(used, rest);

        // the mix is the output and the spill
        assert(mixed =~= out + spill);
        lemma_total_of_concat(out, spill);

        // the new tail is the rest and the spill
        if h.len() == 1 {
            assert(spill =~= Seq::<S>::empty());
            assert(next == rest);
            S::sum_with_zero(total(rest));
        } else {
            assert(next =~= added(padded(rest, next.len()), padded(spill, next.len()))) by {
                assert forall|i: int| 0 <= i < next.len() implies next[i] == S::sum(
                    padded(rest, next.len())[i],
                    padded(spill, next.len())[i],
                ) by {
                    assert(next[i] == carried_at(x, h, tail, i));
                    if i < rest.len() {
                        lemma_zero_plus(rest[i]);
                    }
                    if i >= h.len() - 1 {
                        S::sum_with_zero(padded(rest, next.len())[i]);
                    }
                }
            }
            lemma_total_of_added(padded(rest, next.len()), padded(spill, next.len()));
            lemma_total_of_padded(rest, next.len());
            lemma_total_of_padded(spill, next.len());
        }
        assert(total(next) == S::sum(total(rest), total(spill)));
        lemma_balance(total(out), total(spill), total(rest), total(used), total(conv));
    }
}

} // verus!
