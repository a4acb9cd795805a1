//! Streaming overlap-add convolution: a stream is convolved block by block,
//! and what a block's convolution produces past its own end is added to the
//! blocks that follow.
use crate::ring::lemma_zero_plus;
use crate::sample::{ExactSample, Sample};
use vstd::prelude::*;

verus! {

/// The contributions of the first `m` input samples to position `n` of the
/// convolution of `x` with `h`, accumulated in input order.
pub open spec fn conv_partial<S: Sample>(x: Seq<S>, h: Seq<S>, n: int, m: nat) -> S
    decreases m,
{
    if m == 0 {
        S::zero_value()
    } else {
        let before = conv_partial(x, h, n, (m - 1) as nat);
        let i = m - 1;
        if 0 <= n - i < h.len() {
            S::sum(before, S::product(x[i], h[n - i]))
        } else {
            before
        }
    }
}

/// Position `n` of the direct convolution of a block `x` with the impulse
/// response `h`: the sum of `x[i] * h[j]` over `i + j == n`, taken with `i`
/// ascending.
pub open spec fn conv_at<S: Sample>(x: Seq<S>, h: Seq<S>, n: int) -> S {
    conv_partial(x, h, n, x.len())
}

/// Position `n` of a block's convolution after the tail that earlier blocks
/// left behind has been added to its head.
pub open spec fn mixed_at<S: Sample>(x: Seq<S>, h: Seq<S>, tail: Seq<S>, n: int) -> S {
    if n < tail.len() {
        S::sum(conv_at(x, h, n), tail[n])
    } else {
        conv_at(x, h, n)
    }
}

/// The part of a pending tail that reaches beyond a whole convolution of
/// length `conv_len`, and so cannot be consumed by it.
pub open spec fn unconsumed<S>(tail: Seq<S>, conv_len: int) -> Seq<S> {
    if tail.len() > conv_len && conv_len >= 0 {
        tail.subrange(conv_len, tail.len() as int)
    } else {
        Seq::empty()
    }
}

/// Position `i` of the tail kept for the next block: what is left of the old
/// tail, and on top of it what the current block spills past its own end.
pub open spec fn carried_at<S: Sample>(x: Seq<S>, h: Seq<S>, tail: Seq<S>, i: int) -> S {
    let rest = unconsumed(tail, x.len() + h.len() - 1);
    let kept = if i < rest.len() {
        S::sum(S::zero_value(), rest[i])
    } else {
        S::zero_value()
    };
    if i < h.len() - 1 {
        S::sum(kept, mixed_at(x, h, tail, x.len() + i))
    } else {
        kept
    }
}

/// The samples that processing the block `x` returns, for an engine with
/// impulse response `h` and pending tail `tail`.
pub open spec fn block_output<S: Sample>(h: Seq<S>, tail: Seq<S>, x: Seq<S>) -> Seq<S> {
    if h.len() == 0 || x.len() == 0 {
        Seq::new(x.len(), |n: int| S::zero_value())
    } else {
        Seq::new(x.len(), |n: int| mixed_at(x, h, tail, n))
    }
}

/// The tail that the engine keeps after processing the block `x`.
pub open spec fn next_overlap<S: Sample>(h: Seq<S>, tail: Seq<S>, x: Seq<S>) -> Seq<S> {
    if h.len() == 0 || x.len() == 0 {
        tail
    } else {
        let rest = unconsumed(tail, x.len() + h.len() - 1);
        if h.len() == 1 {
            rest
        } else {
            let spill = (h.len() - 1) as nat;
            let needed = if spill >= rest.len() {
                spill
            } else {
                rest.len()
            };
            Seq::new(needed, |i: int| carried_at(x, h, tail, i))
        }
    }
}

/// Samples that are not yet there contribute nothing: the first `m` terms of
/// a convolution depend on the first `m` input samples only.
pub proof fn lemma_conv_partial_prefix<S: Sample>(x: Seq<S>, y: Seq<S>, h: Seq<S>, n: int, m: nat)
    requires
        m <= x.len(),
        m <= y.len(),
        forall|i: int| 0 <= i < m ==> x[i] == y[i],
    ensures
        conv_partial(x, h, n, m) == conv_partial(y, h, n, m),
    decreases m,
{
    if m > 0 {
        lemma_conv_partial_prefix(x, y, h, n, (m - 1) as nat);
    }
}

/// Input samples whose index is too far from `n` to meet any tap of the
/// impulse response leave position `n` at zero.
pub proof fn lemma_conv_partial_out_of_reach<S: Sample>(x: Seq<S>, h: Seq<S>, n: int, m: nat)
    requires
        n < 0 || n - (m - 1) >= h.len(),
    ensures
        conv_partial(x, h, n, m) == S::zero_value(),
    decreases m,
{
    if m > 0 {
        lemma_conv_partial_out_of_reach(x, h, n, (m - 1) as nat);
    }
}

/// Against a one-tap response `[k]`, position `n` of the convolution holds
/// the single term `x[n] * k`, added to the zero that the sum started from.
pub proof fn lemma_conv_one_tap<S: Sample>(x: Seq<S>, k: S, n: int, m: nat)
    requires
        0 <= n,
    ensures
        conv_partial(x, seq![k], n, m) == (if n < m {
            S::sum(S::zero_value(), S::product(x[n], k))
        } else {
            S::zero_value()
        }),
    decreases m,
{
    if m > 0 {
        lemma_conv_one_tap(x, k, n, (m - 1) as nat);
    }
}

/// An engine without impulse response is silent: it returns as many zeros as
/// samples came in, and its pending tail stays as it was.
pub proof fn lemma_empty_response_is_silent<S: Sample>(tail: Seq<S>, x: Seq<S>)
    ensures
        block_output(Seq::<S>::empty(), tail, x) == Seq::new(x.len(), |n: int| S::zero_value()),
        next_overlap(Seq::<S>::empty(), tail, x) == tail,
{
}

/// Every block comes back at its own length, whatever the impulse response
/// and the pending tail are.
pub proof fn lemma_output_length<S: Sample>(h: Seq<S>, tail: Seq<S>, x: Seq<S>)
    ensures
        block_output(h, tail, x).len() == x.len(),
{
}

/// How long the pending tail is after a block: the `h.len() - 1` samples that
/// the block spills, or what is left of a longer old tail, whichever is more.
/// Nothing of the old tail is dropped.
pub proof fn lemma_overlap_length<S: Sample>(h: Seq<S>, tail: Seq<S>, x: Seq<S>)
    requires
        h.len() >= 1,
        x.len() >= 1,
    ensures
        next_overlap(h, tail, x).len() == (if tail.len() - (x.len() + h.len() - 1) >= h.len() - 1 {
            tail.len() - (x.len() + h.len() - 1)
        } else {
            h.len() - 1
        }),
        tail.len() <= x.len() + h.len() - 1 ==> next_overlap(h, tail, x).len() == h.len() - 1,
{
}

/// With a one-tap response `[k]` and nothing pending, each output sample is
/// the product `x[n] * k` added to zero, and nothing is left pending.
pub proof fn lemma_one_tap_response<S: Sample>(k: S, x: Seq<S>)
    ensures
        block_output(seq![k], Seq::<S>::empty(), x) == Seq::new(
            x.len(),
            |n: int| S::sum(S::zero_value(), S::product(x[n], k)),
        ),
        next_overlap(seq![k], Seq::<S>::empty(), x) == Seq::<S>::empty(),
{
    let h = seq![k];
    let none = Seq::<S>::empty();
    assert forall|n: int| 0 <= n < x.len() implies mixed_at(x, h, none, n) == S::sum(
        S::zero_value(),
        S::product(x[n], k),
    ) by {
        lemma_conv_one_tap(x, k, n, x.len());
    }
    assert(block_output(h, none, x) =~= Seq::new(
        x.len(),
        |n: int| S::sum(S::zero_value(), S::product(x[n], k)),
    ));
    assert(next_overlap(h, none, x) =~= none);
}

/// In exact arithmetic, a one-tap response `[k]` scales the block: the output
/// is `k * x[n]` sample by sample.
pub proof fn lemma_scalar_response_scales<S: ExactSample>(k: S, x: Seq<S>)
    ensures
        block_output(seq![k], Seq::<S>::empty(), x) == Seq::new(
            x.len(),
            |n: int| S::product(k, x[n]),
        ),
        next_overlap(seq![k], Seq::<S>::empty(), x) == Seq::<S>::empty(),
{
    lemma_one_tap_response(k, x);
    assert forall|n: int| 0 <= n < x.len() implies S::sum(
        S::zero_value(),
        S::product(x[n], k),
    ) == S::product(k, x[n]) by {
        lemma_zero_plus(S::product(x[n], k));
        S::product_commutes(x[n], k);
    }
    assert(block_output(seq![k], Seq::<S>::empty(), x) =~= Seq::new(
        x.len(),
        |n: int| S::product(k, x[n]),
    ));
}

/// In exact arithmetic, the unit impulse passes every block through
/// unchanged.
pub proof fn lemma_unit_impulse_is_identity<S: ExactSample>(x: Seq<S>)
    ensures
        block_output(seq![S::one_value()], Seq::<S>::empty(), x) == x,
        next_overlap(seq![S::one_value()], Seq::<S>::empty(), x) == Seq::<S>::empty(),
{
    lemma_scalar_response_scales(S::one_value(), x);
    assert forall|n: int| 0 <= n < x.len() implies S::product(S::one_value(), x[n]) == x[n] by {
        S::product_commutes(S::one_value(), x[n]);
        S::product_with_one(x[n]);
    }
    assert(block_output(seq![S::one_value()], Seq::<S>::empty(), x) =~= x);
}

/// The tail that a whole stream `s` leaves behind: the positions of its
/// convolution with `h` that lie past its end.
pub open spec fn stream_tail<S: Sample>(h: Seq<S>, s: Seq<S>) -> Seq<S> {
    if s.len() == 0 || h.len() == 0 {
        Seq::empty()
    } else {
        Seq::new((h.len() - 1) as nat, |i: int| conv_at(s, h, s.len() + i))
    }
}

/// In exact arithmetic, the convolution of a stream continued by a block is,
/// term by term, the block's own convolution plus what the stream left at
/// that position.
pub proof fn lemma_conv_continues<S: ExactSample>(s: Seq<S>, x: Seq<S>, h: Seq<S>, p: int, m: nat)
    requires
        m <= x.len(),
    ensures
        conv_partial(s + x, h, p, (s.len() + m) as nat) == S::sum(
            conv_partial(x, h, p - s.len(), m),
            conv_at(s, h, p),
        ),
    decreases m,
{
    let whole = s + x;
    if m == 0 {
        lemma_conv_partial_prefix(whole, s, h, p, s.len());
        lemma_zero_plus(conv_at(s, h, p));
    } else {
        lemma_conv_continues(s, x, h, p, (m - 1) as nat);
        let i = m - 1;
        assert(whole[s.len() + i] == x[i]);
        let before = conv_partial(x, h, p - s.len(), (m - 1) as nat);
        let left = conv_at(s, h, p);
        if 0 <= p - s.len() - i < h.len() {
            let term = S::product(x[i], h[p - s.len() - i]);
            // (before + left) + term == (before + term) + left
            S::sum_associates(before, left, term);
            S::sum_commutes(left, term);
            S::sum_associates(before, term, left);
        }
    }
}

/// Overlap-add is seamless. In exact arithmetic, an engine whose pending tail
/// is what the stream `s` left behind answers the next block `x` with the
/// samples that one convolution of the whole stream `s + x` holds at the
/// block's positions, and keeps the tail that the whole stream leaves.
pub proof fn lemma_streaming_matches_whole<S: ExactSample>(h: Seq<S>, s: Seq<S>, x: Seq<S>)
    requires
        h.len() >= 1,
        x.len() >= 1,
    ensures
        block_output(h, stream_tail(h, s), x) == Seq::new(
            x.len(),
            |n: int| conv_at(s + x, h, s.len() + n),
        ),
        next_overlap(h, stream_tail(h, s), x) == stream_tail(h, s + x),
{
    let tail = stream_tail(h, s);
    let whole = s + x;
    assert forall|n: int| 0 <= n < x.len() + h.len() - 1 implies mixed_at(x, h, tail, n)
        == conv_at(whole, h, s.len() + n) by {
        lemma_conv_continues(s, x, h, s.len() + n, x.len());
        assert((s.len() + x.len()) as nat == whole.len());
        if n < tail.len() {
            assert(tail[n] == conv_at(s, h, s.len() + n));
        } else {
            if s.len() > 0 {
                lemma_conv_partial_out_of_reach(s, h, s.len() + n, s.len());
            }
            S::sum_with_zero(conv_at(x, h, n));
        }
    }
    assert(block_output(h, tail, x) =~= Seq::new(
        x.len(),
        |n: int| conv_at(whole, h, s.len() + n),
    ));
    assert(unconsumed(tail, x.len() + h.len() - 1) =~= Seq::<S>::empty());
    if h.len() > 1 {
        assert forall|i: int| 0 <= i < h.len() - 1 implies carried_at(x, h, tail, i) == conv_at(
            whole,
            h,
            whole.len() + i,
        ) by {
            lemma_zero_plus(mixed_at(x, h, tail, x.len() + i));
        }
        assert(next_overlap(h, tail, x) =~= stream_tail(h, whole));
    } else {
        assert(next_overlap(h, tail, x) =~= stream_tail(h, whole));
    }
}

/// What an engine is, to its callers.
pub struct EngineState<S> {
    /// The impulse response that blocks are convolved with.
    pub impulse_response: Seq<S>,
    /// The block length that the owner intends to feed; informational.
    pub block_size: usize,
    /// Output that earlier blocks produced past their own end, still to be
    /// added to the blocks that follow.
    pub overlap: Seq<S>,
}

/// Overlap-add convolution of a stream, block by block, against an impulse
/// response that may be replaced between blocks.
pub struct ConvolutionEngine<S: Sample> {
    impulse_response: Vec<S>,
    block_size: usize,
    overlap: Vec<S>,
}

impl<S: Sample> View for ConvolutionEngine<S> {
    type V = EngineState<S>;

    closed spec fn view(&self) -> EngineState<S> {
        EngineState {
            impulse_response: self.impulse_response@,
            block_size: self.block_size,
            overlap: self.overlap@,
        }
    }
}

/// A vector of `len` zero samples.
pub fn silence<S: Sample>(len: usize) -> (v: Vec<S>)
    ensures
        v@ == Seq::new(len as nat, |i: int| S::zero_value()),
{
    let mut v: Vec<S> = Vec::new();
    let mut i: usize = 0;
    while i < len
        invariant
            i <= len,
            v@ == Seq::new(i as nat, |t: int| S::zero_value()),
        decreases len - i,
    {
        v.push(S::zero());
        i += 1;
        assert(v@ =~= Seq::new(i as nat, |t: int| S::zero_value()));
    }
    v
}

impl<S: Sample> ConvolutionEngine<S> {
    /// An engine that passes its input through: the impulse response is the
    /// unit impulse, and nothing is pending.
    pub fn new(block_size: usize) -> (engine: Self)
        ensures
            engine@.impulse_response == seq![S::one_value()],
            engine@.block_size == block_size,
            engine@.overlap == Seq::<S>::empty(),
    {
        let mut impulse_response: Vec<S> = Vec::new();
        impulse_response.push(S::one());
        assert(impulse_response@ =~= seq![S::one_value()]);
        ConvolutionEngine { impulse_response, block_size, overlap: Vec::new() }
    }

    /// The impulse response in use.
    pub fn impulse_response(&self) -> (ir: &Vec<S>)
        ensures
            ir@ == self@.impulse_response,
    {
        &self.impulse_response
    }

    /// The pending tail.
    pub fn overlap(&self) -> (tail: &Vec<S>)
        ensures
            tail@ == self@.overlap,
    {
        &self.overlap
    }

    /// The block length given at construction.
    pub fn block_size(&self) -> (n: usize)
        ensures
            n == self@.block_size,
    {
        self.block_size
    }

    /// Replaces the impulse response. The pending tail is kept: the output
    /// that earlier blocks still owe is not dropped by a swap.
    pub fn set_impulse_response(&mut self, ir: Vec<S>)
        ensures
            final(self)@.impulse_response == ir@,
            final(self)@.overlap == old(self)@.overlap,
            final(self)@.block_size == old(self)@.block_size,
    {
        self.impulse_response = ir;
    }

    /// Convolves one block with the impulse response and returns as many
    /// samples as came in. What the convolution produces past the end of the
    /// block is kept, and added to the head of the blocks that follow.
    pub fn process(&mut self, input: &[S]) -> (output: Vec<S>)
        requires
            input@.len() + old(self)@.impulse_response.len() <= usize::MAX,
        ensures
            output@ == block_output(old(self)@.impulse_response, old(self)@.overlap, input@),
            final(self)@.overlap == next_overlap(
                old(self)@.impulse_response,
                old(self)@.overlap,
                input@,
            ),
            final(self)@.impulse_response == old(self)@.impulse_response,
            final(self)@.block_size == old(self)@.block_size,
    {
        let n: usize = input.len();
        let k: usize = self.impulse_response.len();
        if k == 0 || n == 0 {
            return silence(n);
        }
        let ghost x = input@;
        let ghost h = self.impulse_response@;
        let ghost tail = self.overlap@;
        let conv_len: usize = n + k - 1;
        let mut convolved: Vec<S> = silence(conv_len);

        let mut i: usize = 0;
        while i < n
            invariant
                i <= n,
                n == x.len(),
                k == h.len(),
                k >= 1,
                conv_len == n + k - 1,
                x == input@,
                h == self.impulse_response@,
                convolved.len() == conv_len,
                forall|t: int| 0 <= t < conv_len ==> convolved[t] == conv_partial(x, h, t, i as nat),
            decreases n - i,
        {
            let xi = input[i];
            let mut j: usize = 0;
            while j < k
                invariant
                    i < n,
                    j <= k,
                    n == x.len(),
                    k == h.len(),
                    conv_len == n + k - 1,
                    x == input@,
                    h == self.impulse_response@,
                    xi == x[i as int],
                    convolved.len() == conv_len,
                    forall|t: int|
                        0 <= t < conv_len ==> convolved[t] == (if i <= t < i + j {
                            conv_partial(x, h, t, (i + 1) as nat)
                        } else {
                            conv_partial(x, h, t, i as nat)
                        }),
                decreases k - j,
            {
                let at: usize = i + j;
                let updated = convolved[at].plus(xi.times(self.impulse_response[j]));
                convolved.set(at, updated);
                j += 1;
            }
            i += 1;
        }

        let pending: usize = self.overlap.len();
        let overlap_add_len: usize = if pending < conv_len {
            pending
        } else {
            conv_len
        };
        let mut a: usize = 0;
        while a < overlap_add_len
            invariant
                a <= overlap_add_len,
                overlap_add_len <= conv_len,
                overlap_add_len <= tail.len(),
                overlap_add_len == tail.len() || overlap_add_len == conv_len,
                tail == self.overlap@,
                convolved.len() == conv_len,
                forall|t: int|
                    0 <= t < conv_len ==> convolved[t] == (if t < a {
                        mixed_at(x, h, tail, t)
                    } else {
                        conv_at(x, h, t)
                    }),
            decreases overlap_add_len - a,
        {
            let updated = convolved[a].plus(self.overlap[a]);
            convolved.set(a, updated);
            a += 1;
        }
        let mut rest: Vec<S> = Vec::new();
        let mut r: usize = conv_len;
        while r < pending
            invariant
                pending == tail.len(),
                tail == self.overlap@,
                conv_len <= r,
                r <= pending || pending < conv_len,
                rest@ == (if pending > conv_len {
                    tail.subrange(conv_len as int, r as int)
                } else {
                    Seq::empty()
                }),
            decreases pending - r,
        {
            rest.push(self.overlap[r]);
            r += 1;
            assert(rest@ =~= tail.subrange(conv_len as int, r as int));
        }
        assert(rest@ =~= unconsumed(tail, conv_len as int));

        let mut output: Vec<S> = Vec::new();
        let mut o: usize = 0;
        while o < n
            invariant
                o <= n,
                n <= conv_len,
                convolved.len() == conv_len,
                output@ == convolved@.subrange(0, o as int),
            decreases n - o,
        {
            output.push(convolved[o]);
            o += 1;
            assert(output@ =~= convolved@.subrange(0, o as int));
        }
        assert(output@ =~= block_output(h, tail, x));

        if conv_len > n {
            let spill: usize = k - 1;
            let kept: usize = rest.len();
            let needed: usize = if spill >= kept {
                spill
            } else {
                kept
            };
            let mut merged: Vec<S> = silence(needed);
            let mut m: usize = 0;
            while m < kept
                invariant
                    m <= kept,
                    kept == rest.len(),
                    kept <= needed,
                    merged.len() == needed,
                    forall|t: int|
                        0 <= t < needed ==> merged[t] == (if t < m {
                            S::sum(S::zero_value(), rest[t])
                        } else {
                            S::zero_value()
                        }),
                decreases kept - m,
            {
                let updated = merged[m].plus(rest[m]);
                merged.set(m, updated);
                m += 1;
            }
            let mut s: usize = 0;
            while s < spill
                invariant
                    s <= spill,
                    spill <= needed,
                    spill == k - 1,
                    conv_len == n + k - 1,
                    kept == rest.len(),
                    merged.len() == needed,
                    convolved.len() == conv_len,
                    forall|t: int|
                        0 <= t < needed ==> merged[t] == (if t < s {
                            S::sum(
                                if t < kept {
                                    S::sum(S::zero_value(), rest[t])
                                } else {
                                    S::zero_value()
                                },
                                convolved[n + t],
                            )
                        } else if t < kept {
                            S::sum(S::zero_value(), rest[t])
                        } else {
                            S::zero_value()
                        }),
                decreases spill - s,
            {
                let updated = merged[s].plus(convolved[n + s]);
                merged.set(s, updated);
                s += 1;
            }
            assert(merged@ =~= next_overlap(h, tail, x));
            self.overlap = merged;
        } else {
            assert(rest@ =~= next_overlap(h, tail, x));
            self.overlap = rest;
        }
        output
    }
}

} // verus!
