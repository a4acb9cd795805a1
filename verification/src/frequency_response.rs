//! Sweeping a muffler over the uniform frequency grid of a transform.
use crate::muffler::Muffler;
use crate::ring::{
    lemma_count_adds, lemma_difference_is, lemma_one_times, lemma_product_distributes_right,
    lemma_product_with_zero, twice,
};
use crate::sample::{ExactSample, OrderedSample, Sample};
use crate::transfer_matrix::Complex;
use vstd::prelude::*;

verus! {

/// The number of bins of a sweep, as a specification: a transform of
/// `fft_size` points has `fft_size / 2 + 1` of them, from 0 Hz to the Nyquist
/// frequency inclusive.
pub open spec fn bins_of(fft_size: nat) -> nat {
    fft_size / 2 + 1
}

/// The number of frequency bins that a sweep for a transform of `fft_size`
/// points evaluates.
pub fn bin_count(fft_size: usize) -> (bins: usize)
    ensures
        bins == bins_of(fft_size as nat),
        bins >= 1,
{
    fft_size / 2 + 1
}

/// The frequency of bin `index` on a grid of spacing `bin_width`.
pub open spec fn bin_frequency<S: Sample>(index: usize, bin_width: S) -> S {
    S::product(S::count_value(index), bin_width)
}

/// Whether a frequency counts as DC: it lies below 1 Hz.
pub open spec fn is_dc<S: OrderedSample>(frequency: S) -> bool {
    S::below(frequency, S::one_value())
}

/// What a sweep records for one bin. A DC bin is not evaluated: it stands for
/// no attenuation and unit transfer. Every other bin holds the muffler's
/// transfer denominator at the angular frequency `two_pi * frequency`.
pub open spec fn bin_response<S: OrderedSample>(
    muffler: &Muffler<S>,
    frequency: S,
    two_pi: S,
    c: S,
    rho: S,
    y_load: S,
) -> Option<Complex<S>> {
    if is_dc(frequency) {
        None
    } else {
        Some(muffler.denominator_at(S::product(two_pi, frequency), c, rho, y_load))
    }
}

/// Sweeps the muffler across the `fft_size / 2 + 1` bins of a transform of
/// `fft_size` points, spaced `bin_width` apart from 0 Hz up.
///
/// Returns the bin frequencies and, bin by bin, the transfer denominator
/// `a + b/z_load + z_source c + z_source d/z_load` of the chain, or `None`
/// for a DC bin. Of a denominator `den`, the transmission loss is
/// `20 log10(|den| / 2)` and the pressure transfer is `2 / den`; a DC bin
/// stands for 0 dB and a transfer of one. `two_pi` is the factor from
/// frequency to angular frequency, `y_load` the reciprocal of the load
/// impedance.
pub fn sweep<S: OrderedSample>(
    muffler: &Muffler<S>,
    fft_size: usize,
    bin_width: S,
    two_pi: S,
    c: S,
    rho: S,
    y_load: S,
) -> (swept: (Vec<S>, Vec<Option<Complex<S>>>))
    ensures
        swept.0@ == Seq::new(bins_of(fft_size as nat), |i: int| bin_frequency(i as usize, bin_width)),
        swept.1@ == Seq::new(
            bins_of(fft_size as nat),
            |i: int|
                bin_response(muffler, bin_frequency(i as usize, bin_width), two_pi, c, rho, y_load),
        ),
{
    let num_bins = bin_count(fft_size);
    let mut frequencies: Vec<S> = Vec::new();
    let mut responses: Vec<Option<Complex<S>>> = Vec::new();
    let mut i: usize = 0;
    while i < num_bins
        invariant
            i <= num_bins,
            num_bins == bins_of(fft_size as nat),
            frequencies@ == Seq::new(i as nat, |t: int| bin_frequency(t as usize, bin_width)),
            responses@ == Seq::new(
                i as nat,
                |t: int|
                    bin_response(
                        muffler,
                        bin_frequency(t as usize, bin_width),
                        two_pi,
                        c,
                        rho,
                        y_load,
                    ),
            ),
        decreases num_bins - i,
    {
        let freq = S::from_count(i).times(bin_width);
        let omega = two_pi.times(freq);
        frequencies.push(freq);
        if freq.less_than(S::one()) {
            responses.push(None);
        } else {
            responses.push(Some(muffler.transfer_denominator(omega, c, rho, y_load)));
        }
        i += 1;
        assert(frequencies@ =~= Seq::new(i as nat, |t: int| bin_frequency(t as usize, bin_width)));
        assert(responses@ =~= Seq::new(
            i as nat,
            |t: int|
                bin_response(
                    muffler,
                    bin_frequency(t as usize, bin_width),
                    two_pi,
                    c,
                    rho,
                    y_load,
                ),
        ));
    }
    (frequencies, responses)
}

/// In exact arithmetic, the first bin of every grid lies at 0 Hz.
pub proof fn lemma_first_bin_is_zero<S: ExactSample>(bin_width: S)
    ensures
        bin_frequency(0, bin_width) == S::zero_value(),
{
    S::count_from_zero();
    lemma_product_with_zero(bin_width);
}

/// In exact arithmetic, the bins are evenly spaced: each lies `bin_width`
/// above the one before it.
pub proof fn lemma_bins_evenly_spaced<S: ExactSample>(index: usize, bin_width: S)
    requires
        index < usize::MAX,
    ensures
        bin_frequency((index + 1) as usize, bin_width) == S::sum(
            bin_frequency(index, bin_width),
            bin_width,
        ),
        S::difference(
            bin_frequency((index + 1) as usize, bin_width),
            bin_frequency(index, bin_width),
        ) == bin_width,
{
    S::count_goes_up_by_one(index);
    lemma_product_distributes_right(S::count_value(index), S::one_value(), bin_width);
    lemma_one_times(bin_width);
    S::sum_commutes(bin_frequency(index, bin_width), bin_width);
    lemma_difference_is(
        bin_frequency((index + 1) as usize, bin_width),
        bin_frequency(index, bin_width),
        bin_width,
    );
}

/// In exact arithmetic, the last bin lies at the Nyquist frequency. For an
/// even `fft_size`, the frequency of bin `fft_size / 2` is half of
/// `fft_size * bin_width`, which is the sample rate of the grid.
pub proof fn lemma_last_bin_is_nyquist<S: ExactSample>(fft_size: usize, bin_width: S)
    requires
        fft_size % 2 == 0,
    ensures
        bins_of(fft_size as nat) - 1 == fft_size / 2,
        twice(bin_frequency((fft_size / 2) as usize, bin_width)) == bin_frequency(
            fft_size,
            bin_width,
        ),
{
    let half = (fft_size / 2) as usize;
    lemma_count_adds::<S>(half, half);
    lemma_product_distributes_right(S::count_value(half), S::count_value(half), bin_width);
}

} // verus!
