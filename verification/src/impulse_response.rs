//! The steps around the inverse transform that turn a swept transfer function
//! into an impulse response: conditioning the spectrum before it, and
//! scaling, truncating and windowing the time sequence after it.
use crate::frequency_response::bins_of;
use crate::sample::Sample;
use crate::transfer_matrix::Complex;
use vstd::prelude::*;

verus! {

/// The length of the impulse response synthesised from a transform of
/// `fft_size` points: its first half.
pub open spec fn impulse_length_of(fft_size: nat) -> nat {
    fft_size / 2
}

/// The length of the impulse response for a transform of `fft_size` points.
pub fn impulse_length(fft_size: usize) -> (len: usize)
    ensures
        len == impulse_length_of(fft_size as nat),
{
    fft_size / 2
}

/// Whether a spectrum of `bins` values is what an inverse transform of
/// `fft_size` points takes: exactly `fft_size / 2 + 1` of them.
pub fn spectrum_fits(bins: usize, fft_size: usize) -> (fits: bool)
    ensures
        fits == (bins == bins_of(fft_size as nat)),
{
    bins == fft_size / 2 + 1
}

/// A value with its imaginary part discarded.
pub open spec fn real_part_only<S: Sample>(z: Complex<S>) -> Complex<S> {
    Complex { re: z.re, im: S::zero_value() }
}

/// A spectrum made fit for a real-output inverse transform: the first bin
/// (0 Hz) and the last (Nyquist) keep their real part only, every bin between
/// them is unchanged.
pub open spec fn conditioned<S: Sample>(spectrum: Seq<Complex<S>>) -> Seq<Complex<S>> {
    Seq::new(
        spectrum.len(),
        |i: int|
            if i == 0 || i == spectrum.len() - 1 {
                real_part_only(spectrum[i])
            } else {
                spectrum[i]
            },
    )
}

/// Copies a spectrum and forces its two end bins to be purely real, as a
/// real-output inverse transform demands. An empty spectrum stays empty.
pub fn prepare_spectrum<S: Sample>(transfer_function: &[Complex<S>]) -> (spectrum: Vec<
    Complex<S>,
>)
    ensures
        spectrum@ == conditioned(transfer_function@),
{
    let n: usize = transfer_function.len();
    let mut spectrum: Vec<Complex<S>> = Vec::new();
    let mut i: usize = 0;
    while i < n
        invariant
            i <= n,
            n == transfer_function@.len(),
            spectrum@ == conditioned(transfer_function@).take(i as int),
        decreases n - i,
    {
        let bin = transfer_function[i];
        if i == 0 || i == n - 1 {
            spectrum.push(Complex::new(bin.re, S::zero()));
        } else {
            spectrum.push(bin);
        }
        i += 1;
        assert(spectrum@ =~= conditioned(transfer_function@).take(i as int));
    }
    assert(spectrum@ =~= conditioned(transfer_function@));
    spectrum
}

/// The impulse response shaped from the raw output of the inverse transform:
/// sample `i` is `raw[i]`, scaled by `norm` and then by the window
/// coefficient `window[i]`. It is as long as the window.
pub open spec fn shaped<S: Sample>(raw: Seq<S>, norm: S, window: Seq<S>) -> Seq<S> {
    Seq::new(window.len(), |i: int| S::product(S::product(raw[i], norm), window[i]))
}

/// Scales the raw time sequence by `norm`, truncates it to the length of
/// `window` and applies the window. Returns `None`, and computes nothing, if
/// the window is longer than the sequence.
pub fn shape_impulse<S: Sample>(raw: &[S], norm: S, window: &[S]) -> (ir: Option<Vec<S>>)
    ensures
        window@.len() <= raw@.len() <==> ir.is_some(),
        ir.is_some() ==> ir.unwrap()@ == shaped(raw@, norm, window@),
{
    let len: usize = window.len();
    if len > raw.len() {
        return None;
    }
    let mut ir: Vec<S> = Vec::new();
    let mut i: usize = 0;
    while i < len
        invariant
            i <= len,
            len == window@.len(),
            len <= raw@.len(),
            ir@ == shaped(raw@, norm, window@).take(i as int),
        decreases len - i,
    {
        ir.push(raw[i].times(norm).times(window[i]));
        i += 1;
        assert(ir@ =~= shaped(raw@, norm, window@).take(i as int));
    }
    assert(ir@ =~= shaped(raw@, norm, window@));
    Some(ir)
}

} // verus!
