//! Plane-wave acoustics of a duct chain and streaming convolution of its
//! impulse response, over an abstract sample arithmetic.
//!
//! - [`sample`]: the operations of a number format, the laws of an exact one,
//!   and exact fixed-point words;
//! - [`ring`]: what follows from those laws;
//! - [`complex`], [`transfer_matrix`], [`muffler`]: transfer matrices of
//!   acoustic elements and their composition along a chain;
//! - [`frequency_response`], [`impulse_response`]: the sweep over a
//!   transform's frequency grid, and the steps around the inverse transform;
//! - [`audio`]: overlap-add convolution and the decisions of the playback
//!   pipeline.
//!
//! Every routine is written against the operations of [`Sample`], so that
//! what is proved of it holds for any number format that supplies them. The
//! algebraic laws of the acoustics and of the convolution are proved for
//! every format that is a commutative ring, see [`ExactSample`].
pub mod audio;
pub mod complex;
pub mod frequency_response;
pub mod impulse_response;
pub mod muffler;
pub mod ring;
pub mod sample;
pub mod transfer_matrix;

pub use crate::muffler::AcousticElement;
pub use crate::sample::{ExactSample, OrderedSample, Sample};
