//! A digital-signal-processing pipeline core: named shared buffers of
//! fixed-point samples, a catalog of numeric kernels, an append-only
//! operation graph with a sequential runner, direct discrete Fourier
//! transforms, frequency-domain FIR filter synthesis, and raised-cosine
//! window generation.
//!
//! Sample values are fixed-point numbers: an `i64` holds the value scaled
//! by [`fixed::ONE`], and every arithmetic result is clipped to
//! [`fixed::VAL_MIN`] ..= [`fixed::VAL_MAX`], so all kernel semantics are
//! exact integer functions that the verifier checks end to end.

pub mod complex;
pub mod elements;
pub mod fir;
pub mod fixed;
pub mod graph;
pub mod kernels;
pub mod window;
