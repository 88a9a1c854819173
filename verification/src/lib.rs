//! Verified framing, layout and configuration rules for short-time and mel
//! spectrograms.
//!
//! The crate owns everything about a spectrogram that is decided by integers:
//! which samples belong to which frame, where a frame sits inside the transform
//! buffer, how many frequency bins and frames the result has, how the
//! frame-major intermediate is turned into the `[frequency][time]` matrix, which
//! boundary points delimit which mel filter, and which bins a projected entry
//! sums over. It also owns the order in which a configuration is checked and
//! the fan-out of the frames and mel bins over a worker pool.
//!
//! It is generic over the sample type. The numeric kernels (window weight,
//! taper, spectral transform, bin measure, filter weight, multiply-accumulate)
//! are supplied by the caller as closures and enter the contracts through
//! their own pre- and postconditions: a contract here says which kernel was
//! applied to which values and where the result went.
pub mod error;
pub mod io;
pub mod spectrogram;
