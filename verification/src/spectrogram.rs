//! The spectrogram engine: frame planning, the short-time transform driver and
//! the mel stage.
pub mod frames;
pub mod layout;
pub mod mel;
pub mod mel_laws;
pub mod pool;
pub mod projector;
pub mod stft;
pub mod stft_laws;
