//! Integer-side rules of the audio and image boundaries.
pub mod audio;
pub mod image;
