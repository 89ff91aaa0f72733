//! Audio transcription pipeline: normalization of decoded samples (downmix,
//! resample), speed preprocessing with timestamp back-correction, chunked
//! transcription with a single-slot engine cache, and transcript assembly.
//!
//! Sample amplitudes travel through the pipeline as the 32-bit encodings of
//! their values; the host shell converts at the boundary. The arithmetic that
//! combines amplitudes (averaging a frame, interpolating between neighbours)
//! is supplied by the caller as a kernel function, so the structure of every
//! transformation is verified for whatever kernel the host provides.

pub mod audio;
pub mod captions;
pub mod config;
pub mod engine;
pub mod error;
pub mod history;
pub mod models;
pub mod platform;
pub mod transcription;
pub mod speed;
pub mod strutil;
pub mod subtitle;
pub mod youtube;
pub mod timestamps;
