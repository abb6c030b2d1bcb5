//! Verified core of the lightseek music player: library queries, scanning
//! decisions, the engine's control state machine, stream range handling,
//! settings storage, extension registry and sample-frame utilities.

pub mod text;
pub mod engine;
pub mod mixer;
pub mod stream;
pub mod library;
pub mod settings;
pub mod models;
pub mod extensions;
pub mod scan;
pub mod covers;
pub mod m3u;
pub mod waveform;
pub mod fft;
pub mod frames;
pub mod decoding;
pub mod folders;
pub mod analysis;
