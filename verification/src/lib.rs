//! A live-looping audio engine: a lock-free sample transport between audio
//! threads, a mixer that sums stored clips into one prepared buffer and plays
//! it back through a small state machine, a recorder that segments captured
//! samples into clips, and an ordered command channel driving it all.
//!
//! Samples are fixed-point amplitudes held in `i64`; the surrounding
//! application converts to and from the audio backend's floating-point frames.

pub mod audio_sample;
pub mod mixer;
pub mod player;
pub mod recorder;
pub mod transport;
