//! Verified core of a voice-session recorder.
//!
//! The library models audio amplitudes as fixed-point integers, drives the
//! capture lifecycle and the per-speaker receiver as verified state machines,
//! and produces encoded file contents as byte vectors.  Platform audio
//! delivery, file writing and the network transport live outside the library
//! and hand plain values in and out.

pub mod capture;
pub mod codec;
pub mod devices;
pub mod encoder;
pub mod errors;
pub mod guard;
pub mod listing;
pub mod meter;
pub mod naming;
pub mod process;
pub mod receiver;
pub mod routing;
pub mod sample;
pub mod session;
pub mod settings;
pub mod text;
pub mod trim;
pub mod wav;
