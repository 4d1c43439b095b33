//! Error taxonomy of the recorder.
//!
//! Session-lifecycle failures are surfaced to the caller as a typed value;
//! per-sample write failures are absorbed by the capture loop and never reach
//! this type.

use vstd::prelude::*;
use vstd::string::StringExecFns;

verus! {

/// A typed failure of the recorder's lifecycle operations.
#[derive(Debug, Clone, Copy, PartialEq, Eq, Structural)]
pub enum RecorderError {
    /// `start` was called while a session was already active.
    AlreadyRecording,
    /// No loopback source could be resolved.
    DeviceNotFound,
    /// The target application's process is not running.
    ProcessNotFound,
    /// The output file or directory could not be created.
    EncoderInitFailed,
    /// A sample could not be handed to the encoder.
    SampleWriteFailed,
    /// Encoding or flushing failed when the session was stopped.
    FinalizeFailed,
    /// The capture worker terminated abnormally.
    WorkerPanicked,
    /// `connect` was called while the voice transport was already connected.
    AlreadyConnected,
    /// A voice-transport operation was attempted without a connection.
    NotConnected,
}

pub open spec fn spec_message(e: RecorderError) -> Seq<char> {
    match e {
        RecorderError::AlreadyRecording => "Already recording"@,
        RecorderError::DeviceNotFound => "No loopback device available"@,
        RecorderError::ProcessNotFound => "Target application is not running"@,
        RecorderError::EncoderInitFailed => "Failed to create the output file"@,
        RecorderError::SampleWriteFailed => "Failed to write an audio sample"@,
        RecorderError::FinalizeFailed => "Failed to finalize the recording"@,
        RecorderError::WorkerPanicked => "Recording thread panicked"@,
        RecorderError::AlreadyConnected => "Already connected"@,
        RecorderError::NotConnected => "Not connected"@,
    }
}

impl RecorderError {
    /// A human-readable description of the failure.
    pub fn message(&self) -> (r: String)
        ensures
            r@ == spec_message(*self),
    {
        match self {
            RecorderError::AlreadyRecording => String::from_str("Already recording"),
            RecorderError::DeviceNotFound => String::from_str("No loopback device available"),
            RecorderError::ProcessNotFound => String::from_str("Target application is not running"),
            RecorderError::EncoderInitFailed => String::from_str("Failed to create the output file"),
            RecorderError::SampleWriteFailed => String::from_str("Failed to write an audio sample"),
            RecorderError::FinalizeFailed => String::from_str("Failed to finalize the recording"),
            RecorderError::WorkerPanicked => String::from_str("Recording thread panicked"),
            RecorderError::AlreadyConnected => String::from_str("Already connected"),
            RecorderError::NotConnected => String::from_str("Not connected"),
        }
    }
}

} // verus!
