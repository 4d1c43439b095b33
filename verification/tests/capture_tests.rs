//! Capture-engine lifecycle: start/stop, mutual exclusion, idempotent
//! stop, auto-stop, and the encoded files that come out.

use discrec::capture::AudioCapture;
use discrec::encoder::AudioFormat;
use discrec::errors::RecorderError;
use discrec::guard::{CaptureGuard, CaptureKind};

#[test]
fn fresh_engine_is_idle() {
    let engine = AudioCapture::new();
    assert!(!engine.is_recording());
    assert_eq!(engine.peak_level(), 0);
}

#[test]
fn start_then_immediate_stop_yields_wellformed_empty_wav() {
    let mut engine = AudioCapture::new();
    engine
        .start("/tmp/out.wav", AudioFormat::Wav, false, None, 2, 48000)
        .unwrap();
    assert!(engine.is_recording());
    let fin = engine.stop().unwrap().expect("a file even with no audio");
    assert_eq!(fin.path, "/tmp/out.wav");
    // Exactly the 44-byte header over an empty data chunk, and a reader
    // accepts it.
    assert_eq!(fin.bytes.len(), 44);
    let mut reader = hound::WavReader::new(std::io::Cursor::new(fin.bytes)).unwrap();
    let spec = reader.spec();
    assert_eq!(spec.channels, 2);
    assert_eq!(spec.sample_rate, 48000);
    assert_eq!(spec.bits_per_sample, 16);
    assert_eq!(reader.samples::<i16>().count(), 0);
}

#[test]
fn start_then_immediate_stop_yields_wellformed_empty_flac() {
    let mut engine = AudioCapture::new();
    engine
        .start("/tmp/out.flac", AudioFormat::Flac, false, None, 2, 48000)
        .unwrap();
    let fin = engine.stop().unwrap().expect("a file even with no audio");
    assert_eq!(&fin.bytes[0..4], b"fLaC");
}

#[test]
fn start_then_immediate_stop_yields_mp3_bytes() {
    let mut engine = AudioCapture::new();
    engine
        .start("/tmp/out.mp3", AudioFormat::Mp3, false, None, 1, 48000)
        .unwrap();
    let fin = engine.stop().unwrap().expect("a file even with no audio");
    // The lossy encoder still flushes its framing for an empty stream.
    assert!(!fin.bytes.is_empty());
}

#[test]
fn stop_twice_returns_none_the_second_time() {
    let mut engine = AudioCapture::new();
    engine
        .start("/tmp/out.wav", AudioFormat::Wav, false, None, 1, 48000)
        .unwrap();
    let first = engine.stop().unwrap();
    assert!(first.is_some());
    let second = engine.stop().unwrap();
    assert!(second.is_none());
    assert!(!engine.is_recording());
}

#[test]
fn start_while_recording_fails_and_leaves_session_untouched() {
    let mut engine = AudioCapture::new();
    engine
        .start("/tmp/a.wav", AudioFormat::Wav, false, None, 1, 48000)
        .unwrap();
    engine.feed(&vec![123_456]);
    let err = engine
        .start("/tmp/b.wav", AudioFormat::Wav, false, None, 1, 48000)
        .unwrap_err();
    assert_eq!(err, RecorderError::AlreadyRecording);
    // The original session still finalizes with its own path and audio.
    let fin = engine.stop().unwrap().unwrap();
    assert_eq!(fin.path, "/tmp/a.wav");
    let mut reader = hound::WavReader::new(std::io::Cursor::new(fin.bytes)).unwrap();
    let samples: Vec<i16> = reader.samples::<i16>().map(|s| s.unwrap()).collect();
    assert_eq!(samples, vec![4045]); // 123456 scaled to 16-bit, rounded
}

#[test]
fn fed_samples_come_back_quantized_in_order() {
    let mut engine = AudioCapture::new();
    engine
        .start("/tmp/out.wav", AudioFormat::Wav, false, None, 1, 48000)
        .unwrap();
    let written = engine.feed(&vec![500_000, -1_000_000, 0, 300_000]);
    assert_eq!(written, 4);
    assert_eq!(engine.peak_level(), 1_000_000);
    let fin = engine.stop().unwrap().unwrap();
    let mut reader = hound::WavReader::new(std::io::Cursor::new(fin.bytes)).unwrap();
    let samples: Vec<i16> = reader.samples::<i16>().map(|s| s.unwrap()).collect();
    assert_eq!(samples, vec![16384, -32767, 0, 9830]);
}

#[test]
fn silence_trim_applies_through_the_encoder() {
    let mut engine = AudioCapture::new();
    engine
        .start("/tmp/out.wav", AudioFormat::Wav, true, None, 1, 48000)
        .unwrap();
    engine.feed(&vec![0, 0, 0, 500_000, 0, 0, 300_000, 0, 0, 0]);
    let fin = engine.stop().unwrap().unwrap();
    let mut reader = hound::WavReader::new(std::io::Cursor::new(fin.bytes)).unwrap();
    let samples: Vec<i16> = reader.samples::<i16>().map(|s| s.unwrap()).collect();
    assert_eq!(samples, vec![16384, 0, 0, 9830]);
}

#[test]
fn feed_while_idle_is_ignored() {
    let mut engine = AudioCapture::new();
    assert_eq!(engine.feed(&vec![500_000]), 0);
    assert_eq!(engine.peak_level(), 0);
}

#[test]
fn idle_poll_decays_peak() {
    let mut engine = AudioCapture::new();
    engine
        .start("/tmp/out.wav", AudioFormat::Wav, false, None, 1, 48000)
        .unwrap();
    engine.feed(&vec![900_000]);
    assert_eq!(engine.peak_level(), 900_000);
    engine.poll_idle();
    assert_eq!(engine.peak_level(), 855_000);
    engine.stop().unwrap();
    assert_eq!(engine.peak_level(), 0);
}

#[test]
fn auto_stop_fires_at_the_duration() {
    let mut engine = AudioCapture::new();
    engine
        .start("/tmp/out.wav", AudioFormat::Wav, false, Some(2), 1, 48000)
        .unwrap();
    engine.feed(&vec![100_000]);
    // Before the duration elapses, nothing happens.
    assert!(engine.check_auto_stop(1).unwrap().is_none());
    assert!(engine.is_recording());
    // At the duration, the session ends on its own with a finalized file.
    let fin = engine.check_auto_stop(2).unwrap().expect("auto-stop file");
    assert_eq!(fin.path, "/tmp/out.wav");
    assert!(!engine.is_recording());
    assert_eq!(engine.peak_level(), 0);
}

#[test]
fn auto_stop_without_duration_never_fires() {
    let mut engine = AudioCapture::new();
    engine
        .start("/tmp/out.wav", AudioFormat::Wav, false, None, 1, 48000)
        .unwrap();
    assert!(engine.check_auto_stop(u64::MAX).unwrap().is_none());
    assert!(engine.is_recording());
}

#[test]
fn flac_output_contains_the_stream_magic() {
    let mut engine = AudioCapture::new();
    engine
        .start("/tmp/out.flac", AudioFormat::Flac, false, None, 1, 48000)
        .unwrap();
    engine.feed(&vec![500_000, -500_000, 250_000]);
    let fin = engine.stop().unwrap().unwrap();
    assert_eq!(&fin.bytes[0..4], b"fLaC");
    assert!(fin.bytes.len() > 8);
}

#[test]
fn mp3_output_is_not_the_input() {
    let mut engine = AudioCapture::new();
    engine
        .start("/tmp/out.mp3", AudioFormat::Mp3, false, None, 1, 48000)
        .unwrap();
    let pcm: Vec<i32> = (0..4800).map(|i| ((i % 100) - 50) * 10_000).collect();
    engine.feed(&pcm);
    let fin = engine.stop().unwrap().unwrap();
    assert!(!fin.bytes.is_empty());
    // An encoded frame stream, not raw samples.
    assert_ne!(fin.bytes.len(), pcm.len() * 2);
}

#[test]
fn extension_matches_each_format() {
    assert_eq!(AudioFormat::Wav.extension(), "wav");
    assert_eq!(AudioFormat::Flac.extension(), "flac");
    assert_eq!(AudioFormat::Mp3.extension(), "mp3");
}

#[test]
fn error_messages_are_stable() {
    assert_eq!(RecorderError::AlreadyRecording.message(), "Already recording");
    assert_eq!(RecorderError::WorkerPanicked.message(), "Recording thread panicked");
    assert_eq!(RecorderError::FinalizeFailed.message(), "Failed to finalize the recording");
}

#[test]
fn unsupported_stream_parameters_surface_finalize_failed() {
    // The lossless compressor refuses a sample rate beyond its format
    // ceiling; the failure surfaces as a typed finalize error at stop.
    let mut engine = AudioCapture::new();
    engine
        .start("/tmp/out.flac", AudioFormat::Flac, false, None, 1, 1_000_000)
        .unwrap();
    engine.feed(&vec![100_000]);
    match engine.stop() {
        Err(e) => assert_eq!(e, RecorderError::FinalizeFailed),
        Ok(_) => panic!("expected a finalize failure"),
    }
    assert!(!engine.is_recording());
}

#[test]
fn lossy_encoder_rejects_a_zero_sample_rate() {
    let mut engine = AudioCapture::new();
    engine
        .start("/tmp/out.mp3", AudioFormat::Mp3, false, None, 1, 0)
        .unwrap();
    match engine.stop() {
        Err(e) => assert_eq!(e, RecorderError::FinalizeFailed),
        Ok(_) => panic!("expected a finalize failure"),
    }
    assert!(!engine.is_recording());
}

#[test]
fn stereo_lossy_session_accepts_an_odd_sample_count() {
    // An odd trailing sample carries only half an interleaved frame; the
    // encoder drops it rather than failing or tearing the stream.
    let mut engine = AudioCapture::new();
    engine
        .start("/tmp/out.mp3", AudioFormat::Mp3, false, None, 2, 48000)
        .unwrap();
    let pcm: Vec<i32> = (0..4801).map(|i| ((i % 100) - 50) * 10_000).collect();
    assert_eq!(engine.feed(&pcm), 4801);
    let fin = engine.stop().unwrap().unwrap();
    assert!(!fin.bytes.is_empty());
}

#[test]
fn capture_guard_admits_one_session_of_either_kind() {
    let mut guard = CaptureGuard::new();
    assert!(!guard.is_busy());
    guard.acquire(CaptureKind::Device).unwrap();
    // A session of the other kind is refused while the slot is held.
    assert_eq!(
        guard.acquire(CaptureKind::VoiceSession).unwrap_err(),
        RecorderError::AlreadyRecording
    );
    assert_eq!(
        guard.acquire(CaptureKind::Device).unwrap_err(),
        RecorderError::AlreadyRecording
    );
    guard.release();
    guard.acquire(CaptureKind::VoiceSession).unwrap();
    assert!(guard.is_busy());
    guard.release();
    assert!(!guard.is_busy());
}
