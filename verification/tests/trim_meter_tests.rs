//! Silence-trim latch and peak-meter behavior.

use discrec::meter::{buffer_peak, PeakMeter};
use discrec::trim::{SilenceTrim, SILENCE_THRESHOLD};

fn run_trim(input: &[i32]) -> Vec<i32> {
    let mut trim = SilenceTrim::new();
    let mut out: Vec<i32> = Vec::new();
    for &s in input {
        let mut emitted = trim.push(s);
        out.append(&mut emitted);
    }
    // Finalization discards whatever is still buffered (trailing silence).
    out
}

#[test]
fn trims_leading_and_trailing_but_keeps_interior_silence() {
    // 0.5 and 0.3 of full scale around silent stretches, threshold 0.005.
    let input = [0, 0, 0, 500_000, 0, 0, 300_000, 0, 0, 0];
    let out = run_trim(&input);
    assert_eq!(out, vec![500_000, 0, 0, 300_000]);
}

#[test]
fn all_silent_input_emits_nothing() {
    let input = [0, 1, -1, 4_999, -4_999];
    let out = run_trim(&input);
    assert_eq!(out, Vec::<i32>::new());
}

#[test]
fn sample_at_threshold_opens_the_latch() {
    // The first sample at or above the threshold opens the latch; only
    // strictly quieter samples count as silence.
    assert_eq!(run_trim(&[SILENCE_THRESHOLD - 1]), Vec::<i32>::new());
    assert_eq!(run_trim(&[SILENCE_THRESHOLD]), vec![SILENCE_THRESHOLD]);
    assert_eq!(run_trim(&[-SILENCE_THRESHOLD]), vec![-SILENCE_THRESHOLD]);
}

#[test]
fn interior_silence_flushes_in_order() {
    let input = [10_000, 0, 0, 0, 20_000];
    let out = run_trim(&input);
    assert_eq!(out, vec![10_000, 0, 0, 0, 20_000]);
}

#[test]
fn pending_length_reports_buffered_silence() {
    let mut trim = SilenceTrim::new();
    trim.push(10_000);
    trim.push(0);
    trim.push(0);
    assert_eq!(trim.pending_len(), 2);
    trim.push(20_000);
    assert_eq!(trim.pending_len(), 0);
}

#[test]
fn peak_meter_takes_buffer_maximum_and_decays() {
    // 0.1, -0.9, 0.3 of full scale: the reading is 0.9 immediately.
    let samples = vec![100_000, -900_000, 300_000];
    let mut meter = PeakMeter::new();
    meter.observe_buffer(&samples);
    assert_eq!(meter.level(), 900_000);
    // One idle poll decays by the factor 0.95.
    meter.decay();
    assert_eq!(meter.level(), 855_000);
    meter.decay();
    assert_eq!(meter.level(), 812_250);
}

#[test]
fn peak_meter_last_write_wins() {
    let mut meter = PeakMeter::new();
    meter.observe_buffer(&vec![900_000]);
    meter.observe_buffer(&vec![100_000]);
    assert_eq!(meter.level(), 100_000);
}

#[test]
fn peak_meter_decay_stops_at_floor() {
    let mut meter = PeakMeter::new();
    meter.observe_buffer(&vec![1_000]);
    meter.decay();
    assert_eq!(meter.level(), 1_000);
}

#[test]
fn peak_meter_reset_reads_zero() {
    let mut meter = PeakMeter::new();
    meter.observe_buffer(&vec![500_000]);
    meter.reset();
    assert_eq!(meter.level(), 0);
}

#[test]
fn peak_meter_caps_out_of_range_samples() {
    assert_eq!(buffer_peak(&vec![2_000_000, -3_000_000]), 1_000_000);
    assert_eq!(buffer_peak(&Vec::new()), 0);
}

#[test]
fn per_sample_observation_only_raises() {
    let mut meter = PeakMeter::new();
    meter.observe_sample(300_000);
    meter.observe_sample(100_000);
    assert_eq!(meter.level(), 300_000);
    meter.observe_sample(-400_000);
    assert_eq!(meter.level(), 400_000);
}
