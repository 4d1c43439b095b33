//! Fixed-point conversion and quantization behavior.

use discrec::sample::{
    abs_capped, clamp_unit, dequantize16, pcm16_to_amp, quantize16, quantize24, PCM16_MAX,
    PCM24_MAX, UNIT,
};

#[test]
fn unit_constants_are_consistent() {
    assert_eq!(UNIT, 1_000_000);
    assert_eq!(PCM16_MAX, 32_767);
    assert_eq!(PCM24_MAX, 8_388_607);
}

#[test]
fn clamp_limits_to_full_scale() {
    assert_eq!(clamp_unit(0), 0);
    assert_eq!(clamp_unit(999_999), 999_999);
    assert_eq!(clamp_unit(1_500_000), 1_000_000);
    assert_eq!(clamp_unit(-1_500_000), -1_000_000);
    assert_eq!(clamp_unit(-1_000_000), -1_000_000);
}

#[test]
fn abs_capped_handles_extremes() {
    assert_eq!(abs_capped(0), 0);
    assert_eq!(abs_capped(-900_000), 900_000);
    assert_eq!(abs_capped(i32::MIN), 1_000_000);
    assert_eq!(abs_capped(i32::MAX), 1_000_000);
}

#[test]
fn pcm16_normalization_exact_values() {
    assert_eq!(pcm16_to_amp(0), 0);
    assert_eq!(pcm16_to_amp(32767), 1_000_000);
    assert_eq!(pcm16_to_amp(-32767), -1_000_000);
    // One step below negative full scale lands just outside [-1, 1].
    assert_eq!(pcm16_to_amp(-32768), -1_000_030);
    // 1/32767, truncated toward zero.
    assert_eq!(pcm16_to_amp(1), 30);
    assert_eq!(pcm16_to_amp(-1), -30);
}

#[test]
fn quantize16_exact_values() {
    assert_eq!(quantize16(0), 0);
    assert_eq!(quantize16(1_000_000), 32767);
    assert_eq!(quantize16(-1_000_000), -32767);
    // Clamped before scaling.
    assert_eq!(quantize16(2_000_000), 32767);
    assert_eq!(quantize16(-2_000_000), -32767);
    assert_eq!(quantize16(500_000), 16384);  // rounds up from 16383.5
    assert_eq!(quantize16(300_000), 9830);
}

#[test]
fn quantize24_exact_values() {
    assert_eq!(quantize24(0), 0);
    assert_eq!(quantize24(1_000_000), 8_388_607);
    assert_eq!(quantize24(-3_000_000), -8_388_607);
    assert_eq!(quantize24(500_000), 4_194_304);
}

#[test]
fn lossy_round_trip_stays_within_quantization_error() {
    // The round trip of the buffered-lossy path's quantization step: for a
    // sweep of amplitudes, decoding the quantized sample lands within the
    // proven error bound of the clamped input.
    let mut v: i32 = -1_500_000;
    while v <= 1_500_000 {
        let clamped = clamp_unit(v);
        let back = dequantize16(quantize16(v));
        assert!(
            (back - clamped).abs() <= 16,
            "amplitude {} decoded to {} (clamped {})",
            v,
            back,
            clamped
        );
        v += 7_919;
    }
}

#[test]
fn pcm16_survives_the_streaming_path_exactly() {
    // Normalize-then-quantize is the identity on every 16-bit value: the
    // streaming container loses nothing of a 16-bit source.
    let mut s: i32 = -32767;
    while s <= 32767 {
        let back = quantize16(pcm16_to_amp(s as i16)) as i32;
        assert_eq!(back, s, "PCM value {} came back {}", s, back);
        s += 1;
    }
}

#[test]
fn dequantize_of_full_scale_is_exact() {
    assert_eq!(dequantize16(32767), 1_000_000);
    assert_eq!(dequantize16(-32767), -1_000_000);
    assert_eq!(dequantize16(0), 0);
}
