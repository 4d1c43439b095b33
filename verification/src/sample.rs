//! Fixed-point amplitude model.
//!
//! A sample amplitude is an `i32` in units of one millionth of full scale:
//! `UNIT` stands for +1.0, `-UNIT` for -1.0.  Integer PCM delivered by the
//! platform or the voice transport is normalized by dividing by the format's
//! maximum magnitude, truncating toward zero, exactly as a float pipeline
//! would divide by `i16::MAX`.  Encoders quantize back to integer PCM with
//! clamping to full scale first.

use vstd::prelude::*;
use vstd::arithmetic::div_mod::lemma_div_is_ordered;
use vstd::arithmetic::div_mod::lemma_fundamental_div_mod;

verus! {

/// Full scale: the amplitude standing for 1.0.
pub const UNIT: i32 = 1000000;

/// Maximum magnitude of a 16-bit PCM sample.
pub const PCM16_MAX: i32 = 32767;

/// Maximum magnitude of a 24-bit PCM sample.
pub const PCM24_MAX: i32 = 8388607;

pub open spec fn amp_abs(v: int) -> int {
    if v < 0 {
        -v
    } else {
        v
    }
}

/// Clamp an amplitude to [-1.0, +1.0].
pub open spec fn clamp_amp(v: int) -> int {
    if v < -(UNIT as int) {
        -(UNIT as int)
    } else if v > UNIT as int {
        UNIT as int
    } else {
        v
    }
}

/// `v * num / den`, truncating toward zero, for positive `num` and `den`.
pub open spec fn scale_trunc(v: int, num: int, den: int) -> int {
    if v >= 0 {
        (v * num) / den
    } else {
        -(((-v) * num) / den)
    }
}

/// `v * num / den`, rounding half away from zero, for positive `num` and
/// `den`.  Quantization rounds so that normalizing a PCM sample and
/// quantizing it back is the identity; normalization itself truncates, as
/// a division by the format's maximum magnitude does.
pub open spec fn scale_round(v: int, num: int, den: int) -> int {
    if v >= 0 {
        (v * num + den / 2) / den
    } else {
        -(((-v) * num + den / 2) / den)
    }
}

/// A 16-bit PCM sample normalized to fixed point.
pub open spec fn spec_pcm16_to_amp(s: int) -> int {
    scale_trunc(s, UNIT as int, PCM16_MAX as int)
}

/// An amplitude clamped and scaled to the nearest 16-bit PCM sample.
pub open spec fn spec_quantize16(v: int) -> int {
    scale_round(clamp_amp(v), PCM16_MAX as int, UNIT as int)
}

/// A 16-bit PCM sample scaled back to fixed point.
pub open spec fn spec_dequantize16(q: int) -> int {
    scale_trunc(q, UNIT as int, PCM16_MAX as int)
}

/// An amplitude clamped and scaled to the nearest 24-bit PCM sample.
pub open spec fn spec_quantize24(v: int) -> int {
    scale_round(clamp_amp(v), PCM24_MAX as int, UNIT as int)
}

/// Clamp an amplitude to full scale.
pub fn clamp_unit(v: i32) -> (r: i32)
    ensures
        r == clamp_amp(v as int),
{
    if v < -UNIT {
        -UNIT
    } else if v > UNIT {
        UNIT
    } else {
        v
    }
}

/// `|v|` capped at full scale; safe on every `i32` value.
pub fn abs_capped(v: i32) -> (r: i32)
    ensures
        r == if amp_abs(v as int) > UNIT as int {
            UNIT as int
        } else {
            amp_abs(v as int)
        },
{
    if v >= 0 {
        if v > UNIT {
            UNIT
        } else {
            v
        }
    } else {
        let m: i64 = -(v as i64);
        if m > UNIT as i64 {
            UNIT
        } else {
            m as i32
        }
    }
}

/// Normalize one 16-bit PCM sample to fixed point.
pub fn pcm16_to_amp(s: i16) -> (r: i32)
    ensures
        r == spec_pcm16_to_amp(s as int),
{
    if s >= 0 {
        let m: u64 = s as u64;
        let scaled: u64 = (m * 1000000) / 32767;
        proof {
            lemma_div_is_ordered((m * 1000000) as int, 32767000000int, 32767int);
        }
        scaled as i32
    } else {
        let m: u64 = (-(s as i64)) as u64;
        let scaled: u64 = (m * 1000000) / 32767;
        proof {
            lemma_div_is_ordered((m * 1000000) as int, 32768000000int, 32767int);
        }
        -(scaled as i32)
    }
}

/// Quantize an amplitude to the nearest 16-bit PCM sample, clamping
/// first.
pub fn quantize16(v: i32) -> (r: i16)
    ensures
        r == spec_quantize16(v as int),
{
    let c = clamp_unit(v);
    if c >= 0 {
        let m: u64 = c as u64;
        let scaled: u64 = (m * 32767 + 500000) / 1000000;
        proof {
            lemma_div_is_ordered((m * 32767 + 500000) as int, 32767500000int, 1000000int);
        }
        scaled as i16
    } else {
        let m: u64 = (-(c as i64)) as u64;
        let scaled: u64 = (m * 32767 + 500000) / 1000000;
        proof {
            lemma_div_is_ordered((m * 32767 + 500000) as int, 32767500000int, 1000000int);
        }
        -(scaled as i16)
    }
}

/// Scale a 16-bit PCM sample back to fixed point.
pub fn dequantize16(q: i16) -> (r: i32)
    ensures
        r == spec_dequantize16(q as int),
{
    pcm16_to_amp(q)
}

/// Quantize an amplitude to the nearest 24-bit PCM sample, clamping
/// first.
pub fn quantize24(v: i32) -> (r: i32)
    ensures
        r == spec_quantize24(v as int),
{
    let c = clamp_unit(v);
    if c >= 0 {
        let m: u64 = c as u64;
        let scaled: u64 = (m * 8388607 + 500000) / 1000000;
        proof {
            lemma_div_is_ordered((m * 8388607 + 500000) as int, 8388607500000int, 1000000int);
        }
        scaled as i32
    } else {
        let m: u64 = (-(c as i64)) as u64;
        let scaled: u64 = (m * 8388607 + 500000) / 1000000;
        proof {
            lemma_div_is_ordered((m * 8388607 + 500000) as int, 8388607500000int, 1000000int);
        }
        -(scaled as i32)
    }
}

/// Round trip of the lossy quantization step: quantizing an amplitude to
/// the nearest 16-bit PCM sample and scaling it back lands within a fixed
/// quantization error of the clamped input, for every amplitude.
pub proof fn lemma_lossy_round_trip(v: int)
    ensures
        amp_abs(spec_dequantize16(spec_quantize16(v)) - clamp_amp(v)) <= 16,
{
    let c = clamp_amp(v);
    if c >= 0 {
        lemma_round_trip_nonneg(c);
    } else {
        lemma_round_trip_nonneg(-c);
        let x = -c;
        let q = (x * 32767 + 500000) / 1000000;
        assert(spec_quantize16(v) == -q);
        assert(spec_dequantize16(-q) == -((q * 1000000) / 32767));
    }
}

proof fn lemma_round_trip_nonneg(x: int)
    requires
        0 <= x <= 1000000,
    ensures
        0 <= (x * 32767 + 500000) / 1000000 <= 32767,
        x - 16 <= (((x * 32767 + 500000) / 1000000) * 1000000) / 32767 <= x + 15,
{
    let q = (x * 32767 + 500000) / 1000000;
    lemma_fundamental_div_mod(x * 32767 + 500000, 1000000);
    lemma_div_is_ordered(0, x * 32767 + 500000, 1000000int);
    lemma_div_is_ordered(x * 32767 + 500000, 32767500000int, 1000000int);
    assert(0 <= q <= 32767);
    let r = (q * 1000000) / 32767;
    lemma_fundamental_div_mod(q * 1000000, 32767);
    assert(q * 1000000 <= x * 32767 + 500000);
    assert(q * 1000000 > x * 32767 - 500000);
    assert(r * 32767 <= q * 1000000);
    assert(r * 32767 > q * 1000000 - 32767);
    assert(r <= x + 15) by {
        assert((x + 16) * 32767 == x * 32767 + 524272) by (nonlinear_arith);
        if r >= x + 16 {
            assert(r * 32767 >= (x + 16) * 32767) by (nonlinear_arith)
                requires
                    r >= x + 16,
            ;
        }
    }
    assert(r >= x - 16) by {
        assert((x - 17) * 32767 == x * 32767 - 557039) by (nonlinear_arith);
        if r <= x - 17 {
            assert(r * 32767 <= (x - 17) * 32767) by (nonlinear_arith)
                requires
                    r <= x - 17,
            ;
        }
    }
}

/// The streaming path is lossless for 16-bit sources: a PCM sample
/// normalized to fixed point and quantized back to the nearest 16-bit
/// sample comes back exactly, for every value of the format.
pub proof fn lemma_pcm16_round_trip(s: int)
    requires
        -(PCM16_MAX as int) <= s <= PCM16_MAX as int,
    ensures
        spec_quantize16(spec_pcm16_to_amp(s)) == s,
{
    if s >= 0 {
        lemma_pcm16_identity_nonneg(s);
        let c = (s * 1000000) / 32767;
        assert(clamp_amp(c) == c);
    } else {
        lemma_pcm16_identity_nonneg(-s);
        let m = ((-s) * 1000000) / 32767;
        assert(spec_pcm16_to_amp(s) == -m);
        lemma_div_is_ordered(0, (-s) * 1000000, 32767int);
        assert(m >= 0);
        if m == 0 {
            lemma_fundamental_div_mod((-s) * 1000000, 32767);
            assert((-s) * 1000000 < 32767);
            assert((-s) * 1000000 >= 1000000) by (nonlinear_arith)
                requires
                    -s >= 1,
            ;
        }
        assert(clamp_amp(-m) == -m);
        assert(spec_quantize16(-m) == -((m * 32767 + 500000) / 1000000));
    }
}

proof fn lemma_pcm16_identity_nonneg(s: int)
    requires
        0 <= s <= 32767,
    ensures
        0 <= (s * 1000000) / 32767 <= 1000000,
        ((((s * 1000000) / 32767) * 32767) + 500000) / 1000000 == s,
{
    let c = (s * 1000000) / 32767;
    lemma_fundamental_div_mod(s * 1000000, 32767);
    lemma_div_is_ordered(0, s * 1000000, 32767int);
    lemma_div_is_ordered(s * 1000000, 32767000000int, 32767int);
    assert(32767000000int / 32767int == 1000000) by {
        vstd::arithmetic::div_mod::lemma_fundamental_div_mod_converse(
            32767000000int,
            32767int,
            1000000int,
            0int,
        );
    }
    assert(0 <= c <= 1000000);
    assert(c * 32767 <= s * 1000000);
    assert(c * 32767 > s * 1000000 - 32767);
    let q = (c * 32767 + 500000) / 1000000;
    assert((s * 1000000 + 500000) / 1000000 == s) by {
        vstd::arithmetic::div_mod::lemma_fundamental_div_mod_converse(
            s * 1000000 + 500000,
            1000000int,
            s,
            500000int,
        );
    }
    assert((s * 1000000 - 1000000 + 500001) / 1000000 == s - 1) by {
        vstd::arithmetic::div_mod::lemma_fundamental_div_mod_converse(
            s * 1000000 - 1000000 + 500001,
            1000000int,
            s - 1,
            500001int,
        );
    }
    lemma_div_is_ordered(c * 32767 + 500000, s * 1000000 + 500000, 1000000int);
    assert(q <= s);
    lemma_div_is_ordered(s * 1000000 - 32766 + 500000, c * 32767 + 500000, 1000000int);
    lemma_div_is_ordered(s * 1000000 - 1000000 + 500001, s * 1000000 - 32766 + 500000, 1000000int);
    assert(q >= s - 1);
    if q == s - 1 {
        lemma_fundamental_div_mod(c * 32767 + 500000, 1000000);
        assert(c * 32767 + 500000 < (s - 1) * 1000000 + 1000000) by (nonlinear_arith)
            requires
                c * 32767 + 500000 == 1000000 * (s - 1) + (c * 32767 + 500000) % 1000000,
                (c * 32767 + 500000) % 1000000 < 1000000,
        ;
        assert(c * 32767 < s * 1000000 - 500000);
        assert(c * 32767 > s * 1000000 - 32767);
    }
}

} // verus!
