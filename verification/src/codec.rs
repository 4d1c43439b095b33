//! The buffered compressors, behind trusted wrappers.
//!
//! Both compressors are deterministic functions of the quantized samples
//! and the stream parameters: their byte images, and whether they succeed
//! at all, are named rather than spelled out, and everything around the
//! calls is verified against those names.

use vstd::prelude::*;
use flacenc::error::Verify;
use mp3lame_encoder::{max_required_buffer_size, Bitrate, Builder, FlushNoGap, InterleavedPcm, MonoPcm, Quality};

verus! {

/// The byte image that the lossless compressor produces for the given
/// quantized samples and stream parameters.
pub uninterp spec fn flac_bytes_of(
    samples: Seq<i32>,
    channels: int,
    bits: int,
    sample_rate: int,
) -> Seq<u8>;

/// Whether the lossless compressor accepts the given samples and stream
/// parameters at all (it refuses, for example, sample rates beyond the
/// format's ceiling).
pub uninterp spec fn flac_encode_ok(
    samples: Seq<i32>,
    channels: int,
    bits: int,
    sample_rate: int,
) -> bool;

/// The byte image that the lossy encoder produces for the given 16-bit PCM
/// samples and stream parameters, at the recorder's fixed bitrate and
/// quality.  The encoder computes in floating point, so the name stands
/// for the bytes of this build of it; bit-identity across machines is
/// assumed, not shown.
pub uninterp spec fn mp3_bytes_of(pcm: Seq<i16>, channels: int, sample_rate: int) -> Seq<u8>;

/// Whether the lossy encoder accepts the given PCM and stream parameters
/// at all (it refuses, for example, a channel count or sample rate it does
/// not support).
pub uninterp spec fn mp3_encode_ok(pcm: Seq<i16>, channels: int, sample_rate: int) -> bool;

/// Relies on flacenc (`config::Encoder::default().into_verified()`,
/// `MemSource::from_samples`, `encode_with_fixed_block_size`, `ByteSink`):
/// one compression pass over the whole buffer, deterministic in its inputs
/// both in whether it succeeds and in the bytes it produces.
#[verifier::external_body]
pub(crate) fn flac_encode(
    samples: &Vec<i32>,
    channels: u16,
    bits: u32,
    sample_rate: u32,
) -> (r: Option<Vec<u8>>)
    ensures
        r is Some <==> flac_encode_ok(samples@, channels as int, bits as int, sample_rate as int),
        r is Some ==> r.unwrap()@ == flac_bytes_of(
            samples@,
            channels as int,
            bits as int,
            sample_rate as int,
        ),
{
    let cfg = flacenc::config::Encoder::default().into_verified().ok()?;
    let src = flacenc::source::MemSource::from_samples(
        samples.as_slice(),
        channels as usize,
        bits as usize,
        sample_rate as usize,
    );
    let stream = flacenc::encode_with_fixed_block_size(&cfg, src, cfg.block_size).ok()?;
    let mut sink = flacenc::bitsink::ByteSink::new();
    flacenc::component::BitRepr::write(&stream, &mut sink).ok()?;
    Some(sink.into_inner())
}

/// Relies on mp3lame-encoder (`Builder`, `Encoder::encode_to_vec`,
/// `Encoder::flush_to_vec::<FlushNoGap>`): one encoding pass at 192 kbps,
/// best quality, deterministic in its inputs both in whether it succeeds
/// and in the bytes it produces.  The interleaved-input adapter used for
/// multi-channel audio asserts an even sample count in debug builds, so
/// that case is kept out by precondition.
#[verifier::external_body]
pub(crate) fn mp3_encode(pcm: &Vec<i16>, channels: u16, sample_rate: u32) -> (r: Option<Vec<u8>>)
    requires
        channels != 1 ==> pcm@.len() % 2 == 0,
    ensures
        r is Some <==> mp3_encode_ok(pcm@, channels as int, sample_rate as int),
        r is Some ==> r.unwrap()@ == mp3_bytes_of(pcm@, channels as int, sample_rate as int),
{
    let mut b = Builder::new()?;
    b.set_sample_rate(sample_rate).ok()?;
    b.set_num_channels(channels as u8).ok()?;
    b.set_brate(Bitrate::Kbps192).ok()?;
    b.set_quality(Quality::Best).ok()?;
    let mut enc = b.build().ok()?;
    let mut out: Vec<u8> = Vec::with_capacity(max_required_buffer_size(pcm.len()));
    let encoded = if channels == 1 {
        enc.encode_to_vec(MonoPcm(pcm.as_slice()), &mut out)
    } else {
        enc.encode_to_vec(InterleavedPcm(pcm.as_slice()), &mut out)
    };
    encoded.ok()?;
    enc.flush_to_vec::<FlushNoGap>(&mut out).ok()?;
    Some(out)
}

} // verus!
