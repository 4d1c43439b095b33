//! Output format selection and encoder instances.
//!
//! An encoder instance is owned by exactly one capture path, takes
//! fixed-point samples one at a time, and is consumed by `finalize`, which
//! yields the finished file's bytes.  The streaming backend appends
//! container bytes as samples arrive; the two buffered backends accumulate
//! samples and compress once at the end.  An optional silence-trimming latch
//! sits in front of whichever backend is active.  All three backends hold
//! their output in memory until the caller writes it out, so even the
//! streaming container's memory use grows with the recording; an
//! incremental drain of its finished bytes would lift that.

use vstd::prelude::*;
use crate::codec::{
    flac_bytes_of, flac_encode, flac_encode_ok, mp3_bytes_of, mp3_encode, mp3_encode_ok,
};
use crate::errors::RecorderError;
use crate::sample::{quantize16, quantize24, spec_quantize16, spec_quantize24};
use crate::trim::{trim_spec, SilenceTrim};
use crate::wav::{wav_file_bytes, WavSink, MAX_WAV_SAMPLES};

verus! {

/// The enumerated output formats, each with a fixed file extension.
#[derive(Debug, Clone, Copy, PartialEq, Eq, Structural)]
pub enum AudioFormat {
    Wav,
    Flac,
    Mp3,
}

pub open spec fn spec_extension(f: AudioFormat) -> Seq<char> {
    match f {
        AudioFormat::Wav => "wav"@,
        AudioFormat::Flac => "flac"@,
        AudioFormat::Mp3 => "mp3"@,
    }
}

impl AudioFormat {
    /// The file extension that the format's output files carry.
    pub fn extension(&self) -> (r: &'static str)
        ensures
            r@ == spec_extension(*self),
    {
        match self {
            AudioFormat::Wav => "wav",
            AudioFormat::Flac => "flac",
            AudioFormat::Mp3 => "mp3",
        }
    }
}

/// Bit depth of the lossless backend's quantization.
pub const FLAC_BITS: u32 = 24;

/// Each amplitude quantized to 16-bit PCM.
pub open spec fn quantized16_seq(s: Seq<i32>) -> Seq<i16> {
    s.map_values(|v: i32| spec_quantize16(v as int) as i16)
}

/// Each amplitude quantized to 24-bit PCM.
pub open spec fn quantized24_seq(s: Seq<i32>) -> Seq<i32> {
    s.map_values(|v: i32| spec_quantize24(v as int) as i32)
}

/// The PCM stream handed to the lossy encoder: multi-channel audio is cut
/// to whole interleaved frames (an odd trailing sample carries only half a
/// frame and is dropped, as the encoder itself would drop it).
pub open spec fn frame_aligned(pcm: Seq<i16>, channels: int) -> Seq<i16> {
    if channels == 1 {
        pcm
    } else {
        pcm.take(pcm.len() - (pcm.len() % 2))
    }
}

/// The finished file for a format, given the samples that reached the
/// backend (after any trimming) and the stream parameters.
pub open spec fn encode_spec(
    format: AudioFormat,
    written: Seq<i32>,
    channels: int,
    sample_rate: int,
) -> Seq<u8> {
    match format {
        AudioFormat::Wav => wav_file_bytes(quantized16_seq(written), channels, sample_rate),
        AudioFormat::Flac => flac_bytes_of(
            quantized24_seq(written),
            channels,
            FLAC_BITS as int,
            sample_rate,
        ),
        AudioFormat::Mp3 => mp3_bytes_of(
            frame_aligned(quantized16_seq(written), channels),
            channels,
            sample_rate,
        ),
    }
}

/// When finalization succeeds for a format, over the same data: always for
/// the streaming container, and exactly when the compressor accepts the
/// quantized stream and parameters for the buffered formats.
pub open spec fn encode_ok_spec(
    format: AudioFormat,
    written: Seq<i32>,
    channels: int,
    sample_rate: int,
) -> bool {
    match format {
        AudioFormat::Wav => true,
        AudioFormat::Flac => flac_encode_ok(
            quantized24_seq(written),
            channels,
            FLAC_BITS as int,
            sample_rate,
        ),
        AudioFormat::Mp3 => mp3_encode_ok(
            frame_aligned(quantized16_seq(written), channels),
            channels,
            sample_rate,
        ),
    }
}

/// A finished recording: where it belongs and the file's bytes.
pub struct FinishedRecording {
    pub path: String,
    pub bytes: Vec<u8>,
}

enum Backend {
    Wav(WavSink),
    Buffer(Vec<i32>),
}

/// One encoder: an output path, a backend, and an optional silence latch.
pub struct EncoderInstance {
    path: String,
    format: AudioFormat,
    channels: u16,
    sample_rate: u32,
    backend: Backend,
    trim: Option<SilenceTrim>,
    fed: Ghost<Seq<i32>>,
}

impl EncoderInstance {
    pub closed spec fn spec_path(&self) -> Seq<char> {
        self.path@
    }

    pub closed spec fn spec_format(&self) -> AudioFormat {
        self.format
    }

    pub closed spec fn spec_channels(&self) -> int {
        self.channels as int
    }

    pub closed spec fn spec_sample_rate(&self) -> int {
        self.sample_rate as int
    }

    /// Every sample handed to the encoder, before trimming.
    pub closed spec fn spec_fed(&self) -> Seq<i32> {
        self.fed@
    }

    pub closed spec fn spec_trim_enabled(&self) -> bool {
        self.trim is Some
    }

    /// The samples that reached the backend, after any trimming.
    pub closed spec fn spec_written(&self) -> Seq<i32> {
        match self.trim {
            Some(t) => t.spec_emitted(),
            None => self.fed@,
        }
    }

    /// Whether the backend has room for one more sample even if it forces a
    /// flush of the silence latch's whole buffered run.
    pub closed spec fn spec_can_accept(&self) -> bool {
        match self.backend {
            Backend::Wav(w) => w.spec_samples().len() + self.spec_pending() + 1
                <= MAX_WAV_SAMPLES as int,
            Backend::Buffer(_) => true,
        }
    }

    closed spec fn spec_pending(&self) -> int {
        match self.trim {
            Some(t) => t.spec_pending_len(),
            None => 0,
        }
    }

    pub closed spec fn wf(&self) -> bool {
        &&& match self.backend {
            Backend::Wav(w) => {
                &&& self.format is Wav
                &&& w.wf()
                &&& w.spec_channels() == self.channels as int
                &&& w.spec_sample_rate() == self.sample_rate as int
                &&& w.spec_samples() == quantized16_seq(self.spec_written())
            },
            Backend::Buffer(b) => {
                &&& (self.format is Flac || self.format is Mp3)
                &&& b@ == self.spec_written()
            },
        }
        &&& match self.trim {
            Some(t) => t.wf() && t.spec_processed() == self.fed@,
            None => true,
        }
        &&& 1 <= self.channels
        &&& self.channels as int * 2 <= u16::MAX as int
        &&& self.sample_rate as int * self.channels as int * 2 <= u32::MAX as int
    }

    /// The silence-trim law lifted to the encoder: with the latch enabled,
    /// the samples that reached the backend are exactly the whole-stream
    /// trimming of the samples fed; without it, everything fed reached the
    /// backend.
    pub proof fn lemma_written_is_trim(&self)
        requires
            self.wf(),
        ensures
            self.spec_trim_enabled() ==> self.spec_written() == trim_spec(self.spec_fed()),
            !self.spec_trim_enabled() ==> self.spec_written() == self.spec_fed(),
    {
        match &self.trim {
            Some(t) => crate::trim::lemma_emitted_matches_trim(t),
            None => {},
        }
    }

    /// The output path the instance was created with.
    pub fn path(&self) -> (r: &str)
        ensures
            r@ == self.spec_path(),
    {
        self.path.as_str()
    }

    /// Feed one fixed-point sample.  Fails only when the streaming
    /// container is out of room, leaving the instance unchanged.
    pub fn write_sample(&mut self, v: i32) -> (r: Result<(), RecorderError>)
        requires
            old(self).wf(),
        ensures
            final(self).wf(),
            final(self).spec_path() == old(self).spec_path(),
            final(self).spec_format() == old(self).spec_format(),
            final(self).spec_channels() == old(self).spec_channels(),
            final(self).spec_sample_rate() == old(self).spec_sample_rate(),
            final(self).spec_trim_enabled() == old(self).spec_trim_enabled(),
            r is Ok <==> old(self).spec_can_accept(),
            r is Ok ==> final(self).spec_fed() =~= old(self).spec_fed().push(v),
            r is Err ==> *final(self) == *old(self) && r == Result::<(), RecorderError>::Err(
                RecorderError::SampleWriteFailed,
            ),
            final(self).spec_trim_enabled() ==> final(self).spec_written() == trim_spec(
                final(self).spec_fed(),
            ),
            !final(self).spec_trim_enabled() ==> final(self).spec_written() == final(self).spec_fed(),
    {
        proof {
            match &self.trim {
                Some(t) => crate::trim::lemma_emitted_matches_trim(t),
                None => {},
            }
        }
        let pending: usize = match &self.trim {
            Some(t) => t.pending_len(),
            None => 0,
        };
        match &self.backend {
            Backend::Wav(w) => {
                let used = w.sample_count();
                let room: u32 = MAX_WAV_SAMPLES - used;
                if pending as u64 >= room as u64 {
                    return Err(RecorderError::SampleWriteFailed);
                }
            },
            Backend::Buffer(_) => {},
        }
        let out: Vec<i32> = match &mut self.trim {
            Some(t) => t.push(v),
            None => {
                let mut one: Vec<i32> = Vec::new();
                one.push(v);
                one
            },
        };
        self.fed = Ghost(self.fed@.push(v));
        let ghost written0 = old(self).spec_written();
        proof {
            assert(self.spec_written() =~= written0 + out@);
        }
        let mut bk = Backend::Buffer(Vec::new());
        core::mem::swap(&mut bk, &mut self.backend);
        match bk {
            Backend::Wav(mut w) => {
                let mut j: usize = 0;
                while j < out.len()
                    invariant
                        0 <= j <= out@.len(),
                        w.wf(),
                        w.spec_channels() == old(self).spec_channels(),
                        w.spec_sample_rate() == old(self).spec_sample_rate(),
                        w.spec_samples() =~= quantized16_seq(written0 + out@.take(j as int)),
                        w.spec_samples().len() + (out@.len() - j) <= MAX_WAV_SAMPLES as int,
                    decreases out@.len() - j,
                {
                    let q = quantize16(out[j]);
                    let res = w.write_sample(q);
                    proof {
                        if res is Err {
                            assert(false);
                        }
                        assert(q == spec_quantize16(out@[j as int] as int) as i16);
                        assert(quantized16_seq(written0 + out@.take(j + 1)) =~= quantized16_seq(
                            written0 + out@.take(j as int),
                        ).push(spec_quantize16(out@[j as int] as int) as i16));
                    }
                    j = j + 1;
                }
                proof {
                    assert(written0 + out@.take(out@.len() as int) =~= written0 + out@);
                    assert(w.spec_samples() =~= quantized16_seq(self.spec_written()));
                }
                self.backend = Backend::Wav(w);
            },
            Backend::Buffer(mut b) => {
                let mut j: usize = 0;
                while j < out.len()
                    invariant
                        0 <= j <= out@.len(),
                        b@ =~= written0 + out@.take(j as int),
                    decreases out@.len() - j,
                {
                    b.push(out[j]);
                    proof {
                        assert(b@ =~= written0 + out@.take(j + 1));
                    }
                    j = j + 1;
                }
                proof {
                    assert(b@ =~= written0 + out@);
                }
                self.backend = Backend::Buffer(b);
            },
        }
        proof {
            match &self.trim {
                Some(t) => crate::trim::lemma_emitted_matches_trim(t),
                None => {},
            }
        }
        Ok(())
    }

    /// Consume the instance and produce the finished file's bytes: always
    /// for the streaming format, and exactly when the compressor accepts
    /// the quantized stream for the buffered formats; a refusal surfaces
    /// `FinalizeFailed`.
    pub fn finalize(self) -> (r: Result<FinishedRecording, RecorderError>)
        requires
            self.wf(),
        ensures
            r is Ok <==> encode_ok_spec(
                self.spec_format(),
                self.spec_written(),
                self.spec_channels(),
                self.spec_sample_rate(),
            ),
            r is Ok ==> r.unwrap().path@ == self.spec_path() && r.unwrap().bytes@ == encode_spec(
                self.spec_format(),
                self.spec_written(),
                self.spec_channels(),
                self.spec_sample_rate(),
            ),
            r is Err ==> r == Result::<FinishedRecording, RecorderError>::Err(
                RecorderError::FinalizeFailed,
            ),
    {
        let EncoderInstance { path, format, channels, sample_rate, backend, trim, fed } = self;
        match backend {
            Backend::Wav(w) => {
                let bytes = w.finalize();
                Ok(FinishedRecording { path, bytes })
            },
            Backend::Buffer(b) => {
                match format {
                    AudioFormat::Flac => {
                        let q = quantize24_all(&b);
                        match flac_encode(&q, channels, FLAC_BITS, sample_rate) {
                            Some(bytes) => Ok(FinishedRecording { path, bytes }),
                            None => Err(RecorderError::FinalizeFailed),
                        }
                    },
                    AudioFormat::Mp3 => {
                        let mut q = quantize16_all(&b);
                        if channels != 1 && q.len() % 2 == 1 {
                            q.pop();
                        }
                        proof {
                            assert(q@ =~= frame_aligned(quantized16_seq(b@), channels as int));
                        }
                        match mp3_encode(&q, channels, sample_rate) {
                            Some(bytes) => Ok(FinishedRecording { path, bytes }),
                            None => Err(RecorderError::FinalizeFailed),
                        }
                    },
                    AudioFormat::Wav => {
                        proof {
                            assert(false);
                        }
                        Err(RecorderError::FinalizeFailed)
                    },
                }
            },
        }
    }

    /// The buffered formats accumulate in memory and never refuse a
    /// sample; only the streaming container's size fields can run out.
    pub proof fn lemma_buffered_always_accepts(&self)
        requires
            self.wf(),
        ensures
            !(self.spec_format() is Wav) ==> self.spec_can_accept(),
    {
        match self.backend {
            Backend::Wav(_) => {},
            Backend::Buffer(_) => {},
        }
    }
}

/// Quantize a whole buffer to 16-bit PCM.
fn quantize16_all(samples: &Vec<i32>) -> (r: Vec<i16>)
    ensures
        r@ =~= quantized16_seq(samples@),
{
    let mut r: Vec<i16> = Vec::new();
    let mut i: usize = 0;
    while i < samples.len()
        invariant
            0 <= i <= samples@.len(),
            r@.len() == i,
            forall|j: int|
                0 <= j < i ==> r@[j] as int == spec_quantize16(#[trigger] samples@[j] as int),
        decreases samples@.len() - i,
    {
        r.push(quantize16(samples[i]));
        i = i + 1;
    }
    proof {
        assert forall|j: int| 0 <= j < samples@.len() implies r@[j] == quantized16_seq(samples@)[j]
        by {
            assert(r@[j] as int == spec_quantize16(samples@[j] as int));
        }
    }
    r
}

/// Quantize a whole buffer to 24-bit PCM.
fn quantize24_all(samples: &Vec<i32>) -> (r: Vec<i32>)
    ensures
        r@ =~= quantized24_seq(samples@),
{
    let mut r: Vec<i32> = Vec::new();
    let mut i: usize = 0;
    while i < samples.len()
        invariant
            0 <= i <= samples@.len(),
            r@.len() == i,
            forall|j: int|
                0 <= j < i ==> r@[j] as int == spec_quantize24(#[trigger] samples@[j] as int),
        decreases samples@.len() - i,
    {
        r.push(quantize24(samples[i]));
        i = i + 1;
    }
    proof {
        assert forall|j: int| 0 <= j < samples@.len() implies r@[j] == quantized24_seq(samples@)[j]
        by {
            assert(r@[j] as int == spec_quantize24(samples@[j] as int));
        }
    }
    r
}

/// Build an encoder for the requested format, optionally behind the
/// silence latch.  The bounds keep the streaming container's header fields
/// inside their fixed-width slots.
pub fn create_encoder(
    path: &str,
    channels: u16,
    sample_rate: u32,
    format: AudioFormat,
    silence_trim: bool,
) -> (r: EncoderInstance)
    requires
        1 <= channels,
        channels as int * 2 <= u16::MAX as int,
        sample_rate as int * channels as int * 2 <= u32::MAX as int,
    ensures
        r.wf(),
        r.spec_path() == path@,
        r.spec_format() == format,
        r.spec_channels() == channels as int,
        r.spec_sample_rate() == sample_rate as int,
        r.spec_trim_enabled() == silence_trim,
        r.spec_fed() =~= Seq::<i32>::empty(),
        r.spec_written() =~= Seq::<i32>::empty(),
    {
    let backend = match format {
        AudioFormat::Wav => Backend::Wav(WavSink::new(channels, sample_rate)),
        AudioFormat::Flac => Backend::Buffer(Vec::new()),
        AudioFormat::Mp3 => Backend::Buffer(Vec::new()),
    };
    let trim = if silence_trim {
        Some(SilenceTrim::new())
    } else {
        None
    };
    let r = EncoderInstance {
        path: path.to_owned(),
        format,
        channels,
        sample_rate,
        backend,
        trim,
        fed: Ghost(Seq::empty()),
    };
    proof {
        assert(quantized16_seq(Seq::<i32>::empty()) =~= Seq::<i16>::empty());
    }
    r
}

} // verus!
