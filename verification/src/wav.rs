//! The streaming container format: 16-bit PCM WAV.
//!
//! The sink appends the little-endian bytes of each quantized sample as it
//! arrives; finalization prepends the 44-byte RIFF header, whose size fields
//! are known only once the stream ends.  The byte layout is pinned down
//! exactly by the spec functions below.

use vstd::prelude::*;
use crate::errors::RecorderError;

verus! {

/// The largest sample count whose data-chunk byte length still fits the
/// 32-bit size fields of the container.
pub const MAX_WAV_SAMPLES: u32 = 2147483625;

/// Two's-complement reading of a 16-bit sample as an unsigned value.
pub open spec fn u16_of_i16(s: int) -> int {
    if s >= 0 {
        s
    } else {
        s + 0x10000
    }
}

/// A 16-bit value as two little-endian bytes.
pub open spec fn le16(v: int) -> Seq<u8> {
    seq![(v % 256) as u8, ((v / 256) % 256) as u8]
}

/// A 32-bit value as four little-endian bytes.
pub open spec fn le32(v: int) -> Seq<u8> {
    seq![
        (v % 256) as u8,
        ((v / 256) % 256) as u8,
        ((v / 65536) % 256) as u8,
        ((v / 16777216) % 256) as u8,
    ]
}

/// The data chunk: each sample as two little-endian bytes, in order.
pub open spec fn pcm16_bytes(samples: Seq<i16>) -> Seq<u8>
    decreases samples.len(),
{
    if samples.len() == 0 {
        Seq::empty()
    } else {
        pcm16_bytes(samples.drop_last()) + le16(u16_of_i16(samples.last() as int))
    }
}

/// The 44-byte RIFF/WAVE header for an integer-PCM file with 16 bits per
/// sample and a data chunk of `data_len` bytes.
pub open spec fn wav_header(channels: int, sample_rate: int, data_len: int) -> Seq<u8> {
    seq![82u8, 73u8, 70u8, 70u8]  // "RIFF"
     + le32(36 + data_len) + seq![87u8, 65u8, 86u8, 69u8]  // "WAVE"
     + seq![102u8, 109u8, 116u8, 32u8]  // "fmt "
     + le32(16) + le16(1)  // integer PCM
     + le16(channels) + le32(sample_rate) + le32(sample_rate * channels * 2) + le16(channels * 2)
        + le16(16) + seq![100u8, 97u8, 116u8, 97u8]  // "data"
     + le32(data_len)
}

/// The whole file: header followed by the data chunk.
pub open spec fn wav_file_bytes(samples: Seq<i16>, channels: int, sample_rate: int) -> Seq<u8> {
    wav_header(channels, sample_rate, 2 * samples.len() as int) + pcm16_bytes(samples)
}

/// Append a 16-bit value's little-endian bytes.
fn push_le16(out: &mut Vec<u8>, v: u16)
    ensures
        final(out)@ =~= old(out)@ + le16(v as int),
{
    out.push((v % 256) as u8);
    out.push((v / 256) as u8);
}

/// Append a 32-bit value's little-endian bytes.
fn push_le32(out: &mut Vec<u8>, v: u32)
    ensures
        final(out)@ =~= old(out)@ + le32(v as int),
{
    out.push((v % 256) as u8);
    out.push(((v / 256) % 256) as u8);
    out.push(((v / 65536) % 256) as u8);
    out.push((v / 16777216) as u8);
}

/// The streaming sink: container bytes accumulate as samples arrive.
pub struct WavSink {
    channels: u16,
    sample_rate: u32,
    data: Vec<u8>,
    count: u32,
    samples: Ghost<Seq<i16>>,
}

impl WavSink {
    /// The samples written so far, in order.
    pub closed spec fn spec_samples(&self) -> Seq<i16> {
        self.samples@
    }

    pub closed spec fn spec_channels(&self) -> int {
        self.channels as int
    }

    pub closed spec fn spec_sample_rate(&self) -> int {
        self.sample_rate as int
    }

    pub closed spec fn wf(&self) -> bool {
        &&& self.data@ == pcm16_bytes(self.samples@)
        &&& self.count as int == self.samples@.len()
        &&& self.count <= MAX_WAV_SAMPLES
        &&& 1 <= self.channels
        &&& self.channels as int * 2 <= u16::MAX as int
        &&& self.sample_rate as int * self.channels as int * 2 <= u32::MAX as int
    }

    /// A fresh sink with the stream parameters fixed.  The bounds keep the
    /// header's byte-rate and block-align fields inside their 32- and 16-bit
    /// slots.
    pub fn new(channels: u16, sample_rate: u32) -> (r: WavSink)
        requires
            1 <= channels,
            channels as int * 2 <= u16::MAX as int,
            sample_rate as int * channels as int * 2 <= u32::MAX as int,
        ensures
            r.wf(),
            r.spec_samples() =~= Seq::<i16>::empty(),
            r.spec_channels() == channels as int,
            r.spec_sample_rate() == sample_rate as int,
    {
        WavSink {
            channels,
            sample_rate,
            data: Vec::new(),
            count: 0,
            samples: Ghost(Seq::empty()),
        }
    }

    /// The number of samples written so far.
    pub fn sample_count(&self) -> (r: u32)
        requires
            self.wf(),
        ensures
            r as int == self.spec_samples().len(),
            r <= MAX_WAV_SAMPLES,
    {
        self.count
    }

    /// Append one quantized sample.  Fails only when the container's size
    /// fields are exhausted, leaving the sink unchanged.
    pub fn write_sample(&mut self, q: i16) -> (r: Result<(), RecorderError>)
        requires
            old(self).wf(),
        ensures
            final(self).wf(),
            final(self).spec_channels() == old(self).spec_channels(),
            final(self).spec_sample_rate() == old(self).spec_sample_rate(),
            r is Ok <==> old(self).spec_samples().len() < MAX_WAV_SAMPLES as int,
            r is Ok ==> final(self).spec_samples() =~= old(self).spec_samples().push(q),
            r is Err ==> *final(self) == *old(self) && r == Result::<(), RecorderError>::Err(
                RecorderError::SampleWriteFailed,
            ),
    {
        if self.count >= MAX_WAV_SAMPLES {
            return Err(RecorderError::SampleWriteFailed);
        }
        let u: u16 = if q >= 0 {
            q as u16
        } else {
            ((q as i32) + 65536) as u16
        };
        push_le16(&mut self.data, u);
        self.count = self.count + 1;
        self.samples = Ghost(self.samples@.push(q));
        proof {
            assert(self.samples@.drop_last() =~= old(self).samples@);
            assert(self.data@ == pcm16_bytes(self.samples@));
        }
        Ok(())
    }

    /// Close the stream: the finished file is the header for the final data
    /// length followed by the accumulated data chunk.
    pub fn finalize(self) -> (r: Vec<u8>)
        requires
            self.wf(),
        ensures
            r@ =~= wav_file_bytes(self.spec_samples(), self.spec_channels(), self.spec_sample_rate()),
    {
        proof {
            lemma_pcm16_bytes_len(self.samples@);
        }
        let WavSink { channels, sample_rate, data, count, samples } = self;
        let data_len: u32 = count * 2;
        let mut out: Vec<u8> = Vec::new();
        out.push(82u8);
        out.push(73u8);
        out.push(70u8);
        out.push(70u8);
        push_le32(&mut out, 36 + data_len);
        out.push(87u8);
        out.push(65u8);
        out.push(86u8);
        out.push(69u8);
        out.push(102u8);
        out.push(109u8);
        out.push(116u8);
        out.push(32u8);
        push_le32(&mut out, 16);
        push_le16(&mut out, 1);
        push_le16(&mut out, channels);
        push_le32(&mut out, sample_rate);
        push_le32(&mut out, sample_rate * (channels as u32) * 2);
        push_le16(&mut out, channels * 2);
        push_le16(&mut out, 16);
        out.push(100u8);
        out.push(97u8);
        out.push(116u8);
        out.push(97u8);
        push_le32(&mut out, data_len);
        proof {
            assert(out@ =~= wav_header(
                channels as int,
                sample_rate as int,
                2 * samples@.len() as int,
            ));
        }
        let mut data = data;
        out.append(&mut data);
        out
    }
}

/// The data chunk holds two bytes per sample.
pub proof fn lemma_pcm16_bytes_len(samples: Seq<i16>)
    ensures
        pcm16_bytes(samples).len() == 2 * samples.len(),
    decreases samples.len(),
{
    if samples.len() > 0 {
        lemma_pcm16_bytes_len(samples.drop_last());
    }
}

} // verus!
