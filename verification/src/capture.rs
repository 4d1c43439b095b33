//! The capture engine's session state machine.
//!
//! One session at a time: `start` installs a fresh encoder and fails with
//! `AlreadyRecording` while one is active; delivered buffers are metered and
//! fed through the encoder; `stop` finalizes and is a no-op when idle.  The
//! worker that pulls audio from the platform drives this machine and owns
//! nothing of its logic: it hands buffers to `feed`, idle polls to
//! `poll_idle`, and the elapsed time to `check_auto_stop`.

use vstd::prelude::*;
use crate::encoder::{
    create_encoder, encode_ok_spec, encode_spec, AudioFormat, EncoderInstance, FinishedRecording,
};
use crate::errors::RecorderError;
use crate::meter::{peak_of, PeakMeter};
use crate::trim::trim_spec;

verus! {

struct ActiveSession {
    encoder: EncoderInstance,
    max_duration_secs: Option<u32>,
}

/// The capture engine: at most one active session, plus the shared state
/// (recording flag, peak level) that status readers poll.
pub struct AudioCapture {
    session: Option<ActiveSession>,
    meter: PeakMeter,
}

impl AudioCapture {
    pub closed spec fn wf(&self) -> bool {
        &&& self.meter.wf()
        &&& match self.session {
            Some(s) => s.encoder.wf(),
            None => true,
        }
    }

    /// Whether a session is active.
    pub closed spec fn spec_recording(&self) -> bool {
        self.session is Some
    }

    /// The meter's current reading.
    pub closed spec fn spec_peak(&self) -> int {
        self.meter.spec_level()
    }

    /// The active session's output path (empty when idle).
    pub closed spec fn spec_path(&self) -> Seq<char> {
        match self.session {
            Some(s) => s.encoder.spec_path(),
            None => Seq::empty(),
        }
    }

    pub closed spec fn spec_format(&self) -> AudioFormat {
        match self.session {
            Some(s) => s.encoder.spec_format(),
            None => AudioFormat::Wav,
        }
    }

    pub closed spec fn spec_channels(&self) -> int {
        match self.session {
            Some(s) => s.encoder.spec_channels(),
            None => 0,
        }
    }

    pub closed spec fn spec_sample_rate(&self) -> int {
        match self.session {
            Some(s) => s.encoder.spec_sample_rate(),
            None => 0,
        }
    }

    /// Every sample delivered to the active session so far.
    pub closed spec fn spec_fed(&self) -> Seq<i32> {
        match self.session {
            Some(s) => s.encoder.spec_fed(),
            None => Seq::empty(),
        }
    }

    /// The samples that reached the session's backend (after trimming).
    pub closed spec fn spec_written(&self) -> Seq<i32> {
        match self.session {
            Some(s) => s.encoder.spec_written(),
            None => Seq::empty(),
        }
    }

    pub closed spec fn spec_trim_enabled(&self) -> bool {
        match self.session {
            Some(s) => s.encoder.spec_trim_enabled(),
            None => false,
        }
    }

    pub closed spec fn spec_max_duration(&self) -> Option<u32> {
        match self.session {
            Some(s) => s.max_duration_secs,
            None => None,
        }
    }

    pub closed spec fn spec_can_accept(&self) -> bool {
        match self.session {
            Some(s) => s.encoder.spec_can_accept(),
            None => false,
        }
    }

    /// The two engines hold the same session state (the meter aside).
    pub closed spec fn spec_same_session(&self, other: &AudioCapture) -> bool {
        self.session == other.session
    }

    /// A fresh engine: idle, peak at zero.
    pub fn new() -> (r: AudioCapture)
        ensures
            r.wf(),
            !r.spec_recording(),
            r.spec_peak() == 0,
    {
        AudioCapture { session: None, meter: PeakMeter::new() }
    }

    /// Non-blocking: whether a session is active.
    pub fn is_recording(&self) -> (r: bool)
        ensures
            r == self.spec_recording(),
    {
        self.session.is_some()
    }

    /// Non-blocking: the current peak reading.
    pub fn peak_level(&self) -> (r: i32)
        ensures
            r as int == self.spec_peak(),
    {
        self.meter.level()
    }

    /// Begin a session.  Fails with `AlreadyRecording`, touching nothing,
    /// while one is active; otherwise installs a fresh encoder for the
    /// given output path, format and stream parameters.
    pub fn start(
        &mut self,
        output_path: &str,
        format: AudioFormat,
        silence_trim: bool,
        max_duration_secs: Option<u32>,
        channels: u16,
        sample_rate: u32,
    ) -> (r: Result<(), RecorderError>)
        requires
            old(self).wf(),
            1 <= channels,
            channels as int * 2 <= u16::MAX as int,
            sample_rate as int * channels as int * 2 <= u32::MAX as int,
        ensures
            final(self).wf(),
            r is Ok <==> !old(self).spec_recording(),
            r is Err ==> *final(self) == *old(self) && r == Result::<(), RecorderError>::Err(
                RecorderError::AlreadyRecording,
            ),
            r is Ok ==> {
                &&& final(self).spec_recording()
                &&& final(self).spec_path() == output_path@
                &&& final(self).spec_format() == format
                &&& final(self).spec_trim_enabled() == silence_trim
                &&& final(self).spec_channels() == channels as int
                &&& final(self).spec_sample_rate() == sample_rate as int
                &&& final(self).spec_max_duration() == max_duration_secs
                &&& final(self).spec_fed() =~= Seq::<i32>::empty()
                &&& final(self).spec_written() =~= Seq::<i32>::empty()
                &&& final(self).spec_peak() == old(self).spec_peak()
            },
    {
        if self.session.is_some() {
            return Err(RecorderError::AlreadyRecording);
        }
        let encoder = create_encoder(output_path, channels, sample_rate, format, silence_trim);
        self.session = Some(ActiveSession { encoder, max_duration_secs });
        Ok(())
    }

    /// Deliver one buffer of fixed-point samples.  The peak meter takes the
    /// buffer's maximum (last write wins), then every sample goes through
    /// the encoder; a failed write abandons the buffer's remaining samples
    /// but keeps the session.  Idle calls do nothing.  Returns how many of
    /// the buffer's samples were accepted.
    pub fn feed(&mut self, samples: &Vec<i32>) -> (written: usize)
        requires
            old(self).wf(),
        ensures
            final(self).wf(),
            !old(self).spec_recording() ==> *final(self) == *old(self) && written == 0,
            old(self).spec_recording() ==> {
                &&& final(self).spec_recording()
                &&& final(self).spec_peak() == peak_of(samples@)
                &&& written <= samples@.len()
                &&& final(self).spec_fed() =~= old(self).spec_fed() + samples@.take(written as int)
                &&& (written < samples@.len() ==> !final(self).spec_can_accept())
                &&& final(self).spec_path() == old(self).spec_path()
                &&& final(self).spec_format() == old(self).spec_format()
                &&& final(self).spec_channels() == old(self).spec_channels()
                &&& final(self).spec_sample_rate() == old(self).spec_sample_rate()
                &&& final(self).spec_trim_enabled() == old(self).spec_trim_enabled()
                &&& final(self).spec_max_duration() == old(self).spec_max_duration()
            },
    {
        if self.session.is_none() {
            return 0;
        }
        self.meter.observe_buffer(samples);
        let mut bk: Option<ActiveSession> = None;
        core::mem::swap(&mut bk, &mut self.session);
        let mut s = match bk {
            Some(s) => s,
            None => {
                proof {
                    assert(false);
                }
                return 0;
            },
        };
        let ghost fed0 = s.encoder.spec_fed();
        let mut i: usize = 0;
        while i < samples.len()
            invariant
                0 <= i <= samples@.len(),
                s.encoder.wf(),
                s.encoder.spec_fed() =~= fed0 + samples@.take(i as int),
                s.encoder.spec_path() == old(self).spec_path(),
                s.encoder.spec_format() == old(self).spec_format(),
                s.encoder.spec_channels() == old(self).spec_channels(),
                s.encoder.spec_sample_rate() == old(self).spec_sample_rate(),
                s.encoder.spec_trim_enabled() == old(self).spec_trim_enabled(),
                s.max_duration_secs == old(self).spec_max_duration(),
                old(self).session is Some,
                fed0 == old(self).spec_fed(),
            ensures
                i < samples@.len() ==> !s.encoder.spec_can_accept(),
            decreases samples@.len() - i,
        {
            match s.encoder.write_sample(samples[i]) {
                Ok(_) => {
                    proof {
                        assert((fed0 + samples@.take(i as int)).push(samples@[i as int]) =~= fed0
                            + samples@.take(i + 1));
                    }
                    i = i + 1;
                },
                Err(_) => {
                    break;
                },
            }
        }
        let written = i;
        self.session = Some(s);
        written
    }

    /// One idle poll with no audio: decay the peak reading.
    pub fn poll_idle(&mut self)
        requires
            old(self).wf(),
        ensures
            final(self).wf(),
            final(self).spec_same_session(old(self)),
            final(self).spec_peak() == if old(self).spec_peak() > crate::meter::DECAY_FLOOR as int {
                (old(self).spec_peak() * 95) / 100
            } else {
                old(self).spec_peak()
            },
    {
        self.meter.decay();
    }

    /// End the session: finalize the encoder, reset the meter, and return
    /// the finished file.  Idle calls — including a second `stop` — return
    /// `Ok(None)` and never fail.
    pub fn stop(&mut self) -> (r: Result<Option<FinishedRecording>, RecorderError>)
        requires
            old(self).wf(),
        ensures
            final(self).wf(),
            !final(self).spec_recording(),
            final(self).spec_peak() == 0,
            !old(self).spec_recording() ==> r == Result::<Option<FinishedRecording>,
                RecorderError,
            >::Ok(None),
            old(self).spec_recording() ==> (r is Ok <==> encode_ok_spec(
                old(self).spec_format(),
                old(self).spec_written(),
                old(self).spec_channels(),
                old(self).spec_sample_rate(),
            )),
            old(self).spec_recording() ==> match r {
                Ok(Some(f)) => f.path@ == old(self).spec_path() && f.bytes@ == encode_spec(
                    old(self).spec_format(),
                    old(self).spec_written(),
                    old(self).spec_channels(),
                    old(self).spec_sample_rate(),
                ),
                Ok(None) => false,
                Err(e) => e == RecorderError::FinalizeFailed,
            },
            old(self).spec_trim_enabled() ==> old(self).spec_written() == trim_spec(
                old(self).spec_fed(),
            ),
            old(self).spec_recording() && !old(self).spec_trim_enabled() ==> old(
                self,
            ).spec_written() == old(self).spec_fed(),
    {
        proof {
            match &self.session {
                Some(s) => s.encoder.lemma_written_is_trim(),
                None => {},
            }
        }
        self.meter.reset();
        let mut bk: Option<ActiveSession> = None;
        core::mem::swap(&mut bk, &mut self.session);
        match bk {
            None => Ok(None),
            Some(s) => match s.encoder.finalize() {
                Ok(f) => Ok(Some(f)),
                Err(e) => Err(e),
            },
        }
    }

    /// Enforce the optional auto-stop: once the elapsed time reaches the
    /// session's maximum duration, the session ends exactly as an explicit
    /// `stop` would, with no external call needed.  Otherwise nothing
    /// changes and `Ok(None)` is returned.
    pub fn check_auto_stop(&mut self, elapsed_secs: u64) -> (r: Result<
        Option<FinishedRecording>,
        RecorderError,
    >)
        requires
            old(self).wf(),
        ensures
            final(self).wf(),
            !spec_auto_stop_due(old(self).spec_recording(), old(self).spec_max_duration(), elapsed_secs)
                ==> *final(self) == *old(self) && r == Result::<Option<FinishedRecording>,
                RecorderError,
            >::Ok(None),
            spec_auto_stop_due(old(self).spec_recording(), old(self).spec_max_duration(), elapsed_secs)
                ==> {
                &&& !final(self).spec_recording()
                &&& final(self).spec_peak() == 0
                &&& (r is Ok <==> encode_ok_spec(
                    old(self).spec_format(),
                    old(self).spec_written(),
                    old(self).spec_channels(),
                    old(self).spec_sample_rate(),
                ))
                &&& match r {
                    Ok(Some(f)) => f.path@ == old(self).spec_path() && f.bytes@ == encode_spec(
                        old(self).spec_format(),
                        old(self).spec_written(),
                        old(self).spec_channels(),
                        old(self).spec_sample_rate(),
                    ),
                    Ok(None) => false,
                    Err(e) => e == RecorderError::FinalizeFailed,
                }
            },
    {
        let due: bool = match &self.session {
            Some(s) => match s.max_duration_secs {
                Some(m) => elapsed_secs >= m as u64,
                None => false,
            },
            None => false,
        };
        if due {
            self.stop()
        } else {
            Ok(None)
        }
    }
}

/// A session stopped before any audio was delivered yields a well-formed
/// empty file, whatever the format: nothing survives trimming of an empty
/// stream, and the encoded image is the image of the empty sample sequence
/// — for the streaming container, exactly the 44-byte header over an empty
/// data chunk, never a torn file.
pub proof fn lemma_empty_session_file(format: AudioFormat, channels: int, sample_rate: int)
    ensures
        trim_spec(Seq::<i32>::empty()) =~= Seq::<i32>::empty(),
        encode_spec(format, Seq::<i32>::empty(), channels, sample_rate) == encode_spec(
            format,
            trim_spec(Seq::<i32>::empty()),
            channels,
            sample_rate,
        ),
        encode_spec(AudioFormat::Wav, Seq::<i32>::empty(), channels, sample_rate)
            =~= crate::wav::wav_header(channels, sample_rate, 0),
        crate::wav::wav_header(channels, sample_rate, 0).len() == 44,
{
    assert(crate::encoder::quantized16_seq(Seq::<i32>::empty()) =~= Seq::<i16>::empty());
    assert(crate::encoder::quantized24_seq(Seq::<i32>::empty()) =~= Seq::<i32>::empty());
    assert(crate::wav::pcm16_bytes(Seq::<i16>::empty()) =~= Seq::<u8>::empty());
    assert(crate::wav::wav_file_bytes(Seq::<i16>::empty(), channels, sample_rate)
        =~= crate::wav::wav_header(channels, sample_rate, 0));
}

/// When the auto-stop fires: a session is active, it has a maximum
/// duration, and that much time has elapsed.
pub open spec fn spec_auto_stop_due(
    recording: bool,
    max_duration_secs: Option<u32>,
    elapsed_secs: u64,
) -> bool {
    recording && match max_duration_secs {
        Some(m) => elapsed_secs >= m as u64,
        None => false,
    }
}

} // verus!
