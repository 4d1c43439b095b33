//! The multi-speaker receiver.
//!
//! Fed by a connected voice session's callbacks: speaker-identity updates
//! map a transport source identifier (SSRC) to a stable speaker identity,
//! and audio ticks deliver decoded 16-bit PCM for zero or more active
//! sources.  One mono encoder exists per source, created lazily on its
//! first audio and named by the resolved identity if one is known at that
//! moment — an encoder is never renamed afterwards.

use vstd::prelude::*;
use crate::encoder::{
    create_encoder, encode_ok_spec, encode_spec, AudioFormat, EncoderInstance, FinishedRecording,
};
use crate::errors::RecorderError;
use crate::meter::{peak_of, PeakMeter};
use crate::naming::{
    join_path, speaker_filename, speaker_label, spec_joined_path, spec_speaker_filename,
    spec_speaker_label,
};
use crate::sample::{pcm16_to_amp, spec_pcm16_to_amp};

verus! {

/// Per-speaker sample rate: the voice transport delivers 48 kHz audio.
pub const VOICE_SAMPLE_RATE: u32 = 48000;

/// Per-speaker channel count: one mono track per speaker.
pub const VOICE_CHANNELS: u16 = 1;

/// The first value bound to a key in an association list.
pub open spec fn assoc_find<T>(s: Seq<(u32, T)>, k: u32) -> Option<T>
    decreases s.len(),
{
    if s.len() == 0 {
        None
    } else if s.first().0 == k {
        Some(s.first().1)
    } else {
        assoc_find(s.drop_first(), k)
    }
}

pub open spec fn assoc_keys_unique<T>(s: Seq<(u32, T)>) -> bool {
    forall|i: int, j: int| 0 <= i < j < s.len() ==> (#[trigger] s[i]).0 != (#[trigger] s[j]).0
}

/// `assoc_find` returns the entry at the first index holding the key.
pub proof fn lemma_assoc_find_hit<T>(s: Seq<(u32, T)>, k: u32, i: int)
    requires
        0 <= i < s.len(),
        s[i].0 == k,
        forall|j: int| 0 <= j < i ==> (#[trigger] s[j]).0 != k,
    ensures
        assoc_find(s, k) == Some(s[i].1),
    decreases i,
{
    if i == 0 {
    } else {
        assert(s.first().0 != k);
        assert(s.drop_first()[i - 1] == s[i]);
        assert(forall|j: int| 0 <= j < i - 1 ==> (#[trigger] s.drop_first()[j]).0 != k);
        lemma_assoc_find_hit(s.drop_first(), k, i - 1);
    }
}

/// `assoc_find` misses exactly when no entry holds the key.
pub proof fn lemma_assoc_find_miss<T>(s: Seq<(u32, T)>, k: u32)
    requires
        forall|j: int| 0 <= j < s.len() ==> (#[trigger] s[j]).0 != k,
    ensures
        assoc_find(s, k) is None,
    decreases s.len(),
{
    if s.len() > 0 {
        assert(forall|j: int| 0 <= j < s.len() - 1 ==> (#[trigger] s.drop_first()[j]).0 != k);
        lemma_assoc_find_miss(s.drop_first(), k);
    }
}

/// One source's decoded audio within a tick.
pub struct TickEntry {
    pub ssrc: u32,
    pub pcm: Vec<i16>,
}

/// A tick entry's PCM normalized to fixed point.
pub open spec fn norm_seq(pcm: Seq<i16>) -> Seq<i32> {
    pcm.map_values(|s: i16| spec_pcm16_to_amp(s as int) as i32)
}

/// The loudest normalized amplitude across every source in a tick.
pub open spec fn tick_peak(entries: Seq<TickEntry>) -> int
    decreases entries.len(),
{
    if entries.len() == 0 {
        0
    } else {
        let rest = tick_peak(entries.drop_last());
        let last = peak_of(norm_seq(entries.last().pcm@));
        if last > rest {
            last
        } else {
            rest
        }
    }
}

/// Shared state of the receiver: the identity map, the per-speaker
/// encoders, and the recording flag and peak level that status readers
/// poll.
pub struct ReceiverState {
    ssrc_map: Vec<(u32, u64)>,
    encoders: Vec<(u32, EncoderInstance)>,
    output_dir: String,
    format: AudioFormat,
    meter: PeakMeter,
    recording: bool,
}

impl ReceiverState {
    pub closed spec fn spec_ssrc_map(&self) -> Seq<(u32, u64)> {
        self.ssrc_map@
    }

    pub closed spec fn spec_encoders(&self) -> Seq<(u32, EncoderInstance)> {
        self.encoders@
    }

    pub closed spec fn spec_output_dir(&self) -> Seq<char> {
        self.output_dir@
    }

    pub closed spec fn spec_format(&self) -> AudioFormat {
        self.format
    }

    pub closed spec fn spec_recording(&self) -> bool {
        self.recording
    }

    pub closed spec fn spec_peak(&self) -> int {
        self.meter.spec_level()
    }

    /// The resolved identity of a source, if an update has arrived.
    pub open spec fn spec_identity_of(&self, ssrc: u32) -> Option<u64> {
        assoc_find(self.spec_ssrc_map(), ssrc)
    }

    pub open spec fn spec_has_encoder(&self, ssrc: u32) -> bool {
        assoc_find(self.spec_encoders(), ssrc) is Some
    }

    pub closed spec fn wf(&self) -> bool {
        &&& self.meter.wf()
        &&& assoc_keys_unique(self.ssrc_map@)
        &&& assoc_keys_unique(self.encoders@)
        &&& forall|i: int|
            0 <= i < self.encoders@.len() ==> {
                &&& (#[trigger] self.encoders@[i]).1.wf()
                &&& self.encoders@[i].1.spec_format() == self.format
                &&& !self.encoders@[i].1.spec_trim_enabled()
                &&& self.encoders@[i].1.spec_channels() == VOICE_CHANNELS as int
                &&& self.encoders@[i].1.spec_sample_rate() == VOICE_SAMPLE_RATE as int
            }
    }

    /// Fresh state for one recording: no identities, no encoders, the
    /// recording flag raised.
    pub fn new(output_dir: &str, format: AudioFormat) -> (r: ReceiverState)
        ensures
            r.wf(),
            r.spec_ssrc_map() =~= Seq::<(u32, u64)>::empty(),
            r.spec_encoders() =~= Seq::<(u32, EncoderInstance)>::empty(),
            r.spec_output_dir() == output_dir@,
            r.spec_format() == format,
            r.spec_recording(),
            r.spec_peak() == 0,
    {
        ReceiverState {
            ssrc_map: Vec::new(),
            encoders: Vec::new(),
            output_dir: output_dir.to_owned(),
            format,
            meter: PeakMeter::new(),
            recording: true,
        }
    }

    /// Whether ticks are still being accepted.
    pub fn is_recording(&self) -> (r: bool)
        ensures
            r == self.spec_recording(),
    {
        self.recording
    }

    /// The current peak reading.
    pub fn peak_level(&self) -> (r: i32)
        ensures
            r as int == self.spec_peak(),
    {
        self.meter.level()
    }

    /// Distinct sources never share an encoder, and a source never has two:
    /// both association lists keep their keys unique.
    pub proof fn lemma_distinct_sources(&self)
        requires
            self.wf(),
        ensures
            assoc_keys_unique(self.spec_encoders()),
            assoc_keys_unique(self.spec_ssrc_map()),
    {
    }

    /// Stop accepting ticks and clear the peak reading.  The encoders stay
    /// in place for `finalize_all`.
    pub fn halt(&mut self)
        requires
            old(self).wf(),
        ensures
            final(self).wf(),
            !final(self).spec_recording(),
            final(self).spec_peak() == 0,
            final(self).spec_ssrc_map() == old(self).spec_ssrc_map(),
            final(self).spec_encoders() == old(self).spec_encoders(),
            final(self).spec_output_dir() == old(self).spec_output_dir(),
            final(self).spec_format() == old(self).spec_format(),
    {
        self.recording = false;
        self.meter.reset();
    }

    /// A speaker-identity update: bind a source identifier to a stable
    /// identity, last write winning.  Encoders — and so the names of files
    /// already being written — are untouched.
    pub fn note_speaker(&mut self, ssrc: u32, user_id: u64)
        requires
            old(self).wf(),
        ensures
            final(self).wf(),
            final(self).spec_identity_of(ssrc) == Some(user_id),
            forall|k: u32|
                k != ssrc ==> final(self).spec_identity_of(k) == old(self).spec_identity_of(k),
            final(self).spec_encoders() == old(self).spec_encoders(),
            final(self).spec_output_dir() == old(self).spec_output_dir(),
            final(self).spec_format() == old(self).spec_format(),
            final(self).spec_recording() == old(self).spec_recording(),
            final(self).spec_peak() == old(self).spec_peak(),
    {
        let ghost m0 = self.ssrc_map@;
        let mut i: usize = 0;
        while i < self.ssrc_map.len()
            invariant
                0 <= i <= self.ssrc_map@.len(),
                old(self).wf(),
                *self == *old(self),
                self.ssrc_map@ == m0,
                forall|j: int| 0 <= j < i ==> (#[trigger] m0[j]).0 != ssrc,
            decreases self.ssrc_map@.len() - i,
        {
            if self.ssrc_map[i].0 == ssrc {
                self.ssrc_map.set(i, (ssrc, user_id));
                proof {
                    assert(forall|j: int|
                        0 <= j < self.ssrc_map@.len() ==> (#[trigger] self.ssrc_map@[j]).0
                            == m0[j].0);
                    assert(assoc_keys_unique(self.ssrc_map@));
                    lemma_assoc_find_hit(self.ssrc_map@, ssrc, i as int);
                    assert forall|k: u32| k != ssrc implies assoc_find(self.ssrc_map@, k)
                        == assoc_find(m0, k) by {
                        lemma_assoc_find_update_other(m0, i as int, ssrc, user_id, k);
                    }
                }
                return ;
            }
            i = i + 1;
        }
        self.ssrc_map.push((ssrc, user_id));
        proof {
            lemma_assoc_find_hit(self.ssrc_map@, ssrc, m0.len() as int);
            assert forall|k: u32| k != ssrc implies assoc_find(self.ssrc_map@, k) == assoc_find(
                m0,
                k,
            ) by {
                lemma_assoc_find_push_other(m0, ssrc, user_id, k);
            }
            assert(assoc_keys_unique(self.ssrc_map@));
        }
    }

    /// Make sure a source has an encoder, creating one lazily on its first
    /// audio.  A new encoder's file is named by the identity resolved at
    /// this moment (or the raw source identifier); an existing encoder is
    /// left exactly as it is.
    pub fn ensure_encoder(&mut self, ssrc: u32, stamp: &str)
        requires
            old(self).wf(),
        ensures
            final(self).wf(),
            old(self).spec_has_encoder(ssrc) ==> *final(self) == *old(self),
            !old(self).spec_has_encoder(ssrc) ==> {
                &&& final(self).spec_encoders().len() == old(self).spec_encoders().len() + 1
                &&& final(self).spec_encoders().drop_last() == old(self).spec_encoders()
                &&& final(self).spec_encoders().last().0 == ssrc
                &&& final(self).spec_encoders().last().1.spec_path() == spec_joined_path(
                    old(self).spec_output_dir(),
                    spec_speaker_filename(
                        stamp@,
                        spec_speaker_label(ssrc, old(self).spec_identity_of(ssrc)),
                        old(self).spec_format(),
                    ),
                )
                &&& final(self).spec_encoders().last().1.spec_fed() =~= Seq::<i32>::empty()
                &&& final(self).spec_encoders().last().1.spec_written() =~= Seq::<i32>::empty()
            },
            final(self).spec_has_encoder(ssrc),
            final(self).spec_ssrc_map() == old(self).spec_ssrc_map(),
            final(self).spec_output_dir() == old(self).spec_output_dir(),
            final(self).spec_format() == old(self).spec_format(),
            final(self).spec_recording() == old(self).spec_recording(),
            final(self).spec_peak() == old(self).spec_peak(),
    {
        let ghost e0 = self.encoders@;
        let mut i: usize = 0;
        while i < self.encoders.len()
            invariant
                0 <= i <= self.encoders@.len(),
                old(self).wf(),
                *self == *old(self),
                self.encoders@ == e0,
                forall|j: int| 0 <= j < i ==> (#[trigger] e0[j]).0 != ssrc,
            decreases self.encoders@.len() - i,
        {
            if self.encoders[i].0 == ssrc {
                proof {
                    lemma_assoc_find_hit(self.encoders@, ssrc, i as int);
                }
                return ;
            }
            i = i + 1;
        }
        proof {
            lemma_assoc_find_miss(e0, ssrc);
        }
        let user = self.identity_of(ssrc);
        let label = speaker_label(ssrc, user);
        let filename = speaker_filename(stamp, label.as_str(), self.format);
        let path = join_path(self.output_dir.as_str(), filename.as_str());
        let enc = create_encoder(
            path.as_str(),
            VOICE_CHANNELS,
            VOICE_SAMPLE_RATE,
            self.format,
            false,
        );
        self.encoders.push((ssrc, enc));
        proof {
            lemma_assoc_find_hit(self.encoders@, ssrc, e0.len() as int);
            assert(self.encoders@.drop_last() =~= e0);
            assert(assoc_keys_unique(self.encoders@));
            assert forall|j: int| 0 <= j < self.encoders@.len() implies {
                &&& (#[trigger] self.encoders@[j]).1.wf()
                &&& self.encoders@[j].1.spec_format() == self.format
                &&& !self.encoders@[j].1.spec_trim_enabled()
                &&& self.encoders@[j].1.spec_channels() == VOICE_CHANNELS as int
                &&& self.encoders@[j].1.spec_sample_rate() == VOICE_SAMPLE_RATE as int
            } by {
                if j < e0.len() {
                    assert(self.encoders@[j] == e0[j]);
                }
            }
        }
    }

    /// Look up a source's resolved identity.
    pub fn identity_of(&self, ssrc: u32) -> (r: Option<u64>)
        ensures
            r == self.spec_identity_of(ssrc),
    {
        let ghost m0 = self.ssrc_map@;
        let mut i: usize = 0;
        while i < self.ssrc_map.len()
            invariant
                0 <= i <= self.ssrc_map@.len(),
                self.ssrc_map@ == m0,
                forall|j: int| 0 <= j < i ==> (#[trigger] m0[j]).0 != ssrc,
            decreases self.ssrc_map@.len() - i,
        {
            if self.ssrc_map[i].0 == ssrc {
                let r = Some(self.ssrc_map[i].1);
                proof {
                    lemma_assoc_find_hit(m0, ssrc, i as int);
                }
                return r;
            }
            i = i + 1;
        }
        proof {
            lemma_assoc_find_miss(m0, ssrc);
        }
        None
    }

    /// Write one source's decoded PCM, normalized, into its encoder, best
    /// effort: a failed write abandons the rest of this source's samples
    /// for this tick.  Every other encoder is untouched.
    pub fn write_speaker(&mut self, ssrc: u32, pcm: &Vec<i16>) -> (written: usize)
        requires
            old(self).wf(),
            old(self).spec_has_encoder(ssrc),
        ensures
            final(self).wf(),
            final(self).spec_ssrc_map() == old(self).spec_ssrc_map(),
            final(self).spec_output_dir() == old(self).spec_output_dir(),
            final(self).spec_format() == old(self).spec_format(),
            final(self).spec_recording() == old(self).spec_recording(),
            final(self).spec_peak() == old(self).spec_peak(),
            written <= pcm@.len(),
            spec_speaker_written(
                old(self).spec_encoders(),
                final(self).spec_encoders(),
                ssrc,
                norm_seq(pcm@),
                written as int,
            ),
    {
        let ghost e0 = self.encoders@;
        let mut i: usize = 0;
        let n = self.encoders.len();
        while i < n
            invariant
                0 <= i <= n,
                n == self.encoders@.len(),
                old(self).wf(),
                old(self).spec_has_encoder(ssrc),
                *self == *old(self),
                self.encoders@ == e0,
                forall|j: int| 0 <= j < i ==> (#[trigger] e0[j]).0 != ssrc,
            decreases n - i,
        {
            if self.encoders[i].0 == ssrc {
                let amps = pcm16_all(pcm);
                let idx = i;
                let mut tmp: (u32, EncoderInstance) = (
                    ssrc,
                    create_encoder("", VOICE_CHANNELS, VOICE_SAMPLE_RATE, self.format, false),
                );
                self.encoders.set_and_swap(idx, &mut tmp);
                let ghost fed0 = tmp.1.spec_fed();
                let ghost can0 = tmp.1.spec_can_accept();
                let mut j: usize = 0;
                while j < amps.len()
                    invariant
                        0 <= j <= amps@.len(),
                        amps@ =~= norm_seq(pcm@),
                        tmp.0 == ssrc,
                        tmp.1.wf(),
                        tmp.1.spec_fed() =~= fed0 + amps@.take(j as int),
                        tmp.1.spec_path() == e0[idx as int].1.spec_path(),
                        tmp.1.spec_format() == e0[idx as int].1.spec_format(),
                        tmp.1.spec_channels() == e0[idx as int].1.spec_channels(),
                        tmp.1.spec_sample_rate() == e0[idx as int].1.spec_sample_rate(),
                        tmp.1.spec_trim_enabled() == e0[idx as int].1.spec_trim_enabled(),
                        0 <= idx < e0.len(),
                        fed0 == e0[idx as int].1.spec_fed(),
                        can0 == e0[idx as int].1.spec_can_accept(),
                        j == 0 ==> tmp.1 == e0[idx as int].1,
                        j >= 1 ==> can0,
                    ensures
                        j < amps@.len() ==> !tmp.1.spec_can_accept(),
                        j == 0 ==> tmp.1 == e0[idx as int].1,
                        j >= 1 ==> can0,
                    decreases amps@.len() - j,
                {
                    let a = amps[j];
                    proof {
                        assert(a == norm_seq(pcm@)[j as int]);
                    }
                    match tmp.1.write_sample(a) {
                        Ok(_) => {
                            proof {
                                assert((fed0 + amps@.take(j as int)).push(amps@[j as int]) =~= fed0
                                    + amps@.take(j + 1));
                                assert(amps@[j as int] == a);
                            }
                            j = j + 1;
                        },
                        Err(_) => {
                            break ;
                        },
                    }
                }
                let written = j;
                self.encoders.set_and_swap(idx, &mut tmp);
                proof {
                    assert(self.encoders@ =~= e0.update(idx as int, self.encoders@[idx as int]));
                    assert(assoc_keys_unique(self.encoders@)) by {
                        assert(forall|q: int|
                            0 <= q < self.encoders@.len() ==> (#[trigger] self.encoders@[q]).0
                                == e0[q].0);
                    }
                    assert(spec_speaker_written(
                        e0,
                        self.encoders@,
                        ssrc,
                        norm_seq(pcm@),
                        written as int,
                    )) by {
                        assert forall|q: int|
                            0 <= q < e0.len() && (#[trigger] e0[q]).0 == ssrc implies q == idx
                            as int by {
                            if q != idx as int {
                                assert(e0[idx as int].0 == ssrc);
                            }
                        }
                    }
                }
                return written;
            }
            i = i + 1;
        }
        proof {
            lemma_assoc_find_miss(e0, ssrc);
            assert(false);
        }
        0
    }

    /// One audio tick: when recording, update the shared peak level to the
    /// loudest sample across every active source in the tick, lazily create
    /// an encoder for each source heard for the first time (named by the
    /// identity known at this moment), and append each source's normalized
    /// samples to its own encoder.  Ticks that arrive after recording has
    /// stopped change nothing.
    pub fn on_tick(&mut self, entries: &Vec<TickEntry>, stamp: &str)
        requires
            old(self).wf(),
        ensures
            final(self).wf(),
            !old(self).spec_recording() ==> *final(self) == *old(self),
            old(self).spec_recording() ==> {
                &&& final(self).spec_ssrc_map() == old(self).spec_ssrc_map()
                &&& final(self).spec_output_dir() == old(self).spec_output_dir()
                &&& final(self).spec_format() == old(self).spec_format()
                &&& final(self).spec_recording()
                &&& final(self).spec_peak() == tick_peak(entries@)
                &&& final(self).spec_encoders().len() >= old(self).spec_encoders().len()
                &&& forall|t: int|
                    0 <= t < entries@.len() ==> final(self).spec_has_encoder(
                        (#[trigger] entries@[t]).ssrc,
                    )
                &&& forall|j: int|
                    0 <= j < old(self).spec_encoders().len() ==> {
                        &&& (#[trigger] final(self).spec_encoders()[j]).0 == old(
                            self,
                        ).spec_encoders()[j].0
                        &&& final(self).spec_encoders()[j].1.spec_path() == old(
                            self,
                        ).spec_encoders()[j].1.spec_path()
                        &&& fed_extended(
                            final(self).spec_encoders()[j].1.spec_fed(),
                            old(self).spec_encoders()[j].1.spec_fed(),
                            tick_writes(entries@, old(self).spec_encoders()[j].0),
                            final(self).spec_encoders()[j].1.spec_can_accept(),
                        )
                    }
                &&& forall|j: int|
                    old(self).spec_encoders().len() <= j < final(self).spec_encoders().len()
                        ==> {
                        &&& (#[trigger] final(self).spec_encoders()[j]).1.spec_path()
                            == spec_joined_path(
                            old(self).spec_output_dir(),
                            spec_speaker_filename(
                                stamp@,
                                spec_speaker_label(
                                    final(self).spec_encoders()[j].0,
                                    old(self).spec_identity_of(
                                        final(self).spec_encoders()[j].0,
                                    ),
                                ),
                                old(self).spec_format(),
                            ),
                        )
                        &&& fed_extended(
                            final(self).spec_encoders()[j].1.spec_fed(),
                            Seq::<i32>::empty(),
                            tick_writes(entries@, final(self).spec_encoders()[j].0),
                            final(self).spec_encoders()[j].1.spec_can_accept(),
                        )
                    }
            },
    {
        if !self.recording {
            return ;
        }
        let ghost e0 = self.encoders@;
        let mut gp: i32 = 0;
        let mut i: usize = 0;
        while i < entries.len()
            invariant
                0 <= i <= entries@.len(),
                old(self).wf(),
                old(self).spec_recording(),
                self.wf(),
                self.spec_ssrc_map() == old(self).spec_ssrc_map(),
                self.spec_output_dir() == old(self).spec_output_dir(),
                self.spec_format() == old(self).spec_format(),
                self.spec_recording(),
                self.spec_peak() == old(self).spec_peak(),
                e0 == old(self).spec_encoders(),
                self.spec_encoders().len() >= e0.len(),
                0 <= gp <= crate::sample::UNIT,
                gp as int == tick_peak(entries@.take(i as int)),
                forall|t: int|
                    0 <= t < i ==> self.spec_has_encoder((#[trigger] entries@[t]).ssrc),
                forall|j: int|
                    0 <= j < e0.len() ==> {
                        &&& (#[trigger] self.spec_encoders()[j]).0 == e0[j].0
                        &&& self.spec_encoders()[j].1.spec_path() == e0[j].1.spec_path()
                        &&& fed_extended(
                            self.spec_encoders()[j].1.spec_fed(),
                            e0[j].1.spec_fed(),
                            tick_writes(entries@.take(i as int), e0[j].0),
                            self.spec_encoders()[j].1.spec_can_accept(),
                        )
                    },
                forall|j: int|
                    e0.len() <= j < self.spec_encoders().len() ==> {
                        &&& (#[trigger] self.spec_encoders()[j]).1.spec_path()
                            == spec_joined_path(
                            old(self).spec_output_dir(),
                            spec_speaker_filename(
                                stamp@,
                                spec_speaker_label(
                                    self.spec_encoders()[j].0,
                                    old(self).spec_identity_of(self.spec_encoders()[j].0),
                                ),
                                old(self).spec_format(),
                            ),
                        )
                        &&& fed_extended(
                            self.spec_encoders()[j].1.spec_fed(),
                            Seq::<i32>::empty(),
                            tick_writes(entries@.take(i as int), self.spec_encoders()[j].0),
                            self.spec_encoders()[j].1.spec_can_accept(),
                        )
                    },
            decreases entries@.len() - i,
        {
            let ghost e_before = self.spec_encoders();
            let amps = pcm16_all(&entries[i].pcm);
            let p = crate::meter::buffer_peak(&amps);
            if p > gp {
                gp = p;
            }
            proof {
                assert(entries@.take(i + 1).drop_last() =~= entries@.take(i as int));
                assert(entries@.take(i + 1).last() == entries@[i as int]);
            }
            let ssrc = entries[i].ssrc;
            self.ensure_encoder(ssrc, stamp);
            let ghost e_mid = self.spec_encoders();
            proof {
                if assoc_find(e_before, ssrc) is None {
                    assert(e_mid.drop_last() == e_before);
                    assert(forall|j: int|
                        0 <= j < e_before.len() ==> #[trigger] e_mid[j] == e_before[j]);
                    // This source was silent until now: the ensured encoders of
                    // earlier entries rule it out among them.
                    assert forall|t: int| 0 <= t < i implies (#[trigger] entries@[t]).ssrc
                        != ssrc by {
                        if entries@[t].ssrc == ssrc {
                            assert(assoc_find(e_before, entries@[t].ssrc) is Some);
                        }
                    }
                    lemma_tick_writes_absent(entries@, i as int, ssrc);
                    let fresh = e_mid[e_mid.len() - 1].1.spec_fed();
                    assert(fresh =~= Seq::<i32>::empty());
                    assert(Seq::<i32>::empty().is_prefix_of(fresh)) by {
                        lemma_prefix_refl(Seq::<i32>::empty());
                    }
                    assert(fresh.subrange(0, fresh.len() as int) =~= Seq::<i32>::empty());
                }
            }
            let w = self.write_speaker(ssrc, &entries[i].pcm);
            proof {
                let cur = self.spec_encoders();
                let amps_v = norm_seq(entries@[i as int].pcm@);
                assert(spec_speaker_written(e_mid, cur, ssrc, amps_v, w as int));
                // The entry's source has an encoder now, and earlier sources
                // keep theirs: keys are stable across the write.
                assert(forall|j: int|
                    0 <= j < cur.len() ==> (#[trigger] cur[j]).0 == e_mid[j].0);
                assert forall|t: int| 0 <= t < i + 1 implies self.spec_has_encoder(
                    (#[trigger] entries@[t]).ssrc,
                ) by {
                    let k = entries@[t].ssrc;
                    if t < i {
                        lemma_assoc_find_index_of(e_before, k);
                        let j = choose|j: int|
                            0 <= j < e_before.len() && (#[trigger] e_before[j]).0 == k;
                        assert(e_mid[j].0 == k);
                        lemma_assoc_find_some_at(cur, k, j);
                    } else {
                        lemma_assoc_find_index_of(e_mid, ssrc);
                        let j = choose|j: int|
                            0 <= j < e_mid.len() && (#[trigger] e_mid[j]).0 == ssrc;
                        lemma_assoc_find_some_at(cur, ssrc, j);
                    }
                }
                // Content: the processed source's encoder absorbs this entry's
                // normalized PCM (or stalls at a full container); every other
                // encoder and its per-source stream are unchanged.
                assert forall|j: int| 0 <= j < e_mid.len() implies {
                    &&& (#[trigger] cur[j]).1.spec_path() == e_mid[j].1.spec_path()
                    &&& fed_extended(
                        cur[j].1.spec_fed(),
                        spec_tick_base(e0, j),
                        tick_writes(entries@.take(i + 1), e_mid[j].0),
                        cur[j].1.spec_can_accept(),
                    )
                } by {
                    let base = spec_tick_base(e0, j);
                    let tw = tick_writes(entries@.take(i as int), e_mid[j].0);
                    lemma_tick_writes_step(entries@, i as int, e_mid[j].0);
                    assert(fed_extended(
                        e_mid[j].1.spec_fed(),
                        base,
                        tw,
                        e_mid[j].1.spec_can_accept(),
                    )) by {
                        if j < e_before.len() {
                            assert(e_mid[j] == e_before[j]);
                        }
                    }
                    if e_mid[j].0 == ssrc {
                        lemma_fed_extended_step(
                            base,
                            tw,
                            amps_v,
                            e_mid[j].1.spec_fed(),
                            cur[j].1.spec_fed(),
                            w as int,
                            e_mid[j].1.spec_can_accept(),
                            cur[j].1.spec_can_accept(),
                        );
                    } else {
                        assert(cur[j] == e_mid[j]);
                    }
                }
            }
            i = i + 1;
        }
        proof {
            assert(entries@.take(entries@.len() as int) =~= entries@);
        }
        self.meter.set_level(gp);
    }

    /// Finalize every per-speaker encoder, in creation order, and return
    /// the finished files.  Every encoder is attempted even after one
    /// fails; the first failure then surfaces as `FinalizeFailed`.  No
    /// encoder remains afterwards, so the call cannot double-finalize, and
    /// an empty map yields the empty list, not an error.
    pub fn finalize_all(&mut self) -> (r: Result<Vec<FinishedRecording>, RecorderError>)
        requires
            old(self).wf(),
        ensures
            final(self).wf(),
            final(self).spec_encoders() =~= Seq::<(u32, EncoderInstance)>::empty(),
            final(self).spec_ssrc_map() == old(self).spec_ssrc_map(),
            final(self).spec_output_dir() == old(self).spec_output_dir(),
            final(self).spec_format() == old(self).spec_format(),
            final(self).spec_recording() == old(self).spec_recording(),
            final(self).spec_peak() == old(self).spec_peak(),
            r is Ok <==> forall|j: int|
                0 <= j < old(self).spec_encoders().len() ==> encode_ok_spec(
                    old(self).spec_format(),
                    (#[trigger] old(self).spec_encoders()[j]).1.spec_written(),
                    VOICE_CHANNELS as int,
                    VOICE_SAMPLE_RATE as int,
                ),
            match r {
                Ok(v) => {
                    &&& v@.len() == old(self).spec_encoders().len()
                    &&& forall|j: int|
                        0 <= j < v@.len() ==> {
                            &&& (#[trigger] v@[j]).path@ == old(
                                self,
                            ).spec_encoders()[j].1.spec_path()
                            &&& v@[j].bytes@ == encode_spec(
                                old(self).spec_format(),
                                old(self).spec_encoders()[j].1.spec_written(),
                                VOICE_CHANNELS as int,
                                VOICE_SAMPLE_RATE as int,
                            )
                        }
                },
                Err(e) => e == RecorderError::FinalizeFailed,
            },
    {
        let ghost orig = self.encoders@;
        let mut results: Vec<FinishedRecording> = Vec::new();
        let mut failed: bool = false;
        while self.encoders.len() > 0
            invariant
                old(self).wf(),
                orig == old(self).spec_encoders(),
                self.encoders@.len() <= orig.len(),
                self.encoders@ =~= orig.skip(orig.len() - self.encoders@.len()),
                self.ssrc_map@ == old(self).spec_ssrc_map(),
                self.output_dir@ == old(self).spec_output_dir(),
                self.format == old(self).spec_format(),
                self.recording == old(self).spec_recording(),
                self.meter == old(self).meter,
                self.wf(),
                failed <==> exists|j: int|
                    0 <= j < orig.len() - self.encoders@.len() && !encode_ok_spec(
                        old(self).spec_format(),
                        (#[trigger] orig[j]).1.spec_written(),
                        VOICE_CHANNELS as int,
                        VOICE_SAMPLE_RATE as int,
                    ),
                !failed ==> results@.len() == orig.len() - self.encoders@.len(),
                !failed ==> forall|j: int|
                    0 <= j < results@.len() ==> {
                        &&& (#[trigger] results@[j]).path@ == orig[j].1.spec_path()
                        &&& results@[j].bytes@ == encode_spec(
                            old(self).spec_format(),
                            orig[j].1.spec_written(),
                            VOICE_CHANNELS as int,
                            VOICE_SAMPLE_RATE as int,
                        )
                    },
            decreases self.encoders@.len(),
        {
            let ghost i = orig.len() - self.encoders@.len();
            let (ssrc, enc) = self.encoders.remove(0);
            proof {
                assert(orig.skip(i)[0] == orig[i]);
                assert(orig.skip(i).remove(0) =~= orig.skip(i + 1));
            }
            let ghost ok_i = encode_ok_spec(
                old(self).spec_format(),
                orig[i].1.spec_written(),
                VOICE_CHANNELS as int,
                VOICE_SAMPLE_RATE as int,
            );
            match enc.finalize() {
                Ok(f) => {
                    if !failed {
                        results.push(f);
                    }
                },
                Err(_) => {
                    failed = true;
                },
            }
            proof {
                if failed {
                    if !ok_i {
                        assert(exists|j: int|
                            0 <= j < i + 1 && !encode_ok_spec(
                                old(self).spec_format(),
                                (#[trigger] orig[j]).1.spec_written(),
                                VOICE_CHANNELS as int,
                                VOICE_SAMPLE_RATE as int,
                            ));
                    }
                }
            }
        }
        if failed {
            Err(RecorderError::FinalizeFailed)
        } else {
            Ok(results)
        }
    }
}

/// How one tick changes a single source's encoder: the entry at the key
/// gets `w` of the normalized samples appended (all of them unless the
/// container ran out of room), keeps its path, and every other entry is
/// untouched.
pub open spec fn spec_speaker_written(
    old_e: Seq<(u32, EncoderInstance)>,
    new_e: Seq<(u32, EncoderInstance)>,
    ssrc: u32,
    amps: Seq<i32>,
    w: int,
) -> bool {
    &&& new_e.len() == old_e.len()
    &&& 0 <= w <= amps.len()
    &&& forall|j: int|
        0 <= j < old_e.len() && (#[trigger] old_e[j]).0 != ssrc ==> new_e[j] == old_e[j]
    &&& forall|j: int|
        0 <= j < old_e.len() && (#[trigger] old_e[j]).0 == ssrc ==> {
            &&& new_e[j].0 == ssrc
            &&& new_e[j].1.spec_fed() == old_e[j].1.spec_fed() + amps.take(w)
            &&& new_e[j].1.spec_path() == old_e[j].1.spec_path()
            &&& (w < amps.len() ==> !new_e[j].1.spec_can_accept())
            &&& (!old_e[j].1.spec_can_accept() ==> w == 0 && new_e[j] == old_e[j])
        }
}

/// Everything one tick delivers for one source: the normalized PCM of the
/// entries carrying its identifier, concatenated in arrival order.
pub open spec fn tick_writes(entries: Seq<TickEntry>, k: u32) -> Seq<i32>
    decreases entries.len(),
{
    if entries.len() == 0 {
        Seq::empty()
    } else {
        let rest = tick_writes(entries.drop_last(), k);
        if entries.last().ssrc == k {
            rest + norm_seq(entries.last().pcm@)
        } else {
            rest
        }
    }
}

/// `now` extends `base` by a leading part of `add` — all of `add` unless
/// the encoder stopped accepting samples.
pub open spec fn fed_extended(now: Seq<i32>, base: Seq<i32>, add: Seq<i32>, can_accept: bool) -> bool {
    &&& base.is_prefix_of(now)
    &&& now.subrange(base.len() as int, now.len() as int).is_prefix_of(add)
    &&& (now.len() == base.len() + add.len() || !can_accept)
}

/// The stream an encoder held before the tick began: its earlier samples
/// for an encoder that already existed, nothing for one the tick created.
spec fn spec_tick_base(e0: Seq<(u32, EncoderInstance)>, j: int) -> Seq<i32> {
    if 0 <= j < e0.len() {
        e0[j].1.spec_fed()
    } else {
        Seq::empty()
    }
}

/// One more tick entry adds its normalized PCM to its own source's stream
/// and to no other.
proof fn lemma_tick_writes_step(entries: Seq<TickEntry>, i: int, k: u32)
    requires
        0 <= i < entries.len(),
    ensures
        tick_writes(entries.take(i + 1), k) == if entries[i].ssrc == k {
            tick_writes(entries.take(i), k) + norm_seq(entries[i].pcm@)
        } else {
            tick_writes(entries.take(i), k)
        },
{
    assert(entries.take(i + 1).drop_last() =~= entries.take(i));
    assert(entries.take(i + 1).last() == entries[i]);
}

/// A source that no processed entry names has received nothing.
proof fn lemma_tick_writes_absent(entries: Seq<TickEntry>, i: int, k: u32)
    requires
        0 <= i <= entries.len(),
        forall|t: int| 0 <= t < i ==> (#[trigger] entries[t]).ssrc != k,
    ensures
        tick_writes(entries.take(i), k) =~= Seq::<i32>::empty(),
    decreases i,
{
    if i > 0 {
        lemma_tick_writes_step(entries, i - 1, k);
        lemma_tick_writes_absent(entries, i - 1, k);
    } else {
        assert(entries.take(0) =~= Seq::<TickEntry>::empty());
    }
}

/// Pushing one speaker's tick entry through its encoder preserves the
/// extension relation against the growing per-source stream.
proof fn lemma_fed_extended_step(
    base: Seq<i32>,
    tw: Seq<i32>,
    amps: Seq<i32>,
    f_mid: Seq<i32>,
    f_new: Seq<i32>,
    w: int,
    can_mid: bool,
    can_new: bool,
)
    requires
        fed_extended(f_mid, base, tw, can_mid),
        0 <= w <= amps.len(),
        f_new == f_mid + amps.take(w),
        w < amps.len() ==> !can_new,
        !can_mid ==> w == 0 && can_new == can_mid,
    ensures
        fed_extended(f_new, base, tw + amps, can_new),
{
    assert(base =~= f_new.subrange(0, base.len() as int));
    let mid_w = f_mid.subrange(base.len() as int, f_mid.len() as int);
    let new_w = f_new.subrange(base.len() as int, f_new.len() as int);
    assert(new_w =~= mid_w + amps.take(w));
    if f_mid.len() == base.len() + tw.len() {
        assert(mid_w =~= tw);
        assert(new_w =~= (tw + amps).subrange(0, new_w.len() as int));
    } else {
        assert(!can_mid);
        assert(w == 0);
        assert(new_w =~= mid_w);
        assert(new_w =~= (tw + amps).subrange(0, new_w.len() as int));
    }
}

/// An association list with the key at some index finds a binding.
proof fn lemma_assoc_find_some_at<T>(s: Seq<(u32, T)>, k: u32, i: int)
    requires
        0 <= i < s.len(),
        s[i].0 == k,
    ensures
        assoc_find(s, k) is Some,
    decreases i,
{
    if s.first().0 == k {
    } else {
        assert(s.drop_first()[i - 1] == s[i]);
        lemma_assoc_find_some_at(s.drop_first(), k, i - 1);
    }
}

/// A found binding has the key at some index.
proof fn lemma_assoc_find_index_of<T>(s: Seq<(u32, T)>, k: u32)
    requires
        assoc_find(s, k) is Some,
    ensures
        exists|j: int| 0 <= j < s.len() && (#[trigger] s[j]).0 == k,
    decreases s.len(),
{
    if s.first().0 == k {
        assert(s[0].0 == k);
    } else {
        lemma_assoc_find_index_of(s.drop_first(), k);
        let j = choose|j: int| 0 <= j < s.drop_first().len() && (#[trigger] s.drop_first()[j]).0
            == k;
        assert(s[j + 1].0 == k);
    }
}

proof fn lemma_prefix_refl(a: Seq<i32>)
    ensures
        a.is_prefix_of(a),
{
    assert(a =~= a.subrange(0, a.len() as int));
}

/// Normalize a whole PCM buffer to fixed point.
pub fn pcm16_all(pcm: &Vec<i16>) -> (r: Vec<i32>)
    ensures
        r@ =~= norm_seq(pcm@),
{
    let mut r: Vec<i32> = Vec::new();
    let mut i: usize = 0;
    while i < pcm.len()
        invariant
            0 <= i <= pcm@.len(),
            r@.len() == i,
            forall|j: int| 0 <= j < i ==> r@[j] as int == spec_pcm16_to_amp(#[trigger] pcm@[j] as int),
        decreases pcm@.len() - i,
    {
        r.push(pcm16_to_amp(pcm[i]));
        i = i + 1;
    }
    proof {
        assert forall|j: int| 0 <= j < pcm@.len() implies r@[j] == norm_seq(pcm@)[j] by {
            assert(r@[j] as int == spec_pcm16_to_amp(pcm@[j] as int));
        }
    }
    r
}

/// `assoc_find` for another key is unaffected by updating one entry's
/// value in place.
proof fn lemma_assoc_find_update_other<T>(s: Seq<(u32, T)>, i: int, key: u32, v: T, k: u32)
    requires
        0 <= i < s.len(),
        s[i].0 == key,
        k != key,
    ensures
        assoc_find(s.update(i, (key, v)), k) == assoc_find(s, k),
    decreases s.len(),
{
    let s2 = s.update(i, (key, v));
    if s.len() > 0 {
        if i == 0 {
            assert(s2.first().0 == key);
            assert(s.first().0 == key);
            assert(s2.drop_first() =~= s.drop_first());
        } else {
            assert(s2.first() == s.first());
            if s.first().0 == k {
            } else {
                assert(s2.drop_first() =~= s.drop_first().update(i - 1, (key, v)));
                lemma_assoc_find_update_other(s.drop_first(), i - 1, key, v, k);
            }
        }
    }
}

/// `assoc_find` for another key is unaffected by appending an entry.
proof fn lemma_assoc_find_push_other<T>(s: Seq<(u32, T)>, key: u32, v: T, k: u32)
    requires
        k != key,
    ensures
        assoc_find(s.push((key, v)), k) == assoc_find(s, k),
    decreases s.len(),
{
    if s.len() == 0 {
        assert(s.push((key, v)).first().0 == key);
        assert(s.push((key, v)).drop_first() =~= Seq::<(u32, T)>::empty());
    } else {
        assert(s.push((key, v)).first() == s.first());
        if s.first().0 == k {
        } else {
            assert(s.push((key, v)).drop_first() =~= s.drop_first().push((key, v)));
            lemma_assoc_find_push_other(s.drop_first(), key, v, k);
        }
    }
}

} // verus!
