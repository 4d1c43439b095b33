//! The voice-session lifecycle.
//!
//! The connection handshake, the transport itself, and the channel directory are the
//! connection collaborator's business; this machine owns the decisions: when
//! a connect or a recording may begin, what `stop` hands back, and how the
//! callbacks reach the per-speaker receiver.

use vstd::prelude::*;
use crate::encoder::{
    encode_ok_spec, encode_spec, AudioFormat, EncoderInstance, FinishedRecording,
};
use crate::errors::RecorderError;
use crate::receiver::{
    assoc_find, fed_extended, tick_peak, tick_writes, ReceiverState, TickEntry, VOICE_CHANNELS,
    VOICE_SAMPLE_RATE,
};

verus! {

/// A guild visible to the connected account.
#[derive(Debug, Clone)]
pub struct GuildInfo {
    pub id: String,
    pub name: String,
}

/// A voice channel within a guild.
#[derive(Debug, Clone)]
pub struct VoiceChannelInfo {
    pub id: String,
    pub name: String,
    pub guild_id: String,
}

/// How many of the given voice states sit in one channel.
pub open spec fn spec_count_in_channel(states: Seq<Option<u64>>, channel_id: u64) -> int
    decreases states.len(),
{
    if states.len() == 0 {
        0int
    } else {
        spec_count_in_channel(states.drop_last(), channel_id) + if states.last() == Some(
            channel_id,
        ) {
            1int
        } else {
            0int
        }
    }
}

/// Count the members whose voice state places them in the given channel.
pub fn count_in_channel(states: &Vec<Option<u64>>, channel_id: u64) -> (r: usize)
    ensures
        r as int == spec_count_in_channel(states@, channel_id),
{
    let mut count: usize = 0;
    let mut i: usize = 0;
    while i < states.len()
        invariant
            0 <= i <= states@.len(),
            count as int == spec_count_in_channel(states@.take(i as int), channel_id),
            count <= i,
        decreases states@.len() - i,
    {
        let hit = match states[i] {
            Some(c) => c == channel_id,
            None => false,
        };
        if hit {
            count = count + 1;
        }
        proof {
            assert(states@.take(i + 1).drop_last() =~= states@.take(i as int));
            assert(states@.take(i + 1).last() == states@[i as int]);
        }
        i = i + 1;
    }
    proof {
        assert(states@.take(states@.len() as int) =~= states@);
    }
    count
}

/// The bot's lifecycle state: connection flag and, while recording, the
/// multi-speaker receiver.
pub struct DiscordBot {
    connected: bool,
    receiver: Option<ReceiverState>,
}

impl DiscordBot {
    pub closed spec fn wf(&self) -> bool {
        match self.receiver {
            Some(r) => r.wf() && r.spec_recording(),
            None => true,
        }
    }

    pub closed spec fn spec_connected(&self) -> bool {
        self.connected
    }

    /// Whether a recording session is active.
    pub closed spec fn spec_recording(&self) -> bool {
        self.receiver is Some
    }

    pub closed spec fn spec_peak(&self) -> int {
        match self.receiver {
            Some(r) => r.spec_peak(),
            None => 0,
        }
    }

    pub closed spec fn spec_identity_of(&self, ssrc: u32) -> Option<u64> {
        match self.receiver {
            Some(r) => r.spec_identity_of(ssrc),
            None => None,
        }
    }

    pub closed spec fn spec_encoders(&self) -> Seq<(u32, EncoderInstance)> {
        match self.receiver {
            Some(r) => r.spec_encoders(),
            None => Seq::empty(),
        }
    }

    pub closed spec fn spec_output_dir(&self) -> Seq<char> {
        match self.receiver {
            Some(r) => r.spec_output_dir(),
            None => Seq::empty(),
        }
    }

    pub closed spec fn spec_format(&self) -> AudioFormat {
        match self.receiver {
            Some(r) => r.spec_format(),
            None => AudioFormat::Wav,
        }
    }

    /// A fresh bot: disconnected, not recording.
    pub fn new() -> (r: DiscordBot)
        ensures
            r.wf(),
            !r.spec_connected(),
            !r.spec_recording(),
            r.spec_peak() == 0,
    {
        DiscordBot { connected: false, receiver: None }
    }

    pub fn is_connected(&self) -> (r: bool)
        ensures
            r == self.spec_connected(),
    {
        self.connected
    }

    pub fn is_recording(&self) -> (r: bool)
        ensures
            r == self.spec_recording(),
    {
        self.receiver.is_some()
    }

    pub fn peak_level(&self) -> (r: i32)
        ensures
            r as int == self.spec_peak(),
    {
        match &self.receiver {
            Some(rcv) => rcv.peak_level(),
            None => 0,
        }
    }

    /// Admit a connection attempt: refused while already connected.  The
    /// handshake itself happens outside; its outcome comes back through
    /// `complete_connect`.
    pub fn begin_connect(&mut self) -> (r: Result<(), RecorderError>)
        requires
            old(self).wf(),
        ensures
            final(self).wf(),
            *final(self) == *old(self),
            r is Ok <==> !old(self).spec_connected(),
            r is Err ==> r == Result::<(), RecorderError>::Err(RecorderError::AlreadyConnected),
    {
        if self.connected {
            return Err(RecorderError::AlreadyConnected);
        }
        Ok(())
    }

    /// Record the handshake's outcome: a ready transport connects the bot; a
    /// timeout leaves it disconnected and is reported as a failure.
    pub fn complete_connect(&mut self, ready: bool) -> (r: Result<(), RecorderError>)
        requires
            old(self).wf(),
        ensures
            final(self).wf(),
            final(self).spec_connected() == ready,
            final(self).spec_recording() == old(self).spec_recording(),
            final(self).spec_encoders() == old(self).spec_encoders(),
            final(self).spec_peak() == old(self).spec_peak(),
            r is Ok <==> ready,
            r is Err ==> r == Result::<(), RecorderError>::Err(RecorderError::NotConnected),
    {
        self.connected = ready;
        if ready {
            Ok(())
        } else {
            Err(RecorderError::NotConnected)
        }
    }

    /// Drop the connection.  An active recording's encoders stay in place
    /// until `stop_recording` collects them.
    pub fn disconnect(&mut self)
        requires
            old(self).wf(),
        ensures
            final(self).wf(),
            !final(self).spec_connected(),
            final(self).spec_recording() == old(self).spec_recording(),
            final(self).spec_encoders() == old(self).spec_encoders(),
            final(self).spec_peak() == old(self).spec_peak(),
    {
        self.connected = false;
    }

    /// Begin a multi-speaker recording.  Refused with `AlreadyRecording`
    /// while one is active (which it leaves untouched) and with
    /// `NotConnected` without a connection.
    pub fn start_recording(&mut self, output_dir: &str, format: AudioFormat) -> (r: Result<
        (),
        RecorderError,
    >)
        requires
            old(self).wf(),
        ensures
            final(self).wf(),
            r is Ok <==> (!old(self).spec_recording() && old(self).spec_connected()),
            old(self).spec_recording() ==> *final(self) == *old(self) && r == Result::<
                (),
                RecorderError,
            >::Err(RecorderError::AlreadyRecording),
            !old(self).spec_recording() && !old(self).spec_connected() ==> *final(self) == *old(
                self,
            ) && r == Result::<(), RecorderError>::Err(RecorderError::NotConnected),
            r is Ok ==> {
                &&& final(self).spec_recording()
                &&& final(self).spec_connected()
                &&& final(self).spec_output_dir() == output_dir@
                &&& final(self).spec_format() == format
                &&& final(self).spec_encoders() =~= Seq::<(u32, EncoderInstance)>::empty()
                &&& final(self).spec_peak() == 0
            },
    {
        if self.receiver.is_some() {
            return Err(RecorderError::AlreadyRecording);
        }
        if !self.connected {
            return Err(RecorderError::NotConnected);
        }
        self.receiver = Some(ReceiverState::new(output_dir, format));
        Ok(())
    }

    /// A speaker-identity update.  Ignored while not recording; otherwise
    /// it binds the source to the identity, last write winning, and leaves
    /// every encoder — and so every file name — exactly as it was.
    pub fn note_speaker(&mut self, ssrc: u32, user_id: u64)
        requires
            old(self).wf(),
        ensures
            final(self).wf(),
            !old(self).spec_recording() ==> *final(self) == *old(self),
            old(self).spec_recording() ==> {
                &&& final(self).spec_recording()
                &&& final(self).spec_connected() == old(self).spec_connected()
                &&& final(self).spec_identity_of(ssrc) == Some(user_id)
                &&& forall|k: u32|
                    k != ssrc ==> final(self).spec_identity_of(k) == old(self).spec_identity_of(k)
                &&& final(self).spec_encoders() == old(self).spec_encoders()
                &&& final(self).spec_peak() == old(self).spec_peak()
                &&& final(self).spec_output_dir() == old(self).spec_output_dir()
                &&& final(self).spec_format() == old(self).spec_format()
            },
    {
        match &mut self.receiver {
            Some(rcv) => {
                rcv.note_speaker(ssrc, user_id);
            },
            None => {},
        }
    }

    /// An audio tick, forwarded to the receiver while recording: the peak
    /// level becomes the tick's maximum across all sources, encoders are
    /// created lazily under the naming rule, and each source's samples are
    /// appended to its own encoder.
    pub fn on_tick(&mut self, entries: &Vec<TickEntry>, stamp: &str)
        requires
            old(self).wf(),
        ensures
            final(self).wf(),
            !old(self).spec_recording() ==> *final(self) == *old(self),
            old(self).spec_recording() ==> {
                &&& final(self).spec_recording()
                &&& final(self).spec_connected() == old(self).spec_connected()
                &&& final(self).spec_peak() == tick_peak(entries@)
                &&& final(self).spec_output_dir() == old(self).spec_output_dir()
                &&& final(self).spec_format() == old(self).spec_format()
                &&& final(self).spec_encoders().len() >= old(self).spec_encoders().len()
                &&& forall|t: int|
                    0 <= t < entries@.len() ==> assoc_find(
                        final(self).spec_encoders(),
                        (#[trigger] entries@[t]).ssrc,
                    ) is Some
                &&& forall|j: int|
                    0 <= j < old(self).spec_encoders().len() ==> {
                        &&& (#[trigger] final(self).spec_encoders()[j]).0 == old(
                            self,
                        ).spec_encoders()[j].0
                        &&& final(self).spec_encoders()[j].1.spec_path() == old(
                            self,
                        ).spec_encoders()[j].1.spec_path()
                        &&& fed_extended(
                            final(self).spec_encoders()[j].1.spec_fed(),
                            old(self).spec_encoders()[j].1.spec_fed(),
                            tick_writes(entries@, old(self).spec_encoders()[j].0),
                            final(self).spec_encoders()[j].1.spec_can_accept(),
                        )
                    }
                &&& forall|j: int|
                    old(self).spec_encoders().len() <= j < final(self).spec_encoders().len()
                        ==> fed_extended(
                        (#[trigger] final(self).spec_encoders()[j]).1.spec_fed(),
                        Seq::<i32>::empty(),
                        tick_writes(entries@, final(self).spec_encoders()[j].0),
                        final(self).spec_encoders()[j].1.spec_can_accept(),
                    )
            },
    {
        match &mut self.receiver {
            Some(rcv) => {
                rcv.on_tick(entries, stamp);
            },
            None => {},
        }
    }

    /// End the recording: finalize every per-speaker encoder and hand back
    /// the finished files, in creation order — an empty list, not an error,
    /// when nothing was recorded.  A second call is a no-op returning the
    /// empty list.  The call succeeds exactly when every encoder's
    /// compressor accepts its stream; every encoder is attempted even
    /// after a failure, and none survives the call.
    pub fn stop_recording(&mut self) -> (r: Result<Vec<FinishedRecording>, RecorderError>)
        requires
            old(self).wf(),
        ensures
            final(self).wf(),
            !final(self).spec_recording(),
            final(self).spec_peak() == 0,
            final(self).spec_connected() == old(self).spec_connected(),
            !old(self).spec_recording() ==> *final(self) == *old(self) && (r matches Ok(v) && v@
                =~= Seq::<FinishedRecording>::empty()),
            r is Ok <==> forall|j: int|
                0 <= j < old(self).spec_encoders().len() ==> encode_ok_spec(
                    old(self).spec_format(),
                    (#[trigger] old(self).spec_encoders()[j]).1.spec_written(),
                    VOICE_CHANNELS as int,
                    VOICE_SAMPLE_RATE as int,
                ),
            old(self).spec_recording() ==> match r {
                Ok(v) => {
                    &&& v@.len() == old(self).spec_encoders().len()
                    &&& forall|j: int|
                        0 <= j < v@.len() ==> {
                            &&& (#[trigger] v@[j]).path@ == old(
                                self,
                            ).spec_encoders()[j].1.spec_path()
                            &&& v@[j].bytes@ == encode_spec(
                                old(self).spec_format(),
                                old(self).spec_encoders()[j].1.spec_written(),
                                VOICE_CHANNELS as int,
                                VOICE_SAMPLE_RATE as int,
                            )
                        }
                },
                Err(e) => e == RecorderError::FinalizeFailed,
            },
    {
        let mut taken: Option<ReceiverState> = None;
        core::mem::swap(&mut taken, &mut self.receiver);
        match taken {
            None => {
                proof {
                    assert(old(self).spec_encoders().len() == 0);
                }
                Ok(Vec::new())
            },
            Some(mut rcv) => {
                let ghost enc0 = rcv.spec_encoders();
                let ghost fmt0 = rcv.spec_format();
                rcv.halt();
                let r = rcv.finalize_all();
                proof {
                    assert(enc0 == old(self).spec_encoders());
                    assert(fmt0 == old(self).spec_format());
                    if r is Ok {
                        assert forall|j: int|
                            0 <= j < old(self).spec_encoders().len() implies encode_ok_spec(
                            old(self).spec_format(),
                            (#[trigger] old(self).spec_encoders()[j]).1.spec_written(),
                            VOICE_CHANNELS as int,
                            VOICE_SAMPLE_RATE as int,
                        ) by {
                            assert(old(self).spec_encoders()[j] == enc0[j]);
                        }
                    } else {
                        let j = choose|j: int|
                            !(0 <= j < enc0.len() ==> encode_ok_spec(
                                fmt0,
                                (#[trigger] enc0[j]).1.spec_written(),
                                VOICE_CHANNELS as int,
                                VOICE_SAMPLE_RATE as int,
                            ));
                        assert(old(self).spec_encoders()[j] == enc0[j]);
                        assert(!encode_ok_spec(
                            old(self).spec_format(),
                            old(self).spec_encoders()[j].1.spec_written(),
                            VOICE_CHANNELS as int,
                            VOICE_SAMPLE_RATE as int,
                        ));
                    }
                }
                r
            },
        }
    }
}

} // verus!
