//! Decisions of the decoders: which channels feed stereo playback, how
//! channels are interleaved, how durations are derived, where a seek lands,
//! and how the streaming decoder reacts to each packet.
use vstd::prelude::*;

verus! {

/// Sample rate assumed when a track does not state one.
pub const DEFAULT_SAMPLE_RATE: u32 = 44100;

/// A seek lands at least this many milliseconds before the end.
pub const SEEK_END_MARGIN_MS: u64 = 100;

/// The channels that feed the left and right outputs of stereo playback: a
/// mono source feeds both from its one channel, a source of two or more
/// channels feeds them from its first two, and a source without channels
/// feeds nothing.
pub fn stereo_sources(channels: usize) -> (r: Option<(usize, usize)>)
    ensures
        channels == 0 ==> r is None,
        channels == 1 ==> r == Some((0usize, 0usize)),
        channels >= 2 ==> r == Some((0usize, 1usize)),
{
    if channels == 0 {
        None
    } else if channels == 1 {
        Some((0, 0))
    } else {
        Some((0, 1))
    }
}

/// Interleaves the first `frames` samples of two channels: left, right,
/// left, right, ...
pub fn interleave_stereo<T: Copy>(left: &[T], right: &[T], frames: usize) -> (r: Vec<T>)
    requires
        frames <= left@.len(),
        frames <= right@.len(),
        2 * frames <= usize::MAX,
    ensures
        r@.len() == 2 * frames,
        forall|i: int| 0 <= i < frames ==> r@[2 * i] == left@[i] && r@[2 * i + 1] == right@[i],
{
    let mut out: Vec<T> = Vec::new();
    let mut i: usize = 0;
    while i < frames
        invariant
            i <= frames,
            frames <= left@.len(),
            frames <= right@.len(),
            out@.len() == 2 * i,
            forall|j: int| 0 <= j < i ==> out@[2 * j] == left@[j] && out@[2 * j + 1] == right@[j],
        decreases frames - i,
    {
        out.push(left[i]);
        out.push(right[i]);
        i += 1;
    }
    out
}

/// `frames` frames at `sample_rate`, in whole milliseconds, saturated at
/// `u64::MAX`.
pub open spec fn frames_to_ms(frames: nat, sample_rate: nat) -> nat {
    if frames * 1000 / sample_rate > u64::MAX {
        u64::MAX as nat
    } else {
        frames * 1000 / sample_rate
    }
}

fn frames_to_ms_exec(frames: u64, sample_rate: u32) -> (r: u64)
    requires
        sample_rate > 0,
    ensures
        r == frames_to_ms(frames as nat, sample_rate as nat),
{
    assert(frames * 1000 <= u64::MAX as nat * 1000) by (nonlinear_arith)
        requires
            frames <= u64::MAX,
    ;
    let ms: u128 = (frames as u128) * 1000 / (sample_rate as u128);
    if ms > u64::MAX as u128 {
        u64::MAX
    } else {
        ms as u64
    }
}

/// The duration a track's header announces: its frame count at its sample
/// rate, or 0 when either is unknown.
pub fn header_duration_ms(n_frames: Option<u64>, sample_rate: u32) -> (r: u64)
    ensures
        r == match n_frames {
            Some(n) if sample_rate > 0 => frames_to_ms(n as nat, sample_rate as nat),
            _ => 0,
        },
{
    match n_frames {
        Some(n) => {
            if sample_rate > 0 {
                frames_to_ms_exec(n, sample_rate)
            } else {
                0
            }
        },
        None => 0,
    }
}

/// The duration of decoded mono audio: derived from the number of samples
/// actually decoded, falling back on the header's figure only when the
/// sample rate is unknown.
pub fn decoded_duration_ms(sample_count: usize, sample_rate: u32, header_ms: u64) -> (r: u64)
    ensures
        sample_rate > 0 ==> r == frames_to_ms(sample_count as nat, sample_rate as nat),
        sample_rate == 0 ==> r == header_ms,
{
    if sample_rate > 0 {
        frames_to_ms_exec(sample_count as u64, sample_rate)
    } else {
        header_ms
    }
}

/// Where a seek to `requested_ms` lands: no later than `SEEK_END_MARGIN_MS`
/// before the end (0 for a track shorter than that); unclamped when the
/// duration is unknown (0).
pub open spec fn seek_target(requested_ms: u64, duration_ms: u64) -> u64 {
    if duration_ms == 0 {
        requested_ms
    } else {
        let last = if duration_ms > SEEK_END_MARGIN_MS {
            (duration_ms - SEEK_END_MARGIN_MS) as u64
        } else {
            0
        };
        if requested_ms < last {
            requested_ms
        } else {
            last
        }
    }
}

/// A position split into whole seconds and the milliseconds after them.
#[derive(Clone, Copy, Debug, PartialEq, Eq, Structural)]
pub struct SeekTime {
    pub position_ms: u64,
    pub seconds: u64,
    pub millis: u64,
}

/// Where a seek to `requested_ms` in a track of `duration_ms` lands.
pub fn clamp_seek(requested_ms: u64, duration_ms: u64) -> (r: SeekTime)
    ensures
        r.position_ms == seek_target(requested_ms, duration_ms),
        r.seconds == r.position_ms / 1000,
        r.millis == r.position_ms % 1000,
        r.position_ms <= requested_ms,
{
    let position_ms = if duration_ms > 0 {
        let last = if duration_ms > SEEK_END_MARGIN_MS {
            duration_ms - SEEK_END_MARGIN_MS
        } else {
            0
        };
        if requested_ms < last {
            requested_ms
        } else {
            last
        }
    } else {
        requested_ms
    };
    SeekTime { position_ms, seconds: position_ms / 1000, millis: position_ms % 1000 }
}

/// Where the streaming decoder stands.
#[derive(Clone, Copy, Debug, PartialEq, Eq, Structural)]
pub enum StreamPhase {
    /// Opened; nothing decoded yet.
    Ready,
    /// Decoding packets in order.
    Streaming,
    /// A seek to `target_ms` is under way.
    Seeking { target_ms: u64 },
    /// The end of the stream was reached.
    Ended,
}

/// What the format reader handed over.
#[derive(Clone, Copy, Debug, PartialEq, Eq, Structural)]
pub enum PacketEvent {
    /// The stream has no more packets.
    EndOfStream,
    /// Reading failed otherwise.
    ReadFailed,
    /// A packet of track `track_id`.
    Packet { track_id: u32 },
}

/// What to do with what the format reader handed over.
#[derive(Clone, Copy, Debug, PartialEq, Eq, Structural)]
pub enum PacketAction {
    /// Hand out the final, empty chunk.
    EmitEnd,
    /// Report the read error.
    Fail,
    /// Drop the packet (another track) and read the next.
    Skip,
    /// Decode the packet.
    Decode,
}

/// What decoding a packet gave.
#[derive(Clone, Copy, Debug, PartialEq, Eq, Structural)]
pub enum DecodeEvent {
    /// Samples, and the packet's time in milliseconds where the codec has a
    /// time base.
    Decoded { position_ms: Option<u64> },
    /// The packet is corrupt.
    Corrupted,
    /// Decoding failed otherwise.
    Failed,
}

/// What to do after decoding a packet.
#[derive(Clone, Copy, Debug, PartialEq, Eq, Structural)]
pub enum DecodeAction {
    /// Hand out the decoded chunk.
    Emit,
    /// Reset the codec and read the next packet; the corruption is not
    /// reported.
    ResetAndContinue,
    /// Report the decode error.
    Fail,
}

/// The state of a streaming decoder over one track.
#[derive(Clone, Copy, Debug, PartialEq, Eq, Structural)]
pub struct StreamState {
    pub phase: StreamPhase,
    pub track_id: u32,
    pub sample_rate: u32,
    pub duration_ms: u64,
    pub position_ms: u64,
}

impl StreamState {
    /// A decoder over track `track_id`, at the start.
    pub fn new(track_id: u32, sample_rate: u32, duration_ms: u64) -> (r: StreamState)
        ensures
            r == (StreamState {
                phase: StreamPhase::Ready,
                track_id,
                sample_rate,
                duration_ms,
                position_ms: 0,
            }),
    {
        StreamState { phase: StreamPhase::Ready, track_id, sample_rate, duration_ms, position_ms: 0 }
    }

    /// Reacts to what the format reader handed over. The end of the stream
    /// ends it; a packet of another track is skipped; a packet of this track
    /// is decoded.
    pub fn on_packet(&mut self, event: PacketEvent) -> (r: PacketAction)
        ensures
            final(self).track_id == old(self).track_id,
            final(self).sample_rate == old(self).sample_rate,
            final(self).duration_ms == old(self).duration_ms,
            final(self).position_ms == old(self).position_ms,
            match event {
                PacketEvent::EndOfStream => r == PacketAction::EmitEnd && final(self).phase
                    == StreamPhase::Ended,
                PacketEvent::ReadFailed => r == PacketAction::Fail && final(self).phase == old(
                    self,
                ).phase,
                PacketEvent::Packet { track_id } => {
                    &&& track_id != old(self).track_id ==> r == PacketAction::Skip
                    &&& track_id == old(self).track_id ==> r == PacketAction::Decode
                    &&& final(self).phase == old(self).phase
                },
            },
    {
        match event {
            PacketEvent::EndOfStream => {
                self.phase = StreamPhase::Ended;
                PacketAction::EmitEnd
            },
            PacketEvent::ReadFailed => PacketAction::Fail,
            PacketEvent::Packet { track_id } => {
                if track_id != self.track_id {
                    PacketAction::Skip
                } else {
                    PacketAction::Decode
                }
            },
        }
    }

    /// Reacts to the outcome of decoding a packet of this track. Decoded
    /// samples are handed out and move the position to the packet's time; a
    /// corrupt packet resets the codec and decoding goes on.
    pub fn on_decode(&mut self, event: DecodeEvent) -> (r: DecodeAction)
        ensures
            final(self).track_id == old(self).track_id,
            final(self).sample_rate == old(self).sample_rate,
            final(self).duration_ms == old(self).duration_ms,
            match event {
                DecodeEvent::Decoded { position_ms } => {
                    &&& r == DecodeAction::Emit
                    &&& final(self).phase == StreamPhase::Streaming
                    &&& final(self).position_ms == match position_ms {
                        Some(p) => p,
                        None => old(self).position_ms,
                    }
                },
                DecodeEvent::Corrupted => {
                    &&& r == DecodeAction::ResetAndContinue
                    &&& final(self).phase == old(self).phase
                    &&& final(self).position_ms == old(self).position_ms
                },
                DecodeEvent::Failed => {
                    &&& r == DecodeAction::Fail
                    &&& final(self).phase == old(self).phase
                    &&& final(self).position_ms == old(self).position_ms
                },
            },
    {
        match event {
            DecodeEvent::Decoded { position_ms } => {
                self.phase = StreamPhase::Streaming;
                if let Some(p) = position_ms {
                    self.position_ms = p;
                }
                DecodeAction::Emit
            },
            DecodeEvent::Corrupted => DecodeAction::ResetAndContinue,
            DecodeEvent::Failed => DecodeAction::Fail,
        }
    }

    /// Starts a seek to `requested_ms`, clamped as `clamp_seek` says; gives
    /// where the reader is to seek.
    pub fn begin_seek(&mut self, requested_ms: u64) -> (r: SeekTime)
        ensures
            r.position_ms == seek_target(requested_ms, old(self).duration_ms),
            r.seconds == r.position_ms / 1000,
            r.millis == r.position_ms % 1000,
            final(self).phase == (StreamPhase::Seeking { target_ms: r.position_ms }),
            final(self).track_id == old(self).track_id,
            final(self).sample_rate == old(self).sample_rate,
            final(self).duration_ms == old(self).duration_ms,
            final(self).position_ms == old(self).position_ms,
    {
        let t = clamp_seek(requested_ms, self.duration_ms);
        self.phase = StreamPhase::Seeking { target_ms: t.position_ms };
        t
    }

    /// Ends a seek: on success the position is the seek's target; either way
    /// decoding resumes (the codec is reset by the caller).
    pub fn finish_seek(&mut self, succeeded: bool)
        ensures
            final(self).phase == StreamPhase::Streaming,
            final(self).track_id == old(self).track_id,
            final(self).sample_rate == old(self).sample_rate,
            final(self).duration_ms == old(self).duration_ms,
            final(self).position_ms == match old(self).phase {
                StreamPhase::Seeking { target_ms } if succeeded => target_ms,
                _ => old(self).position_ms,
            },
    {
        if succeeded {
            if let StreamPhase::Seeking { target_ms } = self.phase {
                self.position_ms = target_ms;
            }
        }
        self.phase = StreamPhase::Streaming;
    }
}

} // verus!
