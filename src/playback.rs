//! Decisions of the background playback loop: when it stops, how it reacts
//! to each decoded chunk, and when repeated errors end playback.
use vstd::prelude::*;

verus! {

/// Consecutive failed reads after which playback gives up.
pub const MAX_CONSECUTIVE_ERRORS: u32 = 20;

/// An end this many milliseconds or more before the announced duration is
/// reported as early.
pub const EARLY_END_GAP_MS: u64 = 30000;

/// Pause after handing out a chunk.
pub const CHUNK_PACING_MS: u64 = 10;

/// Pause before retrying after a failed read.
pub const RETRY_DELAY_MS: u64 = 50;

/// What the playback state reports to the user interface.
#[derive(Clone, Debug, PartialEq, Eq)]
pub struct PlaybackStatus {
    pub is_playing: bool,
    pub track_id: Option<i64>,
    pub position_ms: u64,
    pub duration_ms: u64,
    pub sample_rate: u32,
}

/// What one request for the next chunk gave.
#[derive(Clone, Copy, Debug, PartialEq, Eq, Structural)]
pub enum ChunkEvent {
    /// No track is loaded.
    NoDecoder,
    /// A chunk; `is_end` marks the final, empty one.
    Chunk { is_end: bool, position_ms: u64, duration_ms: u64 },
    /// The decoder had nothing more to give.
    Exhausted { position_ms: u64, duration_ms: u64 },
    /// Reading or decoding failed.
    Failed,
}

/// What the playback loop does next.
#[derive(Clone, Copy, Debug, PartialEq, Eq, Structural)]
pub enum LoopAction {
    /// Leave the loop.
    Stop,
    /// Hand the chunk out, pause `CHUNK_PACING_MS`, and go on.
    Emit,
    /// Report the end of the track and leave the loop; `early_gap_ms` is
    /// how far before the announced end it came, when that is more than
    /// `EARLY_END_GAP_MS`.
    Ended { early_gap_ms: Option<u64> },
    /// Pause `RETRY_DELAY_MS` and try again; this was failure `attempt` in a
    /// row.
    Retry { attempt: u32 },
    /// Report the error and leave the loop after `attempt` failures in a row.
    GiveUp { attempt: u32 },
}

/// How far before the announced end a track ended, when that is more than
/// `EARLY_END_GAP_MS`.
pub open spec fn early_gap(position_ms: u64, duration_ms: u64) -> Option<u64> {
    if duration_ms > position_ms && duration_ms - position_ms > EARLY_END_GAP_MS {
        Some((duration_ms - position_ms) as u64)
    } else {
        None
    }
}

/// How far before the announced end a track ended, when that is more than
/// `EARLY_END_GAP_MS`.
pub fn early_end_gap(position_ms: u64, duration_ms: u64) -> (r: Option<u64>)
    ensures
        r == early_gap(position_ms, duration_ms),
{
    let gap = if duration_ms > position_ms {
        duration_ms - position_ms
    } else {
        0
    };
    if gap > EARLY_END_GAP_MS {
        Some(gap)
    } else {
        None
    }
}

/// The generation that a new playback, seek or stop moves to; every
/// running loop of an older generation then stops.
pub fn next_generation(generation: u64) -> (r: u64)
    ensures
        r == (if generation == u64::MAX {
            0
        } else {
            (generation + 1) as u64
        }),
        r != generation,
{
    if generation == u64::MAX {
        0
    } else {
        generation + 1
    }
}

/// The state of one run of the playback loop.
#[derive(Clone, Copy, Debug, PartialEq, Eq, Structural)]
pub struct PlaybackLoop {
    /// The generation the loop was started in.
    pub generation: u64,
    /// Failed reads since the last chunk.
    pub consecutive_errors: u32,
}

impl PlaybackLoop {
    /// The loop's state when it starts in `generation`.
    pub fn new(generation: u64) -> (r: PlaybackLoop)
        ensures
            r == (PlaybackLoop { generation, consecutive_errors: 0 }),
    {
        PlaybackLoop { generation, consecutive_errors: 0 }
    }

    /// Whether the loop may ask for another chunk: it stops once a newer
    /// generation has begun or playback was paused.
    pub fn should_continue(&self, current_generation: u64, is_playing: bool) -> (r: bool)
        ensures
            r == (current_generation == self.generation && is_playing),
    {
        current_generation == self.generation && is_playing
    }

    /// Reacts to one request for the next chunk. Any chunk clears the error
    /// count; a failure counts, and the loop gives up at the
    /// `MAX_CONSECUTIVE_ERRORS`-th in a row.
    pub fn on_chunk(&mut self, event: ChunkEvent) -> (r: LoopAction)
        requires
            old(self).consecutive_errors < MAX_CONSECUTIVE_ERRORS,
        ensures
            final(self).generation == old(self).generation,
            final(self).consecutive_errors < MAX_CONSECUTIVE_ERRORS || r is GiveUp,
            match event {
                ChunkEvent::NoDecoder => r == LoopAction::Stop && *final(self) == *old(self),
                ChunkEvent::Chunk { is_end, position_ms, duration_ms } => {
                    &&& final(self).consecutive_errors == 0
                    &&& is_end ==> r == (LoopAction::Ended {
                        early_gap_ms: early_gap(position_ms, duration_ms),
                    })
                    &&& !is_end ==> r == LoopAction::Emit
                },
                ChunkEvent::Exhausted { position_ms, duration_ms } => {
                    &&& final(self).consecutive_errors == 0
                    &&& r == (LoopAction::Ended {
                        early_gap_ms: early_gap(position_ms, duration_ms),
                    })
                },
                ChunkEvent::Failed => {
                    &&& final(self).consecutive_errors == old(self).consecutive_errors + 1
                    &&& final(self).consecutive_errors >= MAX_CONSECUTIVE_ERRORS ==> r == (
                    LoopAction::GiveUp { attempt: final(self).consecutive_errors })
                    &&& final(self).consecutive_errors < MAX_CONSECUTIVE_ERRORS ==> r == (
                    LoopAction::Retry { attempt: final(self).consecutive_errors })
                },
            },
    {
        match event {
            ChunkEvent::NoDecoder => LoopAction::Stop,
            ChunkEvent::Chunk { is_end, position_ms, duration_ms } => {
                self.consecutive_errors = 0;
                if is_end {
                    LoopAction::Ended { early_gap_ms: early_end_gap(position_ms, duration_ms) }
                } else {
                    LoopAction::Emit
                }
            },
            ChunkEvent::Exhausted { position_ms, duration_ms } => {
                self.consecutive_errors = 0;
                LoopAction::Ended { early_gap_ms: early_end_gap(position_ms, duration_ms) }
            },
            ChunkEvent::Failed => {
                self.consecutive_errors = self.consecutive_errors + 1;
                if self.consecutive_errors >= MAX_CONSECUTIVE_ERRORS {
                    LoopAction::GiveUp { attempt: self.consecutive_errors }
                } else {
                    LoopAction::Retry { attempt: self.consecutive_errors }
                }
            },
        }
    }
}

} // verus!
