//! The fixed figures of the pipeline: queue sizes, intervals and thresholds.

use vstd::prelude::*;

verus! {

/// Capacity of the queue of audio packets between reader and decoder.
pub const AUDIO_PACKET_QUEUE_SIZE: usize = 2;

/// Capacity of the queue of video packets between reader and decoder.
pub const VIDEO_PACKET_QUEUE_SIZE: usize = 12;

/// Capacity of the queue of playable audio frames.
pub const AUDIO_FRAME_QUEUE_SIZE: usize = 5;

/// Capacity of the queue of playable video frames.
pub const VIDEO_FRAME_QUEUE_SIZE: usize = 1;

/// Polling interval of every worker, in milliseconds.
pub const PLAY_MIN_INTERVAL_MS: u64 = 20;

/// Pause of a decoder that found its packet queue empty, in milliseconds.
pub const DECODE_IDLE_INTERVAL_MS: u64 = 2;

/// Ticks of the container clock per second (microseconds).
pub const AV_TIME_BASE: i32 = 1_000_000;

/// Video behind audio by this much or more (microseconds, negative): catch up.
pub const VIDEO_SYNC_THRESHOLD_MIN: i64 = -100_000;

/// Video ahead of audio by this much or more (microseconds): slow down.
pub const VIDEO_SYNC_THRESHOLD_MAX: i64 = 25_000;

/// Milliseconds without pointer movement after which the status bar hides.
pub const MAX_DIFF_MOVE_MOUSE: i64 = 5000;

/// Ticks of audio taken to be buffered ahead of the speaker, unless set otherwise.
pub const DEFAULT_LOOKAHEAD_FRAMES: i64 = 4;

/// Consecutive empty polls after which a presenter declares its stream finished.
pub const MAX_EMPTY_POLLS: u32 = 10;

/// Samples the audio ring buffer holds.
pub const AUDIO_RING_CAPACITY: usize = 17640;

} // verus!
