//! The state shared by the control layer and the workers, and the rule that
//! keeps video in step with audio.

use vstd::prelude::*;
use crate::player::audio::{fill_silence, AudioPlayFrame};
use crate::player::clock::{
    lemma_play_time_bounded, lemma_play_time_monotonic, play_time, Clock, FrameStamp, PlayTime,
};
use crate::player::command::{CommandGo, PlayerState};
use crate::player::consts::{
    AV_TIME_BASE, DEFAULT_LOOKAHEAD_FRAMES, VIDEO_SYNC_THRESHOLD_MAX, VIDEO_SYNC_THRESHOLD_MIN,
};
use crate::player::kits::{
    av_time_base_rational, millisec_time_base, timestamp_to_millisecond,
    timestamp_to_millisecond_spec, Volume,
};
use crate::player::time_base::{lemma_rescale_monotonic, rescales, Rational};
use crate::player::video::VideoPlayFrame;

verus! {

/// How long the video presenter waits after showing a frame, given where
/// the audio clock and the video clock stand and how long the frame lasts
/// (all in microseconds).
///
/// Without a reference (either clock at zero) the frame plays at its
/// natural rate. Video that lags by the lower threshold or more catches up
/// by waiting less, never less than zero; video that leads by the upper
/// threshold or more waits that threshold longer; in between, the natural
/// rate again.
pub open spec fn video_delay_spec(audio: int, video: int, duration: int) -> int {
    let diff = video - audio;
    if audio == 0 || video == 0 {
        duration
    } else if diff <= VIDEO_SYNC_THRESHOLD_MIN {
        if duration + diff > 0 {
            duration + diff
        } else {
            0
        }
    } else if diff >= VIDEO_SYNC_THRESHOLD_MAX {
        duration + VIDEO_SYNC_THRESHOLD_MAX
    } else {
        duration
    }
}

/// Play times up to this size, either way, can be told apart and added
/// without leaving [`PlayTime`].
pub open spec fn play_time_limit() -> int {
    0x1000_0000_0000_0000_0000_0000_0000_0000
}

/// Computes [`video_delay_spec`].
pub fn video_delay(audio: PlayTime, video: PlayTime, duration: PlayTime) -> (delay: PlayTime)
    requires
        -play_time_limit() <= audio <= play_time_limit(),
        -play_time_limit() <= video <= play_time_limit(),
        -play_time_limit() <= duration <= play_time_limit(),
    ensures
        delay == video_delay_spec(audio as int, video as int, duration as int),
{
    let diff: i128 = video - audio;
    if audio == 0 || video == 0 {
        duration
    } else if diff <= VIDEO_SYNC_THRESHOLD_MIN as i128 {
        let catch_up: i128 = duration + diff;
        if catch_up > 0 {
            catch_up
        } else {
            0
        }
    } else if diff >= VIDEO_SYNC_THRESHOLD_MAX as i128 {
        duration + VIDEO_SYNC_THRESHOLD_MAX as i128
    } else {
        duration
    }
}

/// A frame that lasts no negative time is never followed by a negative wait.
pub proof fn lemma_video_delay_nonnegative(audio: int, video: int, duration: int)
    requires
        duration >= 0,
    ensures
        video_delay_spec(audio, video, duration) >= 0,
{
}

/// Once both clocks have a reference and the frame has a length, the wait
/// is the frame's own duration exactly when the video is neither behind by
/// the lower threshold nor ahead by the upper one.
pub proof fn lemma_video_delay_natural_iff_in_band(audio: int, video: int, duration: int)
    requires
        audio != 0,
        video != 0,
        duration != 0,
    ensures
        video_delay_spec(audio, video, duration) == duration <==> VIDEO_SYNC_THRESHOLD_MIN < video
            - audio < VIDEO_SYNC_THRESHOLD_MAX,
{
}

/// A stream that is absent leaves its clock at zero, and the wait is then
/// the frame's own duration whatever the other clock says.
pub proof fn lemma_video_delay_without_reference(video: int, duration: int)
    ensures
        video_delay_spec(0, video, duration) == duration,
{
}

/// The state that the control layer and all workers share: the player
/// state, the pending command, both clocks, the finished flags and the
/// figures published to the user interface.
#[derive(Clone, Copy, Debug)]
pub struct PlayCtrl {
    pub player_state: PlayerState,
    pub packet_finished: bool,
    pub video_finished: bool,
    pub video_clock: Clock,
    pub mute: bool,
    pub audio_finished: bool,
    /// Volume in thousandths of full volume.
    pub audio_volume: i64,
    pub audio_clock: Clock,
    /// Length of the file in ticks of the container clock.
    pub duration: i64,
    pub duration_ms: i64,
    pub video_elapsed_ms: i64,
    pub audio_elapsed_ms: i64,
    /// Shown in place of the video's elapsed time while a seek is under
    /// way; `-1` when there is none.
    pub video_elapsed_ms_override: i64,
    pub command_go: CommandGo,
    pub video_stream_time_base: Option<Rational>,
    pub audio_stream_time_base: Option<Rational>,
    /// Ticks of audio taken to sit in the output buffer, ahead of the speaker.
    pub lookahead_frames: i64,
}

/// The tick length a clock is given for a stream that may be absent.
pub open spec fn clock_time_base(time_base: Option<Rational>) -> Rational {
    match time_base {
        Some(t) => t,
        None => Rational { num: 0, den: 1 },
    }
}

impl PlayCtrl {
    /// The shared state of a freshly opened file.
    pub open spec fn initial(
        duration: i64,
        video_stream_time_base: Option<Rational>,
        audio_stream_time_base: Option<Rational>,
    ) -> PlayCtrl {
        PlayCtrl {
            player_state: PlayerState::Paused,
            packet_finished: false,
            video_finished: false,
            video_clock: Clock {
                time_base: clock_time_base(video_stream_time_base),
                pts: 0,
                frame_duration: 0,
                timestamp: 0,
            },
            mute: false,
            audio_finished: false,
            audio_volume: 500,
            audio_clock: Clock {
                time_base: clock_time_base(audio_stream_time_base),
                pts: 0,
                frame_duration: 0,
                timestamp: 0,
            },
            duration,
            duration_ms: timestamp_to_millisecond_spec(duration, av_time_base_rational()),
            video_elapsed_ms: 0,
            audio_elapsed_ms: 0,
            video_elapsed_ms_override: -1i64,
            command_go: CommandGo::NoCommand,
            video_stream_time_base,
            audio_stream_time_base,
            lookahead_frames: DEFAULT_LOOKAHEAD_FRAMES,
        }
    }

    /// The elapsed time shown to the user.
    pub open spec fn elapsed_ms_spec(self) -> i64 {
        if self.video_elapsed_ms_override == -1 {
            self.video_elapsed_ms
        } else {
            self.video_elapsed_ms_override
        }
    }

    /// The state after an audio frame with these stamps went to the speaker.
    pub open spec fn after_audio_frame(self, pts: i64, duration: i64, timestamp: i64) -> PlayCtrl {
        let audio_clock = self.audio_clock.updated(pts, duration, timestamp);
        match self.audio_stream_time_base {
            Some(time_base) => {
                let t = timestamp_to_millisecond_spec(pts, time_base);
                PlayCtrl {
                    audio_clock,
                    audio_elapsed_ms: t,
                    video_elapsed_ms: if self.video_stream_time_base is None {
                        t
                    } else {
                        self.video_elapsed_ms
                    },
                    ..self
                }
            },
            None => PlayCtrl { audio_clock, ..self },
        }
    }

    /// The state after a video frame with these stamps went to the display.
    pub open spec fn after_video_frame(self, pts: i64, duration: i64, timestamp: i64) -> PlayCtrl {
        let video_clock = self.video_clock.updated(pts, duration, timestamp);
        match self.video_stream_time_base {
            Some(time_base) => PlayCtrl {
                video_clock,
                video_elapsed_ms: timestamp_to_millisecond_spec(pts, time_base),
                ..self
            },
            None => PlayCtrl { video_clock, ..self },
        }
    }

    /// The wait that the clocks call for, see [`video_delay_spec`].
    pub open spec fn video_delay_now(self) -> int {
        video_delay_spec(
            self.audio_clock.play_ts_spec(self.lookahead_frames),
            self.video_clock.play_ts_spec(0),
            self.video_clock.play_duration_spec(),
        )
    }

    pub fn new(
        duration: i64,
        video_stream_time_base: Option<Rational>,
        audio_stream_time_base: Option<Rational>,
    ) -> (ctrl: PlayCtrl)
        ensures
            ctrl == Self::initial(duration, video_stream_time_base, audio_stream_time_base),
    {
        let video_clock = match video_stream_time_base {
            None => Clock::new(Rational { num: 0, den: 1 }),
            Some(t) => Clock::new(t),
        };
        let audio_clock = match audio_stream_time_base {
            None => Clock::new(Rational { num: 0, den: 1 }),
            Some(t) => Clock::new(t),
        };
        PlayCtrl {
            player_state: PlayerState::Paused,
            packet_finished: false,
            video_finished: false,
            video_clock,
            mute: false,
            audio_finished: false,
            audio_volume: Volume::DEFAULT_INT_VOLUME,
            audio_clock,
            duration,
            duration_ms: timestamp_to_millisecond(duration, Rational { num: 1, den: AV_TIME_BASE }),
            video_elapsed_ms: 0,
            audio_elapsed_ms: 0,
            video_elapsed_ms_override: -1,
            command_go: CommandGo::NoCommand,
            video_stream_time_base,
            audio_stream_time_base,
            lookahead_frames: DEFAULT_LOOKAHEAD_FRAMES,
        }
    }

    pub fn set_mute(&mut self, mute: bool)
        ensures
            *final(self) == (PlayCtrl { mute, ..*old(self) }),
    {
        self.mute = mute;
    }

    pub fn get_mute(&self) -> (mute: bool)
        ensures
            mute == self.mute,
    {
        self.mute
    }

    pub fn elapsed_ms(&self) -> (ms: i64)
        ensures
            ms == self.elapsed_ms_spec(),
    {
        if self.video_elapsed_ms_override == -1 {
            self.video_elapsed_ms
        } else {
            self.video_elapsed_ms_override
        }
    }

    pub fn set_audio_finished(&mut self, finished: bool)
        ensures
            *final(self) == (PlayCtrl { audio_finished: finished, ..*old(self) }),
    {
        self.audio_finished = finished;
    }

    pub fn audio_finished(&self) -> (finished: bool)
        ensures
            finished == self.audio_finished,
    {
        self.audio_finished
    }

    pub fn set_video_finished(&mut self, finished: bool)
        ensures
            *final(self) == (PlayCtrl { video_finished: finished, ..*old(self) }),
    {
        self.video_finished = finished;
    }

    pub fn video_finished(&self) -> (finished: bool)
        ensures
            finished == self.video_finished,
    {
        self.video_finished
    }

    pub fn set_packet_finished(&mut self, demux_finished: bool)
        ensures
            *final(self) == (PlayCtrl { packet_finished: demux_finished, ..*old(self) }),
    {
        self.packet_finished = demux_finished;
    }

    pub fn packet_finished(&self) -> (finished: bool)
        ensures
            finished == self.packet_finished,
    {
        self.packet_finished
    }

    /// Takes an audio frame on its way to the speaker: the audio clock and
    /// the elapsed times move to the frame, and the samples come back to be
    /// played, all of them `silence` while the player is muted.
    pub fn play_audio<S: Copy>(&mut self, frame: AudioPlayFrame<S>, silence: S) -> (samples: Vec<S>)
        ensures
            *final(self) == old(self).after_audio_frame(frame.pts, frame.duration, frame.timestamp),
            samples@ == if old(self).mute {
                Seq::new(frame.samples@.len(), |i: int| silence)
            } else {
                frame.samples@
            },
    {
        self.update_audio_clock(frame.pts, frame.duration, frame.timestamp);
        let mut samples = frame.samples;
        if self.mute {
            fill_silence(&mut samples, silence);
        }
        samples
    }

    /// Takes a video frame on its way to the display: the video clock and
    /// the elapsed time move to the frame. Returns how long to wait after
    /// showing it.
    pub fn play_video(&mut self, frame: &VideoPlayFrame) -> (delay: PlayTime)
        ensures
            *final(self) == old(self).after_video_frame(frame.pts, frame.duration, frame.timestamp),
            delay == final(self).video_delay_now(),
    {
        self.update_video_clock(frame.pts, frame.duration, frame.timestamp)
    }

    pub fn update_audio_clock(&mut self, pts: i64, duration: i64, timestamp: i64)
        ensures
            *final(self) == old(self).after_audio_frame(pts, duration, timestamp),
    {
        self.audio_clock.update(pts, duration, timestamp);
        if let Some(time_base) = self.audio_stream_time_base {
            let t = timestamp_to_millisecond(pts, time_base);
            self.audio_elapsed_ms = t;
            if self.video_stream_time_base.is_none() {
                self.video_elapsed_ms = t;
            }
        }
    }

    pub fn update_video_clock(&mut self, pts: i64, duration: i64, timestamp: i64) -> (delay:
        PlayTime)
        ensures
            *final(self) == old(self).after_video_frame(pts, duration, timestamp),
            delay == final(self).video_delay_now(),
    {
        self.video_clock.update(pts, duration, timestamp);
        if let Some(time_base) = self.video_stream_time_base {
            let t = timestamp_to_millisecond(pts, time_base);
            self.video_elapsed_ms = t;
        }
        self.compute_video_delay()
    }

    pub fn compute_video_delay(&self) -> (delay: PlayTime)
        ensures
            delay == self.video_delay_now(),
    {
        let audio_clock = self.audio_clock.play_ts(self.lookahead_frames);
        let (video_clock, duration) = self.video_clock.play_ts_duration();
        proof {
            lemma_play_time_bounded(self.audio_clock.pts, self.audio_clock.time_base);
            lemma_play_time_bounded(self.lookahead_frames, self.audio_clock.time_base);
            lemma_play_time_bounded(self.video_clock.pts, self.video_clock.time_base);
            lemma_play_time_bounded(0, self.video_clock.time_base);
            lemma_play_time_bounded(self.video_clock.frame_duration, self.video_clock.time_base);
        }
        video_delay(audio_clock, video_clock, duration)
    }
}

impl PlayCtrl {
    /// The state after the video frames with these stamps went to the
    /// display in turn.
    pub open spec fn after_video_frames(self, stamps: Seq<FrameStamp>) -> PlayCtrl
        decreases stamps.len(),
    {
        if stamps.len() == 0 {
            self
        } else {
            self.after_video_frames(stamps.drop_last()).after_video_frame(
                stamps.last().pts,
                stamps.last().duration,
                stamps.last().timestamp,
            )
        }
    }
}

/// Showing video frames never touches the audio clock.
pub proof fn lemma_video_frames_keep_audio_clock(ctrl: PlayCtrl, stamps: Seq<FrameStamp>)
    ensures
        ctrl.after_video_frames(stamps).audio_clock == ctrl.audio_clock,
        ctrl.after_video_frames(stamps).lookahead_frames == ctrl.lookahead_frames,
        ctrl.after_video_frames(stamps).player_state == ctrl.player_state,
    decreases stamps.len(),
{
    if stamps.len() > 0 {
        lemma_video_frames_keep_audio_clock(ctrl, stamps.drop_last());
    }
}

/// A file without an audio stream plays its video at the natural rate: the
/// audio clock reads zero whatever happens, and after any run of video
/// frames the wait is the duration of the frame shown last.
pub proof fn lemma_video_only_plays_at_natural_rate(
    duration: i64,
    video_time_base: Rational,
    stamps: Seq<FrameStamp>,
)
    ensures
        ({
            let ctrl = PlayCtrl::initial(duration, Some(video_time_base), None).after_video_frames(
                stamps,
            );
            &&& ctrl.audio_clock.play_ts_spec(ctrl.lookahead_frames) == 0
            &&& ctrl.video_delay_now() == ctrl.video_clock.play_duration_spec()
        }),
{
    let start = PlayCtrl::initial(duration, Some(video_time_base), None);
    lemma_video_frames_keep_audio_clock(start, stamps);
    let ctrl = start.after_video_frames(stamps);
    lemma_zero_tick_plays_no_time(ctrl.audio_clock.pts);
    lemma_zero_tick_plays_no_time(ctrl.lookahead_frames);
}

/// Ticks of no length add up to no play time.
pub proof fn lemma_zero_tick_plays_no_time(ticks: i64)
    ensures
        play_time(ticks, Rational { num: 0, den: 1 }) == 0,
{
    assert(ticks as int * (0 * AV_TIME_BASE as int) == 0) by (nonlinear_arith);
}

/// Whether the elapsed time that a video frame stamped `pts` publishes can
/// be written in milliseconds.
pub open spec fn publishes_elapsed(ctrl: PlayCtrl, pts: i64) -> bool {
    match ctrl.video_stream_time_base {
        Some(time_base) => rescales(pts, time_base, millisec_time_base()),
        None => true,
    }
}

/// Presented time never runs backwards. Of two video frames shown one
/// after the other, with no seek between, the second not stamped earlier
/// than the first, the second leaves the video clock at a play time that
/// is not earlier, and publishes an elapsed time that is not lower, as far
/// as both elapsed times can be written in milliseconds.
pub proof fn lemma_presented_time_never_runs_backwards(
    ctrl: PlayCtrl,
    first: FrameStamp,
    second: FrameStamp,
)
    requires
        first.pts <= second.pts,
    ensures
        ({
            let shown = ctrl.after_video_frame(first.pts, first.duration, first.timestamp);
            let next = shown.after_video_frame(second.pts, second.duration, second.timestamp);
            &&& shown.video_clock.play_ts_spec(0) <= next.video_clock.play_ts_spec(0)
            &&& publishes_elapsed(ctrl, first.pts) && publishes_elapsed(ctrl, second.pts)
                ==> shown.video_elapsed_ms <= next.video_elapsed_ms
        }),
{
    lemma_play_time_monotonic(first.pts, second.pts, ctrl.video_clock.time_base);
    match ctrl.video_stream_time_base {
        Some(time_base) => {
            if publishes_elapsed(ctrl, first.pts) && publishes_elapsed(ctrl, second.pts) {
                lemma_rescale_monotonic(first.pts, second.pts, time_base, millisec_time_base());
            }
        },
        None => {},
    }
}

/// The microseconds to sleep for a wait: none for a wait that is not
/// positive, and at most what the counter holds.
pub open spec fn sleep_micros_spec(delay: int) -> int {
    if delay <= 0 {
        0
    } else if delay > u64::MAX {
        u64::MAX as int
    } else {
        delay
    }
}

pub fn sleep_micros(delay: PlayTime) -> (micros: u64)
    ensures
        micros == sleep_micros_spec(delay as int),
{
    if delay <= 0 {
        0
    } else if delay > u64::MAX as i128 {
        u64::MAX
    } else {
        delay as u64
    }
}

} // verus!
