//! The clock of one stream: where the stream stands, in ticks and in play time.

use vstd::prelude::*;
use vstd::arithmetic::div_mod::{
    lemma_basic_div, lemma_div_is_ordered, lemma_div_nonincreasing, lemma_div_pos_is_pos,
};
use vstd::arithmetic::mul::lemma_mul_inequality;
use crate::player::consts::AV_TIME_BASE;
use crate::player::time_base::{
    lemma_mul_bounded, lemma_round_div_monotonic, round_div, Rational,
};

verus! {

/// A play time in microseconds. Wide enough that no tick count overflows it.
pub type PlayTime = i128;

/// The play time of `ticks` ticks of length `time_base`, in microseconds,
/// rounded to the nearest. A tick length that is no time base counts as
/// zero, so a clock without a stream always reads zero.
pub open spec fn play_time(ticks: i64, time_base: Rational) -> int {
    if time_base.is_time_base() {
        round_div(ticks as int * (time_base.num as int * AV_TIME_BASE as int), time_base.den as int)
    } else {
        0
    }
}

/// Computes [`play_time`].
pub fn ticks_to_play_time(ticks: i64, time_base: Rational) -> (t: PlayTime)
    ensures
        t == play_time(ticks, time_base),
{
    if time_base.num < 0 || time_base.den <= 0 {
        return 0;
    }
    let m: i64 = time_base.num as i64 * AV_TIME_BASE as i64;
    proof {
        lemma_mul_bounded(
            ticks as int,
            m as int,
            0x8000_0000_0000_0000,
            0x8_0000_0000_0000,
        );
    }
    let p: i128 = ticks as i128 * m as i128;
    let c: i128 = time_base.den as i128;
    let half: i128 = c / 2;
    if p >= 0 {
        (p + half) / c
    } else {
        -((-p + half) / c)
    }
}

/// A longer tick count never plays earlier.
pub proof fn lemma_play_time_monotonic(a: i64, b: i64, time_base: Rational)
    requires
        a <= b,
    ensures
        play_time(a, time_base) <= play_time(b, time_base),
{
    if time_base.is_time_base() {
        let m = time_base.num as int * AV_TIME_BASE as int;
        lemma_mul_inequality(a as int, b as int, m);
        lemma_round_div_monotonic(a as int * m, b as int * m, time_base.den as int);
    }
}

/// The last known position of one stream: the presentation timestamp and
/// the duration of the frame presented last, in ticks of the stream, and its
/// timestamp in ticks of the container clock.
#[derive(PartialEq, Eq, Structural, Clone, Copy, Debug)]
pub struct Clock {
    pub time_base: Rational,
    pub pts: i64,
    pub frame_duration: i64,
    pub timestamp: i64,
}

impl Clock {
    /// The clock after a frame with these stamps was presented.
    pub open spec fn updated(self, pts: i64, frame_duration: i64, timestamp: i64) -> Clock {
        Clock { time_base: self.time_base, pts, frame_duration, timestamp }
    }

    /// The clock of the same stream before any frame.
    pub open spec fn cleared(self) -> Clock {
        Clock { time_base: self.time_base, pts: 0, frame_duration: 0, timestamp: 0 }
    }

    /// The play time reached once `frames` more ticks have gone by.
    pub open spec fn play_ts_spec(self, frames: i64) -> int {
        play_time(self.pts, self.time_base) + play_time(frames, self.time_base)
    }

    /// How long the current frame plays.
    pub open spec fn play_duration_spec(self) -> int {
        play_time(self.frame_duration, self.time_base)
    }

    /// A clock at zero for a stream with ticks of length `time_base`.
    pub fn new(time_base: Rational) -> (c: Clock)
        ensures
            c == (Clock { time_base, pts: 0, frame_duration: 0, timestamp: 0 }),
    {
        Clock { time_base, pts: 0, frame_duration: 0, timestamp: 0 }
    }

    pub fn play_ts(&self, frames: i64) -> (t: PlayTime)
        ensures
            t == self.play_ts_spec(frames),
    {
        proof {
            lemma_play_time_bounded(self.pts, self.time_base);
            lemma_play_time_bounded(frames, self.time_base);
        }
        ticks_to_play_time(self.pts, self.time_base) + ticks_to_play_time(frames, self.time_base)
    }

    /// The current play time and the duration of the current frame.
    pub fn play_ts_duration(&self) -> (td: (PlayTime, PlayTime))
        ensures
            td.0 == self.play_ts_spec(0),
            td.1 == self.play_duration_spec(),
    {
        assert(play_time(0, self.time_base) == 0) by {
            if self.time_base.is_time_base() {
                assert(0 * (self.time_base.num as int * AV_TIME_BASE as int) == 0);
                assert((self.time_base.den as int / 2) / (self.time_base.den as int) == 0) by {
                    lemma_basic_div(self.time_base.den as int / 2, self.time_base.den as int);
                }
            }
        }
        (
            ticks_to_play_time(self.pts, self.time_base),
            ticks_to_play_time(self.frame_duration, self.time_base),
        )
    }

    pub fn update(&mut self, pts: i64, frame_duration: i64, timestamp: i64)
        ensures
            *final(self) == old(self).updated(pts, frame_duration, timestamp),
    {
        self.pts = pts;
        self.frame_duration = frame_duration;
        self.timestamp = timestamp;
    }

    /// Puts the clock back to zero.
    pub fn reset(&mut self)
        ensures
            *final(self) == old(self).cleared(),
    {
        self.pts = 0;
        self.frame_duration = 0;
        self.timestamp = 0;
    }

    /// The timestamp of the current frame, in ticks of the container clock.
    pub fn timestamp(&self) -> (t: i64)
        ensures
            t == self.timestamp,
    {
        self.timestamp
    }

    pub fn play_duration(&self) -> (t: PlayTime)
        ensures
            t == self.play_duration_spec(),
    {
        ticks_to_play_time(self.frame_duration, self.time_base)
    }
}

/// A play time lies well inside the range of [`PlayTime`].
pub proof fn lemma_play_time_bounded(ticks: i64, time_base: Rational)
    ensures
        -0x8_0000_0000_0000_0000_0000_0000_0000 <= play_time(ticks, time_base)
            <= 0x8_0000_0000_0000_0000_0000_0000_0000,
{
    if time_base.is_time_base() {
        let m = time_base.num as int * AV_TIME_BASE as int;
        let c = time_base.den as int;
        let p = ticks as int * m;
        lemma_mul_bounded(ticks as int, m, 0x8000_0000_0000_0000, 0x8_0000_0000_0000);
        if p >= 0 {
            lemma_div_nonincreasing(p + c / 2, c);
            lemma_div_pos_is_pos(p + c / 2, c);
        } else {
            lemma_div_nonincreasing(-p + c / 2, c);
            lemma_div_pos_is_pos(-p + c / 2, c);
        }
    }
}

/// The stamps that a frame carries to its presenter.
#[derive(PartialEq, Eq, Structural, Clone, Copy, Debug)]
pub struct FrameStamp {
    /// Presentation timestamp, in ticks of the stream.
    pub pts: i64,
    /// Duration, in ticks of the stream.
    pub duration: i64,
    /// Timestamp in ticks of the container clock.
    pub timestamp: i64,
}

/// Whether the frames come in the order of their presentation.
pub open spec fn in_presentation_order(stamps: Seq<FrameStamp>) -> bool {
    forall|a: int, b: int| 0 <= a <= b < stamps.len() ==> stamps[a].pts <= stamps[b].pts
}

impl Clock {
    /// The clock after the frames with these stamps were presented in turn.
    pub open spec fn after(self, stamps: Seq<FrameStamp>) -> Clock
        decreases stamps.len(),
    {
        if stamps.len() == 0 {
            self
        } else {
            self.after(stamps.drop_last()).updated(
                stamps.last().pts,
                stamps.last().duration,
                stamps.last().timestamp,
            )
        }
    }
}

/// While frames are delivered in the order of their presentation, and no
/// seek comes between, the clock never runs backwards: its play time after
/// any delivery is at least its play time after any earlier one.
pub proof fn lemma_clock_never_runs_backwards(
    clock: Clock,
    stamps: Seq<FrameStamp>,
    i: int,
    j: int,
    frames: i64,
)
    requires
        in_presentation_order(stamps),
        0 < i <= j <= stamps.len(),
    ensures
        clock.after(stamps.take(i)).play_ts_spec(frames) <= clock.after(
            stamps.take(j),
        ).play_ts_spec(frames),
{
    assert(stamps.take(i).last() == stamps[i - 1]);
    assert(stamps.take(j).last() == stamps[j - 1]);
    assert(clock.after(stamps.take(i)).time_base == clock.time_base) by {
        lemma_after_keeps_time_base(clock, stamps.take(i));
    }
    assert(clock.after(stamps.take(j)).time_base == clock.time_base) by {
        lemma_after_keeps_time_base(clock, stamps.take(j));
    }
    lemma_play_time_monotonic(stamps[i - 1].pts, stamps[j - 1].pts, clock.time_base);
}

/// Presenting frames leaves the tick length of a clock alone.
pub proof fn lemma_after_keeps_time_base(clock: Clock, stamps: Seq<FrameStamp>)
    ensures
        clock.after(stamps).time_base == clock.time_base,
    decreases stamps.len(),
{
    if stamps.len() > 0 {
        lemma_after_keeps_time_base(clock, stamps.drop_last());
    }
}

} // verus!
