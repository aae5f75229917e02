//! The queues between the workers, and the looks that the workers take into them.

use vstd::prelude::*;
use crate::player::audio::AudioPlayFrame;
use crate::player::command::PlayerState;
use crate::player::consts::{
    AUDIO_FRAME_QUEUE_SIZE, AUDIO_PACKET_QUEUE_SIZE, VIDEO_FRAME_QUEUE_SIZE,
    VIDEO_PACKET_QUEUE_SIZE,
};
use crate::player::decode::{decode_next, decode_next_spec, DecodeStep, PacketEvent};
use crate::player::packet_reader::{
    reader_ctrl_spec, reader_poll, reader_step_spec, ReaderStep, Streams,
};
use crate::player::play_ctrl::PlayCtrl;
use crate::player::player_::MediaInfo;
use crate::player::queue::{
    drain_optional, drained_of, queue_try_recv, BoundedQueue, Drained, Polled,
};
use crate::player::present::{
    empty_polls_after, finished_ctrl, poll_ends_stream, present_step_spec, FrameEvent, PresentStep,
    Presenter,
};
use crate::player::time_base::Rational;
use crate::player::video::VideoPlayFrame;

verus! {

/// What travels down a packet queue: packets, and the mark that the reader
/// sets after a seek, where what was queued before no longer follows on
/// what comes after.
#[derive(Clone, Debug)]
pub enum Queued<P> {
    Packet(P),
    Discontinuity,
}

/// Every queue of the pipeline, for packets of type `P` and audio samples
/// of type `S`: for each stream that is played, a queue of packets from the
/// reader to the decoder and a queue of playable frames from the decoder to
/// the presenter. The queues of a stream that is not played are absent.
#[verifier::reject_recursive_types(P)]
#[verifier::reject_recursive_types(S)]
pub struct VideoAudioRS<P, S> {
    pub video_packets: Option<BoundedQueue<Queued<P>>>,
    pub video_frames: Option<BoundedQueue<VideoPlayFrame>>,
    pub video_stream_time_base: Option<Rational>,
    pub audio_packets: Option<BoundedQueue<Queued<P>>>,
    pub audio_frames: Option<BoundedQueue<AudioPlayFrame<S>>>,
    pub audio_stream_time_base: Option<Rational>,
}

/// Whether a queue is there exactly when its stream is, and was then made
/// to hold at most `limit` items.
pub open spec fn made_with<T>(queue: Option<BoundedQueue<T>>, present: bool, limit: usize) -> bool {
    match queue {
        Some(q) => present && q.limit_spec() == limit,
        None => !present,
    }
}

/// The limit of a queue that may be absent: an absent queue holds nothing.
pub open spec fn places<T>(queue: Option<BoundedQueue<T>>) -> int {
    match queue {
        Some(q) => q.limit_spec() as int,
        None => 0,
    }
}

/// The kind of what a look into a packet queue found.
pub open spec fn packet_event<P>(polled: Polled<Queued<P>>) -> PacketEvent {
    match polled {
        Polled::Closed => PacketEvent::Closed,
        Polled::Empty => PacketEvent::Empty,
        Polled::Item(Queued::Discontinuity) => PacketEvent::Discontinuity,
        Polled::Item(Queued::Packet(_)) => PacketEvent::Packet,
    }
}

/// What a decoder does with what a look into its packet queue found, and
/// the packet that goes to the decoder: the packet that was found, whenever
/// the decoder is to be fed, and none otherwise.
pub open spec fn packet_step_spec<P>(polled: Polled<Queued<P>>, state: PlayerState) -> (
    DecodeStep,
    Option<P>,
) {
    match polled {
        Polled::Closed => (DecodeStep::Exit, None),
        Polled::Empty => (DecodeStep::Wait, None),
        Polled::Item(Queued::Discontinuity) => (DecodeStep::Discard, None),
        Polled::Item(Queued::Packet(packet)) => if state == PlayerState::Stopped {
            (DecodeStep::Exit, None)
        } else {
            (DecodeStep::Feed, Some(packet))
        },
    }
}

/// Decides what a decoder does with what a look into its packet queue found.
pub fn packet_step<P>(polled: Polled<Queued<P>>, state: PlayerState) -> (next: (
    DecodeStep,
    Option<P>,
))
    ensures
        next == packet_step_spec(polled, state),
        next.0 == decode_next_spec(state, packet_event(polled)),
{
    match polled {
        Polled::Closed => (decode_next(state, PacketEvent::Closed), None),
        Polled::Empty => (decode_next(state, PacketEvent::Empty), None),
        Polled::Item(Queued::Discontinuity) => (
            decode_next(state, PacketEvent::Discontinuity),
            None,
        ),
        Polled::Item(Queued::Packet(packet)) => {
            let step = decode_next(state, PacketEvent::Packet);
            match step {
                DecodeStep::Feed => (step, Some(packet)),
                _ => (step, None),
            }
        },
    }
}

/// Looks into a packet queue for a decoder and decides what the decoder
/// does next: whatever the look finds, the step and the packet handed on
/// are those of [`packet_step_spec`] for it.
pub fn next_packet<P>(receiver: &kanal::Receiver<Queued<P>>, state: PlayerState) -> (next: (
    DecodeStep,
    Option<P>,
))
    ensures
        exists|polled: Polled<Queued<P>>| next == packet_step_spec(polled, state),
{
    let polled = queue_try_recv(receiver);
    packet_step(polled, state)
}

/// The kind of what a look into a queue of playable frames found.
pub open spec fn frame_event<F>(polled: Polled<F>) -> FrameEvent {
    match polled {
        Polled::Closed => FrameEvent::Closed,
        Polled::Empty => FrameEvent::Empty,
        Polled::Item(_) => FrameEvent::Frame,
    }
}

/// The frame that goes to the display or the speaker: the frame that was
/// found, if one was.
pub open spec fn frame_found<F>(polled: Polled<F>) -> Option<F> {
    match polled {
        Polled::Item(frame) => Some(frame),
        _ => None,
    }
}

/// Whether a presenter that stood at `presenter` beside the shared state
/// `ctrl`, and found `polled` in its queue, took the step `next` and left
/// `presenter_after` and `ctrl_after`: the step, the count of empty polls
/// and the shared state are those of [`Presenter::poll`] for the kind of
/// what was found, and the frame found is handed on.
pub open spec fn frame_step_spec<F>(
    presenter: Presenter,
    ctrl: PlayCtrl,
    polled: Polled<F>,
    next: (PresentStep, Option<F>),
    presenter_after: Presenter,
    ctrl_after: PlayCtrl,
) -> bool {
    let event = frame_event(polled);
    &&& next.0 == present_step_spec(ctrl, event, presenter.empty_polls())
    &&& next.1 == frame_found(polled)
    &&& presenter_after.kind() == presenter.kind()
    &&& presenter_after.empty_polls() == empty_polls_after(ctrl, event, presenter.empty_polls())
    &&& ctrl_after == if poll_ends_stream(ctrl, event, presenter.empty_polls()) {
        finished_ctrl(ctrl, presenter.kind())
    } else {
        ctrl
    }
}

/// Decides what a presenter does with what a look into its queue found.
pub fn frame_step<F>(presenter: &mut Presenter, ctrl: &mut PlayCtrl, polled: Polled<F>) -> (next: (
    PresentStep,
    Option<F>,
))
    ensures
        frame_step_spec(*old(presenter), *old(ctrl), polled, next, *final(presenter), *final(ctrl)),
{
    match polled {
        Polled::Closed => (presenter.poll(ctrl, FrameEvent::Closed), None),
        Polled::Empty => (presenter.poll(ctrl, FrameEvent::Empty), None),
        Polled::Item(frame) => (presenter.poll(ctrl, FrameEvent::Frame), Some(frame)),
    }
}

/// Looks into a queue of playable frames for a presenter and decides what
/// the presenter does next: whatever the look finds, the step, the frame
/// handed on and the new states are those of [`frame_step_spec`] for it.
pub fn next_frame<F>(presenter: &mut Presenter, ctrl: &mut PlayCtrl, receiver: &kanal::Receiver<F>) -> (next:
    (PresentStep, Option<F>))
    ensures
        exists|polled: Polled<F>|
            frame_step_spec(
                *old(presenter),
                *old(ctrl),
                polled,
                next,
                *final(presenter),
                *final(ctrl),
            ),
{
    let polled = queue_try_recv(receiver);
    frame_step(presenter, ctrl, polled)
}

/// How the skipping of one frame went.
#[derive(PartialEq, Eq, Structural, Clone, Copy, Debug)]
pub enum SkipStep {
    /// A frame was taken out and thrown away.
    Skipped,
    /// Nothing was queued: look again.
    Again,
    /// The decoder is gone or the player has stopped: skip no more.
    Stop,
}

/// How the skipping of one frame goes for what a look into the queue found.
pub open spec fn skip_step_spec<F>(polled: Polled<F>, state: PlayerState) -> SkipStep {
    match polled {
        Polled::Item(_) => SkipStep::Skipped,
        Polled::Closed => SkipStep::Stop,
        Polled::Empty => if state == PlayerState::Stopped {
            SkipStep::Stop
        } else {
            SkipStep::Again
        },
    }
}

/// Decides how the skipping of one frame went, for what a look into the
/// queue found. The frame found is dropped.
pub fn skip_step<F>(polled: Polled<F>, state: PlayerState) -> (step: SkipStep)
    ensures
        step == skip_step_spec(polled, state),
{
    match polled {
        Polled::Item(_) => SkipStep::Skipped,
        Polled::Closed => SkipStep::Stop,
        Polled::Empty => {
            if state == PlayerState::Stopped {
                SkipStep::Stop
            } else {
                SkipStep::Again
            }
        },
    }
}

/// Looks into a queue of playable frames to throw one frame away, for a
/// step by frames: whatever the look finds, the outcome is that of
/// [`skip_step_spec`] for it.
pub fn skip_frame<F>(receiver: &kanal::Receiver<F>, state: PlayerState) -> (step: SkipStep)
    ensures
        exists|polled: Polled<F>| step == skip_step_spec(polled, state),
{
    let polled = queue_try_recv(receiver);
    skip_step(polled, state)
}

impl<P, S> VideoAudioRS<P, S> {
    /// The queues of a freshly opened file: for each stream that the file
    /// has, a packet queue and a queue of playable frames, each made with
    /// the limit that the pipeline gives it.
    pub fn new(media: &MediaInfo) -> (rs: Self)
        ensures
            made_with(rs.video_packets, media.video is Some, VIDEO_PACKET_QUEUE_SIZE),
            made_with(rs.video_frames, media.video is Some, VIDEO_FRAME_QUEUE_SIZE),
            made_with(rs.audio_packets, media.audio is Some, AUDIO_PACKET_QUEUE_SIZE),
            made_with(rs.audio_frames, media.audio is Some, AUDIO_FRAME_QUEUE_SIZE),
            rs.video_stream_time_base == match media.video {
                Some(v) => Some(v.time_base),
                None => None,
            },
            rs.audio_stream_time_base == match media.audio {
                Some(a) => Some(a.time_base),
                None => None,
            },
    {
        let mut rs = VideoAudioRS {
            video_packets: None,
            video_frames: None,
            video_stream_time_base: None,
            audio_packets: None,
            audio_frames: None,
            audio_stream_time_base: None,
        };
        if let Some(video) = media.video {
            rs.video_packets = Some(BoundedQueue::new(VIDEO_PACKET_QUEUE_SIZE));
            rs.video_frames = Some(BoundedQueue::new(VIDEO_FRAME_QUEUE_SIZE));
            rs.video_stream_time_base = Some(video.time_base);
        }
        if let Some(audio) = media.audio {
            rs.audio_packets = Some(BoundedQueue::new(AUDIO_PACKET_QUEUE_SIZE));
            rs.audio_frames = Some(BoundedQueue::new(AUDIO_FRAME_QUEUE_SIZE));
            rs.audio_stream_time_base = Some(audio.time_base);
        }
        rs
    }

    /// Whether there is no queue to take anything from.
    pub open spec fn has_no_queue(self) -> bool {
        &&& self.video_packets is None
        &&& self.video_frames is None
        &&& self.audio_packets is None
        &&& self.audio_frames is None
    }

    /// How many items all queues together can hold.
    pub open spec fn all_places(self) -> int {
        places(self.video_packets) + places(self.video_frames) + places(self.audio_packets)
            + places(self.audio_frames)
    }

    /// Whether `drained` is what emptying every queue comes to, when
    /// emptying the four queues by themselves comes to `parts`: the queue
    /// of video packets first, then that of video frames, of audio packets
    /// and of audio frames. Each part is what looks into its queue give,
    /// see [`drained_of`], and `drained` adds them up.
    pub open spec fn flushed(self, parts: (Drained, Drained, Drained, Drained), drained: Drained) -> bool {
        &&& drained_of(self.video_packets, parts.0)
        &&& drained_of(self.video_frames, parts.1)
        &&& drained_of(self.audio_packets, parts.2)
        &&& drained_of(self.audio_frames, parts.3)
        &&& drained == parts.0.plus(parts.1).plus(parts.2).plus(parts.3)
    }

    /// Empties every queue of what it held when asked, see [`drain_queue`]:
    /// after a seek, what waits in the queues belongs to the old position.
    /// Every queue that is there is looked into as many times as it held
    /// items at first, and every item found is dropped. Returns how many
    /// items were seen and how many were dropped, added up over the queues:
    /// never more seen than the queues can hold, never more dropped than
    /// seen, and nothing where there is no queue.
    pub fn seek_clean(&self) -> (drained: Drained)
        ensures
            exists|parts: (Drained, Drained, Drained, Drained)| self.flushed(parts, drained),
            drained.is_bounded(),
            drained.seen <= self.all_places(),
            self.has_no_queue() ==> drained == Drained::nothing(),
    {
        let video_packets = drain_optional(&self.video_packets);
        let video_frames = drain_optional(&self.video_frames);
        let audio_packets = drain_optional(&self.audio_packets);
        let audio_frames = drain_optional(&self.audio_frames);
        let drained = video_packets.merged(video_frames).merged(audio_packets).merged(audio_frames);
        assert(self.flushed((video_packets, video_frames, audio_packets, audio_frames), drained));
        drained
    }

    /// One round of the packet reader, see [`reader_poll`], with the packet
    /// queues asked whether they are full. A stream without a packet queue
    /// counts as not played.
    pub fn reader_poll(&self, ctrl: &mut PlayCtrl, audio_index: usize, video_index: usize) -> (step:
        ReaderStep)
        ensures
            exists|audio_full: bool, video_full: bool|
                step == reader_step_spec(
                    *old(ctrl),
                    self.streams(audio_index, video_index),
                    audio_full,
                    video_full,
                ),
            *final(ctrl) == reader_ctrl_spec(*old(ctrl), self.streams(audio_index, video_index)),
    {
        let audio_full = match &self.audio_packets {
            Some(queue) => queue.is_full(),
            None => false,
        };
        let video_full = match &self.video_packets {
            Some(queue) => queue.is_full(),
            None => false,
        };
        let streams = self.played_streams(audio_index, video_index);
        reader_poll(ctrl, &streams, audio_full, video_full)
    }

    /// Computes [`VideoAudioRS::streams`].
    pub fn played_streams(&self, audio_index: usize, video_index: usize) -> (streams: Streams)
        ensures
            streams == self.streams(audio_index, video_index),
    {
        Streams {
            audio_index: match &self.audio_packets {
                Some(_) => Some(audio_index),
                None => None,
            },
            video_index: match &self.video_packets {
                Some(_) => Some(video_index),
                None => None,
            },
        }
    }

    /// The streams that have a packet queue, with the indices given.
    pub open spec fn streams(self, audio_index: usize, video_index: usize) -> Streams {
        Streams {
            audio_index: if self.audio_packets is Some {
                Some(audio_index)
            } else {
                None
            },
            video_index: if self.video_packets is Some {
                Some(video_index)
            } else {
                None
            },
        }
    }
}

} // verus!
