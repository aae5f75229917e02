//! The way of one stream from the reader to the display or the speaker, as
//! far as the order of its packets goes, and what a seek does to it.

use vstd::prelude::*;
use crate::player::command::PlayerState;
use crate::player::decode::DecodeStep;
use crate::player::packet_reader::{reader_plan_spec, ReaderAction, ReaderStep};
use crate::player::queue::Polled;
use crate::player::video_audio_rs::{frame_found, packet_step_spec, Queued};

verus! {

/// One stream on its way: the packets queued for the decoder, the frames
/// that the decoder holds, the frames queued for the presenter, and the
/// frames presented so far, each oldest first. A frame stands here for the
/// packet that it was decoded from.
pub struct StreamPath<P> {
    pub packets: Seq<Queued<P>>,
    pub decoder: Seq<P>,
    pub frames: Seq<P>,
    pub shown: Seq<P>,
}

/// Something that happens to a stream on its way.
pub enum PathEvent<P> {
    /// The reader carries out a step; `read` are the packets of this
    /// stream among those that it reads, if the step has it read.
    Reader { step: ReaderStep, read: Seq<P> },
    /// The decoder looks into its packet queue and takes its step, and then
    /// hands up to `emitted` of the frames that it holds on to the presenter.
    Decode { state: PlayerState, emitted: nat },
    /// The presenter looks into its queue and presents what it finds.
    Present,
}

/// What a look into a queue finds: its oldest item, or that it is empty.
pub open spec fn look<T>(queue: Seq<T>) -> Polled<T> {
    if queue.len() == 0 {
        Polled::Empty
    } else {
        Polled::Item(queue[0])
    }
}

/// The queue after a look: without the item that the look took out.
pub open spec fn after_look<T>(queue: Seq<T>) -> Seq<T> {
    if queue.len() == 0 {
        queue
    } else {
        queue.drop_first()
    }
}

/// The packets as they are queued.
pub open spec fn queued<P>(read: Seq<P>) -> Seq<Queued<P>> {
    Seq::new(read.len(), |i: int| Queued::Packet(read[i]))
}

impl<P> StreamPath<P> {
    /// The stream after the reader did one thing.
    pub open spec fn after_action(self, action: ReaderAction, read: Seq<P>) -> Self {
        match action {
            ReaderAction::EmptyQueues => StreamPath {
                packets: Seq::empty(),
                frames: Seq::empty(),
                ..self
            },
            ReaderAction::MarkDiscontinuity => StreamPath {
                packets: self.packets.push(Queued::Discontinuity),
                ..self
            },
            ReaderAction::ReadPackets { .. } => StreamPath {
                packets: self.packets + queued(read),
                ..self
            },
            _ => self,
        }
    }

    /// The stream after the reader did all of `plan`, in its order.
    pub open spec fn after_plan(self, plan: Seq<ReaderAction>, read: Seq<P>) -> Self
        decreases plan.len(),
    {
        if plan.len() == 0 {
            self
        } else {
            self.after_plan(plan.drop_last(), read).after_action(plan.last(), read)
        }
    }

    /// The stream after the decoder looked into its packet queue and took
    /// the step that [`packet_step_spec`] gives for what it found, and then
    /// handed on up to `emitted` of the frames that it holds.
    pub open spec fn after_decode(self, state: PlayerState, emitted: nat) -> Self {
        let next = packet_step_spec(look(self.packets), state);
        let held = match next.0 {
            DecodeStep::Feed => match next.1 {
                Some(packet) => self.decoder.push(packet),
                None => self.decoder,
            },
            DecodeStep::Discard => Seq::empty(),
            _ => self.decoder,
        };
        let out = if emitted <= held.len() {
            emitted as int
        } else {
            held.len() as int
        };
        StreamPath {
            packets: after_look(self.packets),
            decoder: held.skip(out),
            frames: self.frames + held.take(out),
            shown: self.shown,
        }
    }

    /// The stream after the presenter looked into its queue and presented
    /// the frame that it found, if it found one.
    pub open spec fn after_present(self) -> Self {
        match frame_found(look(self.frames)) {
            Some(frame) => StreamPath {
                frames: after_look(self.frames),
                shown: self.shown.push(frame),
                ..self
            },
            None => self,
        }
    }

    pub open spec fn after_event(self, event: PathEvent<P>) -> Self {
        match event {
            PathEvent::Reader { step, read } => self.after_plan(reader_plan_spec(step), read),
            PathEvent::Decode { state, emitted } => self.after_decode(state, emitted),
            PathEvent::Present => self.after_present(),
        }
    }

    /// The stream after all of `events`, in their order.
    pub open spec fn after_events(self, events: Seq<PathEvent<P>>) -> Self
        decreases events.len(),
    {
        if events.len() == 0 {
            self
        } else {
            self.after_events(events.drop_last()).after_event(events.last())
        }
    }

    /// Whether nothing stale can reach the presenter any more: every frame
    /// presented from the place `since` on is fresh, every frame and every
    /// packet that is queued is fresh, and what the decoder holds is fresh
    /// or is thrown away at its next look, because a discontinuity is the
    /// first thing in its queue.
    pub open spec fn is_clean(self, fresh: spec_fn(P) -> bool, since: int) -> bool {
        &&& 0 <= since <= self.shown.len()
        &&& forall|i: int| since <= i < self.shown.len() ==> fresh(#[trigger] self.shown[i])
        &&& forall|i: int| 0 <= i < self.frames.len() ==> fresh(#[trigger] self.frames[i])
        &&& forall|i: int|
            0 <= i < self.packets.len() && (#[trigger] self.packets[i]) is Packet ==> fresh(
                self.packets[i]->Packet_0,
            )
        &&& (forall|i: int| 0 <= i < self.decoder.len() ==> fresh(#[trigger] self.decoder[i]))
            || (self.packets.len() > 0 && self.packets[0] is Discontinuity)
    }
}

/// Whether every packet that the reader reads in these events is fresh.
pub open spec fn reads_fresh<P>(events: Seq<PathEvent<P>>, fresh: spec_fn(P) -> bool) -> bool {
    forall|k: int, i: int|
        0 <= k < events.len() && (#[trigger] events[k]) is Reader && 0 <= i
            < events[k]->read.len() ==> fresh(#[trigger] events[k]->read[i])
}

/// What the reader's steps do to a stream: nothing when it leaves or
/// idles, new packets behind the old when it reads, and after a seek only
/// the mark and the new packets in the packet queue and nothing in the
/// queue of frames.
pub proof fn lemma_after_reader_step<P>(path: StreamPath<P>, step: ReaderStep, read: Seq<P>)
    ensures
        path.after_plan(reader_plan_spec(step), read) == match step {
            ReaderStep::Exit => path,
            ReaderStep::Idle => path,
            ReaderStep::Read { .. } => StreamPath { packets: path.packets + queued(read), ..path },
            ReaderStep::Seek { .. } => StreamPath {
                packets: seq![Queued::Discontinuity] + queued(read),
                frames: Seq::empty(),
                ..path
            },
        },
{
    let plan = reader_plan_spec(step);
    match step {
        ReaderStep::Seek { position, direction, packets } => {
            let p3 = plan.drop_last();
            let p2 = p3.drop_last();
            let p1 = p2.drop_last();
            assert(p1.drop_last().len() == 0);
            assert(p1.last() == plan[0] && p2.last() == plan[1] && p3.last() == plan[2]);
            let s0 = path.after_plan(p1.drop_last(), read);
            assert(s0 == path);
            let s1 = path.after_plan(p1, read);
            assert(s1 == path);
            let s2 = path.after_plan(p2, read);
            assert(s2.packets =~= Seq::<Queued<P>>::empty());
            let s3 = path.after_plan(p3, read);
            assert(s3.packets =~= seq![Queued::Discontinuity]);
            let s4 = path.after_plan(plan, read);
            assert(s4.packets =~= seq![Queued::Discontinuity] + queued(read));
        },
        _ => {
            assert(plan.drop_last().len() == 0);
            assert(path.after_plan(plan.drop_last(), read) == path);
        },
    }
}

/// One event leaves a clean stream clean, as long as what the reader reads
/// is fresh.
pub proof fn lemma_event_keeps_clean<P>(
    path: StreamPath<P>,
    fresh: spec_fn(P) -> bool,
    since: int,
    event: PathEvent<P>,
)
    requires
        path.is_clean(fresh, since),
        event is Reader ==> forall|i: int|
            0 <= i < event->read.len() ==> fresh(#[trigger] event->read[i]),
    ensures
        path.after_event(event).is_clean(fresh, since),
        path.shown.is_prefix_of(path.after_event(event).shown),
{
    let after = path.after_event(event);
    match event {
        PathEvent::Reader { step, read } => {
            lemma_after_reader_step(path, step, read);
            assert(path.shown =~= after.shown.subrange(0, path.shown.len() as int));
        },
        PathEvent::Decode { state, emitted } => {
            assert(path.shown =~= after.shown.subrange(0, path.shown.len() as int));
            if path.packets.len() > 0 {
                assert forall|i: int|
                    0 <= i < after.packets.len() && (#[trigger] after.packets[i])
                        is Packet implies fresh(after.packets[i]->Packet_0) by {
                    assert(after.packets[i] == path.packets[i + 1]);
                }
                assert(path.packets[0] is Packet ==> fresh(path.packets[0]->Packet_0));
            }
        },
        PathEvent::Present => {
            if path.frames.len() > 0 {
                assert(fresh(path.frames[0]));
                assert forall|i: int| 0 <= i < after.frames.len() implies fresh(
                    #[trigger] after.frames[i],
                ) by {
                    assert(after.frames[i] == path.frames[i + 1]);
                }
            }
            assert(path.shown =~= after.shown.subrange(0, path.shown.len() as int));
        },
    }
}

/// Whatever happens, a clean stream stays clean, as long as what the
/// reader reads is fresh.
pub proof fn lemma_events_keep_clean<P>(
    path: StreamPath<P>,
    fresh: spec_fn(P) -> bool,
    since: int,
    events: Seq<PathEvent<P>>,
)
    requires
        path.is_clean(fresh, since),
        reads_fresh(events, fresh),
    ensures
        path.after_events(events).is_clean(fresh, since),
        path.shown.is_prefix_of(path.after_events(events).shown),
    decreases events.len(),
{
    if events.len() == 0 {
        assert(path.shown =~= path.shown.subrange(0, path.shown.len() as int));
    } else {
        let earlier = events.drop_last();
        assert forall|k: int, i: int|
            0 <= k < earlier.len() && (#[trigger] earlier[k]) is Reader && 0 <= i
                < earlier[k]->read.len() implies fresh(#[trigger] earlier[k]->read[i]) by {
            assert(earlier[k] == events[k]);
        }
        lemma_events_keep_clean(path, fresh, since, earlier);
        let mid = path.after_events(earlier);
        let last = events.last();
        assert(last == events[events.len() - 1]);
        lemma_event_keeps_clean(mid, fresh, since, last);
        let end = mid.after_event(last);
        assert(path.shown =~= end.shown.subrange(0, path.shown.len() as int)) by {
            assert(path.shown =~= mid.shown.subrange(0, path.shown.len() as int));
            assert(mid.shown =~= end.shown.subrange(0, mid.shown.len() as int));
        }
    }
}

/// Nothing from before a seek is presented after it. However a stream
/// stood when the reader carried out a seek, and whatever the reader, the
/// decoder and the presenter do afterwards, in whatever order: as long as
/// the reader reads only packets of the new position from the seek on, and
/// the decoder looks into its queue before it hands frames on, every frame
/// presented after the seek is of the new position. What was presented
/// before stays as it was.
pub proof fn lemma_nothing_stale_is_shown<P>(
    before: StreamPath<P>,
    fresh: spec_fn(P) -> bool,
    seek: ReaderStep,
    read: Seq<P>,
    events: Seq<PathEvent<P>>,
)
    requires
        seek is Seek,
        forall|i: int| 0 <= i < read.len() ==> fresh(#[trigger] read[i]),
        reads_fresh(events, fresh),
    ensures
        ({
            let end = before.after_plan(reader_plan_spec(seek), read).after_events(events);
            &&& before.shown.is_prefix_of(end.shown)
            &&& forall|i: int| before.shown.len() <= i < end.shown.len() ==> fresh(end.shown[i])
        }),
{
    lemma_after_reader_step(before, seek, read);
    let start = before.after_plan(reader_plan_spec(seek), read);
    assert(start.is_clean(fresh, before.shown.len() as int));
    lemma_events_keep_clean(start, fresh, before.shown.len() as int, events);
}

} // verus!
