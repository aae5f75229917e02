//! The decisions of the packet reader: when to read, when to idle, where to
//! seek, and where each packet goes.

use vstd::prelude::*;
use crate::player::command::{CommandGo, PlayerState};
use crate::player::play_ctrl::PlayCtrl;
use crate::player::player_::{
    clamp_seek, clamp_seek_spec, go_ms_position, millisecond_position_spec,
};

verus! {

/// The streams of the file that are played, by their index in the container.
#[derive(Clone, Copy, Debug)]
pub struct Streams {
    pub audio_index: Option<usize>,
    pub video_index: Option<usize>,
}

/// Where a packet read from the container goes.
#[derive(PartialEq, Eq, Structural, Clone, Copy, Debug)]
pub enum PacketRoute {
    Audio,
    Video,
    Dropped,
}

/// Which way the container looks for the place to resume from.
#[derive(PartialEq, Eq, Structural, Clone, Copy, Debug)]
pub enum SeekDirection {
    /// At the target or after it.
    Forward,
    /// At the target or before it.
    Backward,
}

/// What the packet reader does next.
#[derive(PartialEq, Eq, Structural, Clone, Copy, Debug)]
pub enum ReaderStep {
    /// Leave the loop.
    Exit,
    /// Sleep one polling interval and poll again.
    Idle,
    /// Seek the container to `position`, empty every queue, send a
    /// discontinuity down each packet queue, then read and route `packets`
    /// packets.
    Seek { position: i64, direction: SeekDirection, packets: u32 },
    /// Read and route `packets` packets.
    Read { packets: u32 },
}

/// One thing that the packet reader does in carrying out a step.
#[derive(PartialEq, Eq, Structural, Clone, Copy, Debug)]
pub enum ReaderAction {
    /// Leave the loop.
    Leave,
    /// Sleep one polling interval.
    Sleep,
    /// Seek the container to `position`.
    SeekContainer { position: i64, direction: SeekDirection },
    /// Empty every queue of what it holds.
    EmptyQueues,
    /// Send a discontinuity down each packet queue.
    MarkDiscontinuity,
    /// Read `packets` packets and hand each to the queue of its stream.
    ReadPackets { packets: u32 },
}

/// What the reader does to carry out a step, in this order. After a seek
/// the container is moved first, then the queues are emptied, then the
/// discontinuity is marked, and only then are packets of the new position
/// read.
pub open spec fn reader_plan_spec(step: ReaderStep) -> Seq<ReaderAction> {
    match step {
        ReaderStep::Exit => seq![ReaderAction::Leave],
        ReaderStep::Idle => seq![ReaderAction::Sleep],
        ReaderStep::Seek { position, direction, packets } => seq![
            ReaderAction::SeekContainer { position, direction },
            ReaderAction::EmptyQueues,
            ReaderAction::MarkDiscontinuity,
            ReaderAction::ReadPackets { packets },
        ],
        ReaderStep::Read { packets } => seq![ReaderAction::ReadPackets { packets }],
    }
}

/// Lays out what the reader does to carry out a step.
pub fn reader_plan(step: ReaderStep) -> (plan: Vec<ReaderAction>)
    ensures
        plan@ == reader_plan_spec(step),
{
    let mut plan: Vec<ReaderAction> = Vec::new();
    match step {
        ReaderStep::Exit => {
            plan.push(ReaderAction::Leave);
        },
        ReaderStep::Idle => {
            plan.push(ReaderAction::Sleep);
        },
        ReaderStep::Seek { position, direction, packets } => {
            plan.push(ReaderAction::SeekContainer { position, direction });
            plan.push(ReaderAction::EmptyQueues);
            plan.push(ReaderAction::MarkDiscontinuity);
            plan.push(ReaderAction::ReadPackets { packets });
        },
        ReaderStep::Read { packets } => {
            plan.push(ReaderAction::ReadPackets { packets });
        },
    }
    assert(plan@ =~= reader_plan_spec(step));
    plan
}

/// In whatever the reader does, packets are read only after everything
/// else: a seek moves the container, empties the queues and marks the
/// discontinuity, in this order, before the first packet of the new
/// position is read, and nothing is emptied or marked without a seek.
pub proof fn lemma_packets_follow_the_mark(step: ReaderStep, i: int, j: int)
    requires
        0 <= i < reader_plan_spec(step).len(),
        0 <= j < reader_plan_spec(step).len(),
    ensures
        reader_plan_spec(step)[i] is SeekContainer && reader_plan_spec(step)[j] is EmptyQueues
            ==> i < j,
        reader_plan_spec(step)[i] is EmptyQueues && reader_plan_spec(step)[j] is MarkDiscontinuity
            ==> i < j,
        reader_plan_spec(step)[i] is MarkDiscontinuity && reader_plan_spec(step)[j] is ReadPackets
            ==> i < j,
        reader_plan_spec(step)[i] is EmptyQueues || reader_plan_spec(step)[i] is MarkDiscontinuity
            ==> step is Seek,
        step is Seek ==> reader_plan_spec(step)[1] is EmptyQueues && reader_plan_spec(step)[2]
            is MarkDiscontinuity,
{
}

impl Streams {
    pub open spec fn has_audio(self) -> bool {
        self.audio_index is Some
    }

    pub open spec fn has_video(self) -> bool {
        self.video_index is Some
    }

    /// Where a packet of stream `stream_index` goes; an empty packet goes
    /// nowhere, and so does one of a stream that is not played.
    pub open spec fn route_spec(self, stream_index: usize, is_empty: bool) -> PacketRoute {
        if is_empty {
            PacketRoute::Dropped
        } else if self.audio_index == Some(stream_index) {
            PacketRoute::Audio
        } else if self.video_index == Some(stream_index) {
            PacketRoute::Video
        } else {
            PacketRoute::Dropped
        }
    }

    pub fn route_packet(&self, stream_index: usize, is_empty: bool) -> (route: PacketRoute)
        ensures
            route == self.route_spec(stream_index, is_empty),
    {
        if is_empty {
            return PacketRoute::Dropped;
        }
        if let Some(audio_index) = self.audio_index {
            if audio_index == stream_index {
                return PacketRoute::Audio;
            }
        }
        if let Some(video_index) = self.video_index {
            if video_index == stream_index {
                return PacketRoute::Video;
            }
        }
        PacketRoute::Dropped
    }
}

/// Whether the pending command is one that the packet reader carries out.
pub open spec fn reader_owns(command: CommandGo) -> bool {
    command is Packet || command is GoMs || command is Seek
}

/// Whether every stream that is played has been presented to its end.
pub open spec fn all_presented(ctrl: PlayCtrl, streams: Streams) -> bool {
    (!streams.has_audio() || ctrl.audio_finished) && (!streams.has_video() || ctrl.video_finished)
}

/// How many packets to read after a seek: one more while paused, so that
/// the picture on display moves to the new position.
pub open spec fn packets_after_seek(state: PlayerState) -> u32 {
    if state == PlayerState::Paused {
        2
    } else {
        1
    }
}

/// How many packets a step by `n` packets reads.
pub open spec fn packets_of_step(n: i32) -> u32 {
    if n < 1 {
        1
    } else {
        n as u32
    }
}

/// The reader's next step, from the shared state, the streams played and
/// whether the packet queues are full.
pub open spec fn reader_step_spec(
    ctrl: PlayCtrl,
    streams: Streams,
    audio_full: bool,
    video_full: bool,
) -> ReaderStep {
    if ctrl.player_state == PlayerState::Stopped && !reader_owns(ctrl.command_go) {
        ReaderStep::Exit
    } else if all_presented(ctrl, streams) {
        ReaderStep::Exit
    } else {
        match ctrl.command_go {
            CommandGo::Packet(n) => ReaderStep::Read { packets: packets_of_step(n) },
            CommandGo::GoMs(ms) => ReaderStep::Seek {
                position: millisecond_position_spec(ctrl.elapsed_ms_spec() + ms),
                direction: if ms > 0 {
                    SeekDirection::Forward
                } else {
                    SeekDirection::Backward
                },
                packets: packets_after_seek(ctrl.player_state),
            },
            CommandGo::Seek(target) => ReaderStep::Seek {
                position: clamp_seek_spec(target, ctrl.duration),
                direction: SeekDirection::Backward,
                packets: packets_after_seek(ctrl.player_state),
            },
            _ => if ctrl.player_state == PlayerState::Paused || (streams.has_audio() && audio_full)
                || (streams.has_video() && video_full) {
                ReaderStep::Idle
            } else {
                ReaderStep::Read { packets: 1 }
            },
        }
    }
}

/// The shared state after the reader took its step: a command that the
/// reader owns is taken off, and the player stops once every stream played
/// has been presented to its end.
pub open spec fn reader_ctrl_spec(ctrl: PlayCtrl, streams: Streams) -> PlayCtrl {
    if ctrl.player_state == PlayerState::Stopped && !reader_owns(ctrl.command_go) {
        ctrl
    } else if all_presented(ctrl, streams) {
        PlayCtrl { player_state: PlayerState::Stopped, ..ctrl }
    } else if reader_owns(ctrl.command_go) {
        PlayCtrl { command_go: CommandGo::NoCommand, ..ctrl }
    } else {
        ctrl
    }
}

/// One round of the packet reader: decides what to do next. `audio_full`
/// and `video_full` say whether the packet queue of that stream is full.
pub fn reader_poll(ctrl: &mut PlayCtrl, streams: &Streams, audio_full: bool, video_full: bool) -> (step:
    ReaderStep)
    ensures
        step == reader_step_spec(*old(ctrl), *streams, audio_full, video_full),
        *final(ctrl) == reader_ctrl_spec(*old(ctrl), *streams),
{
    let owned = match ctrl.command_go {
        CommandGo::Packet(_) => true,
        CommandGo::GoMs(_) => true,
        CommandGo::Seek(_) => true,
        _ => false,
    };
    if ctrl.player_state == PlayerState::Stopped && !owned {
        return ReaderStep::Exit;
    }
    if (streams.audio_index.is_none() || ctrl.audio_finished) && (streams.video_index.is_none()
        || ctrl.video_finished) {
        ctrl.player_state = PlayerState::Stopped;
        return ReaderStep::Exit;
    }
    let packets: u32 = if ctrl.player_state == PlayerState::Paused {
        2
    } else {
        1
    };
    match ctrl.command_go {
        CommandGo::Packet(next_amount) => {
            ctrl.command_go = CommandGo::NoCommand;
            if next_amount < 1 {
                ReaderStep::Read { packets: 1 }
            } else {
                ReaderStep::Read { packets: next_amount as u32 }
            }
        },
        CommandGo::GoMs(ms) => {
            let position = go_ms_position(ctrl.elapsed_ms(), ms);
            ctrl.command_go = CommandGo::NoCommand;
            let direction = if ms > 0 {
                SeekDirection::Forward
            } else {
                SeekDirection::Backward
            };
            ReaderStep::Seek { position, direction, packets }
        },
        CommandGo::Seek(t) => {
            let position = clamp_seek(t, ctrl.duration);
            ctrl.command_go = CommandGo::NoCommand;
            ReaderStep::Seek { position, direction: SeekDirection::Backward, packets }
        },
        _ => {
            if ctrl.player_state == PlayerState::Paused || (streams.audio_index.is_some()
                && audio_full) || (streams.video_index.is_some() && video_full) {
                ReaderStep::Idle
            } else {
                ReaderStep::Read { packets: 1 }
            }
        },
    }
}

/// The container gave no further packet: the reader says so to the
/// presenters and idles.
pub fn reader_end_of_input(ctrl: &mut PlayCtrl) -> (step: ReaderStep)
    ensures
        *final(ctrl) == (PlayCtrl { packet_finished: true, ..*old(ctrl) }),
        step == ReaderStep::Idle,
{
    ctrl.set_packet_finished(true);
    ReaderStep::Idle
}

/// While no command is pending, the reader reads only when no packet queue
/// of a stream that is played is full: left to itself it never asks a full
/// queue to take one more.
pub proof fn lemma_reader_respects_full_queues(
    ctrl: PlayCtrl,
    streams: Streams,
    audio_full: bool,
    video_full: bool,
)
    requires
        !reader_owns(ctrl.command_go),
        reader_step_spec(ctrl, streams, audio_full, video_full) is Read,
    ensures
        streams.has_audio() ==> !audio_full,
        streams.has_video() ==> !video_full,
        ctrl.player_state != PlayerState::Paused,
        ctrl.player_state != PlayerState::Stopped,
{
}

/// A stopped player with no command for the reader makes the reader leave,
/// whatever else is going on.
pub proof fn lemma_reader_exits_when_stopped(
    ctrl: PlayCtrl,
    streams: Streams,
    audio_full: bool,
    video_full: bool,
)
    requires
        ctrl.player_state == PlayerState::Stopped,
        !reader_owns(ctrl.command_go),
    ensures
        reader_step_spec(ctrl, streams, audio_full, video_full) == ReaderStep::Exit,
        reader_ctrl_spec(ctrl, streams) == ctrl,
{
}

/// A seek always lands inside the file: between its start and its end.
pub proof fn lemma_seek_lands_in_file(
    ctrl: PlayCtrl,
    streams: Streams,
    audio_full: bool,
    video_full: bool,
)
    requires
        ctrl.command_go is Seek,
        ctrl.duration >= 0,
        reader_step_spec(ctrl, streams, audio_full, video_full) is Seek,
    ensures
        0 <= reader_step_spec(ctrl, streams, audio_full, video_full)->Seek_position
            <= ctrl.duration,
{
}

} // verus!
