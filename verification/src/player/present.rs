//! The decisions of the two presenters: when a stream has come to its end.

use vstd::prelude::*;
use crate::player::command::{CommandGo, PlayerState};
use crate::player::consts::MAX_EMPTY_POLLS;
use crate::player::decode::Pace;
use crate::player::play_ctrl::PlayCtrl;

verus! {

/// The two kinds of stream that are presented.
#[derive(PartialEq, Eq, Structural, Clone, Copy, Debug)]
pub enum StreamKind {
    Audio,
    Video,
}

/// What a presenter found at its end of the queue of playable frames.
#[derive(PartialEq, Eq, Structural, Clone, Copy, Debug)]
pub enum FrameEvent {
    /// The decoder is gone.
    Closed,
    /// Nothing is queued.
    Empty,
    /// A frame.
    Frame,
}

/// What a presenter does with what it found.
#[derive(PartialEq, Eq, Structural, Clone, Copy, Debug)]
pub enum PresentStep {
    /// Leave the loop.
    Exit,
    /// Sleep one polling interval and poll again.
    Idle,
    /// Present the frame, then poll again at once.
    Present,
}

/// The bookkeeping of one presenter: how many polls in a row found the
/// queue empty after the reader had reached the end of the file.
pub struct Presenter {
    kind: StreamKind,
    empty_count: u32,
}

/// The shared state after the presenter of `kind` reached the end of its
/// stream: the stream is marked finished, and the end of the video is the
/// end of the file for a player that has not stopped.
pub open spec fn finished_ctrl(ctrl: PlayCtrl, kind: StreamKind) -> PlayCtrl {
    match kind {
        StreamKind::Audio => PlayCtrl { audio_finished: true, ..ctrl },
        StreamKind::Video => PlayCtrl {
            video_finished: true,
            player_state: if ctrl.player_state == PlayerState::Stopped {
                PlayerState::Stopped
            } else {
                PlayerState::EndOfFile
            },
            ..ctrl
        },
    }
}

/// Whether this poll counts as empty: a closed queue ends the stream at
/// once, an empty one counts only after the reader reached the end.
pub open spec fn poll_is_empty(ctrl: PlayCtrl, event: FrameEvent) -> bool {
    event == FrameEvent::Empty && ctrl.packet_finished
}

/// Whether this poll ends the stream, after `empty_polls` empty polls in a row.
pub open spec fn poll_ends_stream(ctrl: PlayCtrl, event: FrameEvent, empty_polls: nat) -> bool {
    event == FrameEvent::Closed || (poll_is_empty(ctrl, event) && empty_polls + 1
        == MAX_EMPTY_POLLS)
}

pub open spec fn present_step_spec(ctrl: PlayCtrl, event: FrameEvent, empty_polls: nat) -> PresentStep {
    if event == FrameEvent::Frame {
        PresentStep::Present
    } else if poll_ends_stream(ctrl, event, empty_polls) {
        PresentStep::Exit
    } else {
        PresentStep::Idle
    }
}

/// The count of empty polls in a row after this poll.
pub open spec fn empty_polls_after(ctrl: PlayCtrl, event: FrameEvent, empty_polls: nat) -> nat {
    if event == FrameEvent::Frame || poll_ends_stream(ctrl, event, empty_polls) {
        0
    } else if poll_is_empty(ctrl, event) {
        empty_polls + 1
    } else {
        empty_polls
    }
}

/// The frames to throw away before the next one is shown, for a pending
/// step by frames.
pub open spec fn frames_to_skip(command: CommandGo) -> u32 {
    match command {
        CommandGo::Frame(n) => if n > 1 {
            (n - 1) as u32
        } else {
            0
        },
        _ => 0,
    }
}

impl Presenter {
    #[verifier::type_invariant]
    spec fn inv(self) -> bool {
        self.empty_count < MAX_EMPTY_POLLS
    }

    /// The stream presented.
    pub closed spec fn kind(self) -> StreamKind {
        self.kind
    }

    /// Empty polls in a row so far.
    pub closed spec fn empty_polls(self) -> nat {
        self.empty_count as nat
    }

    pub fn new(kind: StreamKind) -> (p: Presenter)
        ensures
            p.kind() == kind,
            p.empty_polls() == 0,
    {
        Presenter { kind, empty_count: 0 }
    }

    /// The number of empty polls in a row so far; always below the number
    /// that ends the stream.
    pub fn empty_count(&self) -> (n: u32)
        ensures
            n == self.empty_polls(),
            n < MAX_EMPTY_POLLS,
    {
        proof {
            use_type_invariant(self);
        }
        self.empty_count
    }

    /// Whether the presenter goes on with its round. Both leave when the
    /// player has stopped; the video presenter idles while it is paused.
    pub fn pace(&self, state: PlayerState) -> (pace: Pace)
        ensures
            pace == match state {
                PlayerState::Stopped => Pace::Exit,
                PlayerState::Paused => if self.kind() == StreamKind::Video {
                    Pace::Idle
                } else {
                    Pace::Run
                },
                _ => Pace::Run,
            },
    {
        match state {
            PlayerState::Stopped => Pace::Exit,
            PlayerState::Paused => match self.kind {
                StreamKind::Video => Pace::Idle,
                StreamKind::Audio => Pace::Run,
            },
            _ => Pace::Run,
        }
    }

    /// Takes a pending step by frames off the shared state. Returns how
    /// many frames the video presenter throws away before it shows the next.
    pub fn take_frame_step(&self, ctrl: &mut PlayCtrl) -> (skip: u32)
        ensures
            skip == frames_to_skip(old(ctrl).command_go),
            *final(ctrl) == if old(ctrl).command_go is Frame {
                PlayCtrl { command_go: CommandGo::NoCommand, ..*old(ctrl) }
            } else {
                *old(ctrl)
            },
    {
        match ctrl.command_go {
            CommandGo::Frame(t) => {
                ctrl.command_go = CommandGo::NoCommand;
                if t > 1 {
                    (t - 1) as u32
                } else {
                    0
                }
            },
            _ => 0,
        }
    }

    /// One poll of the queue of playable frames. A frame is presented and
    /// clears the count of empty polls. A closed queue ends the stream. An
    /// empty queue counts once the reader has reached the end of the file,
    /// and the tenth such poll in a row ends the stream. At its end the
    /// stream is marked finished, see [`finished_ctrl`].
    pub fn poll(&mut self, ctrl: &mut PlayCtrl, event: FrameEvent) -> (step: PresentStep)
        ensures
            step == present_step_spec(*old(ctrl), event, old(self).empty_polls()),
            final(self).kind() == old(self).kind(),
            final(self).empty_polls() == empty_polls_after(
                *old(ctrl),
                event,
                old(self).empty_polls(),
            ),
            *final(ctrl) == if poll_ends_stream(*old(ctrl), event, old(self).empty_polls()) {
                finished_ctrl(*old(ctrl), old(self).kind())
            } else {
                *old(ctrl)
            },
    {
        proof {
            use_type_invariant(&*self);
        }
        let mut count: u32 = self.empty_count;
        let step = match event {
            FrameEvent::Frame => {
                count = 0;
                PresentStep::Present
            },
            FrameEvent::Closed => {
                count = 0;
                Self::finish(self.kind, ctrl);
                PresentStep::Exit
            },
            FrameEvent::Empty => {
                if ctrl.packet_finished {
                    if count + 1 == MAX_EMPTY_POLLS {
                        count = 0;
                        Self::finish(self.kind, ctrl);
                        PresentStep::Exit
                    } else {
                        count = count + 1;
                        PresentStep::Idle
                    }
                } else {
                    PresentStep::Idle
                }
            },
        };
        self.empty_count = count;
        step
    }

    fn finish(kind: StreamKind, ctrl: &mut PlayCtrl)
        ensures
            *final(ctrl) == finished_ctrl(*old(ctrl), kind),
    {
        match kind {
            StreamKind::Audio => {
                ctrl.audio_finished = true;
            },
            StreamKind::Video => {
                ctrl.video_finished = true;
                if ctrl.player_state != PlayerState::Stopped {
                    ctrl.player_state = PlayerState::EndOfFile;
                }
            },
        }
    }
}

/// A frame always clears the count: only polls in a row that find nothing
/// can end a stream.
pub proof fn lemma_frame_resets_empty_polls(ctrl: PlayCtrl, empty_polls: nat)
    ensures
        empty_polls_after(ctrl, FrameEvent::Frame, empty_polls) == 0,
        present_step_spec(ctrl, FrameEvent::Frame, empty_polls) == PresentStep::Present,
{
}

/// While the reader has not reached the end of the file, an empty queue
/// never ends a stream, however often it is found empty.
pub proof fn lemma_empty_queue_waits_for_reader(ctrl: PlayCtrl, empty_polls: nat)
    requires
        !ctrl.packet_finished,
    ensures
        present_step_spec(ctrl, FrameEvent::Empty, empty_polls) == PresentStep::Idle,
        empty_polls_after(ctrl, FrameEvent::Empty, empty_polls) == empty_polls,
{
}

} // verus!
