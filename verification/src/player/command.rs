//! The commands of the user interface and the states of the player.

use vstd::prelude::*;

verus! {

/// Window-level requests of the user interface.
#[derive(PartialEq, Eq, Structural, Clone, Copy, Debug)]
pub enum CommandUi {
    NoCommand,
    FullscreenToggle,
    FullscreenTrue,
    FullscreenFalse,
    MaximizedToggle,
    MaximizedTrue,
    MaximizedFalse,
    MinimizedToggle,
    MinimizedTrue,
    MinimizedFalse,
    Close,
}

/// A pending trick-play request. The sign of a count or of a time gives
/// the direction.
#[derive(PartialEq, Eq, Structural, Clone, Copy, Debug)]
pub enum CommandGo {
    NoCommand,
    /// Step by this many packets.
    Packet(i32),
    /// Step by this many frames.
    Frame(i32),
    /// Skip by this many milliseconds.
    GoMs(i64),
    /// Seek to this position, in ticks of the container clock.
    Seek(i64),
}

/// What the player is doing. Every worker reads it on each round.
#[derive(PartialEq, Eq, Structural, Clone, Copy, Debug)]
pub enum PlayerState {
    /// No playback.
    Stopped,
    /// The streams have reached the end of the file.
    EndOfFile,
    /// A seek is under way (`true`) or has settled (`false`).
    Seeking(bool),
    /// Playback is paused.
    Paused,
    /// Playback is ongoing.
    Playing,
    /// Playback is scheduled to restart.
    Restarting,
}

} // verus!
