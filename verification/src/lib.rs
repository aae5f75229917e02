//! Control core of a media player: clocks, audio/video synchronisation,
//! the player state machine and the decisions of the pipeline workers.
//!
//! The workers themselves (threads, channels, decoding, display) live
//! outside this crate; they report what happened and are told what to do.

pub mod player;
