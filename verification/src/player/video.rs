//! Playable video frames.

use vstd::prelude::*;

verus! {

/// A decoded picture ready for the display, with the stamps of its frame.
#[derive(Clone, Debug)]
pub struct VideoPlayFrame {
    pub width: usize,
    pub height: usize,
    /// Presentation timestamp, in ticks of the video stream.
    pub pts: i64,
    /// Duration, in ticks of the video stream.
    pub duration: i64,
    /// Timestamp in ticks of the container clock.
    pub timestamp: i64,
    /// The picture, three bytes (red, green, blue) per pixel, row after row.
    pub pixels: Vec<u8>,
}

} // verus!
