//! The decisions of the two decoders, and the packing of what they decode.

use vstd::prelude::*;
use vstd::arithmetic::mul::{lemma_mul_inequality, lemma_mul_is_commutative};
use crate::player::audio::AudioPlayFrame;
use crate::player::command::PlayerState;
use crate::player::video::VideoPlayFrame;

verus! {

/// Whether a worker goes on with its round.
#[derive(PartialEq, Eq, Structural, Clone, Copy, Debug)]
pub enum Pace {
    /// Leave the loop.
    Exit,
    /// Sleep one polling interval and look again.
    Idle,
    /// Go on.
    Run,
}

/// What a decoder found at its end of the packet queue.
#[derive(PartialEq, Eq, Structural, Clone, Copy, Debug)]
pub enum PacketEvent {
    /// The reader is gone.
    Closed,
    /// Nothing is queued.
    Empty,
    /// The mark that the reader sends after a seek.
    Discontinuity,
    /// A packet.
    Packet,
}

/// What a decoder does with what it found.
#[derive(PartialEq, Eq, Structural, Clone, Copy, Debug)]
pub enum DecodeStep {
    /// Leave the loop.
    Exit,
    /// Sleep the short decoder pause and start the round again.
    Wait,
    /// Take every frame that the decoder still holds out of it and throw it
    /// away, then sleep the short decoder pause.
    Discard,
    /// Hand the packet to the decoder.
    Feed,
}

/// How a decoder call failed.
#[derive(PartialEq, Eq, Structural, Clone, Copy, Debug)]
pub enum DecodeError {
    /// The decoder wants more input before it gives another frame.
    Again,
    /// The stream has ended.
    Eof,
    /// Anything else, with the decoder's code.
    Other(i32),
}

/// How many threads a decoder gets, and whether they split a frame in slices.
#[derive(PartialEq, Eq, Structural, Clone, Copy, Debug)]
pub struct DecoderThreads {
    pub count: usize,
    pub sliced: bool,
}

/// Where the subtitles burnt into the picture come from.
#[derive(PartialEq, Eq, Structural, Clone, Copy, Debug)]
pub enum SubtitleSource {
    /// A subtitle stream of the file itself.
    Embedded,
    /// The first subtitle file found beside the file.
    Sidecar,
    /// There are none.
    Absent,
}

/// The timestamp that stands for "no timestamp".
pub const AV_NOPTS_VALUE: i64 = i64::MIN;

/// Files of this many bytes or more are decoded with two threads.
pub const LARGE_FILE_BYTES: u64 = 0xC000_0000;

pub open spec fn worker_pace_spec(state: PlayerState) -> Pace {
    match state {
        PlayerState::Stopped => Pace::Exit,
        PlayerState::Paused => Pace::Idle,
        _ => Pace::Run,
    }
}

/// How the decoders and the video presenter start a round: they leave
/// when the player has stopped and idle while it is paused.
pub fn worker_pace(state: PlayerState) -> (pace: Pace)
    ensures
        pace == worker_pace_spec(state),
{
    match state {
        PlayerState::Stopped => Pace::Exit,
        PlayerState::Paused => Pace::Idle,
        _ => Pace::Run,
    }
}

pub open spec fn decode_next_spec(state: PlayerState, event: PacketEvent) -> DecodeStep {
    match event {
        PacketEvent::Closed => DecodeStep::Exit,
        PacketEvent::Empty => DecodeStep::Wait,
        PacketEvent::Discontinuity => DecodeStep::Discard,
        PacketEvent::Packet => if state == PlayerState::Stopped {
            DecodeStep::Exit
        } else {
            DecodeStep::Feed
        },
    }
}

/// What a decoder does after looking into its packet queue.
pub fn decode_next(state: PlayerState, event: PacketEvent) -> (step: DecodeStep)
    ensures
        step == decode_next_spec(state, event),
{
    match event {
        PacketEvent::Closed => DecodeStep::Exit,
        PacketEvent::Empty => DecodeStep::Wait,
        PacketEvent::Discontinuity => DecodeStep::Discard,
        PacketEvent::Packet => {
            if state == PlayerState::Stopped {
                DecodeStep::Exit
            } else {
                DecodeStep::Feed
            }
        },
    }
}

pub open spec fn after_send_spec(delivered: bool) -> Pace {
    if delivered {
        Pace::Run
    } else {
        Pace::Exit
    }
}

/// How a decoder goes on after it handed a frame to its presenter: it
/// leaves when the frame could not be handed over, for then the presenter
/// is gone.
pub fn after_send(delivered: bool) -> (pace: Pace)
    ensures
        pace == after_send_spec(delivered),
{
    if delivered {
        Pace::Run
    } else {
        Pace::Exit
    }
}

/// A discontinuity never feeds the decoder and never lets a frame through:
/// all that the decoder still held from before the seek is thrown away.
pub proof fn lemma_discontinuity_discards(state: PlayerState)
    ensures
        decode_next_spec(state, PacketEvent::Discontinuity) is Discard,
{
}

/// A stopped player never has a decoder take another packet.
pub proof fn lemma_stopped_decoder_takes_nothing(event: PacketEvent)
    ensures
        !(decode_next_spec(PlayerState::Stopped, event) is Feed),
        worker_pace_spec(PlayerState::Stopped) == Pace::Exit,
{
}

pub fn is_ffmpeg_eof_error(error: &DecodeError) -> (eof: bool)
    ensures
        eof == (*error == DecodeError::Eof),
{
    match error {
        DecodeError::Eof => true,
        _ => false,
    }
}

/// Whether the decoder, having failed this way, may give frames again once
/// it is fed: the end of the stream and real failures are not of this kind.
pub fn is_transient_error(error: &DecodeError) -> (transient: bool)
    ensures
        transient == (*error == DecodeError::Again),
{
    match error {
        DecodeError::Again => true,
        _ => false,
    }
}

pub open spec fn decoder_threads_spec(file_len: Option<u64>) -> DecoderThreads {
    match file_len {
        Some(len) => if len >= LARGE_FILE_BYTES {
            DecoderThreads { count: 2, sliced: true }
        } else {
            DecoderThreads { count: 1, sliced: false }
        },
        None => DecoderThreads { count: 1, sliced: false },
    }
}

/// The threads of a decoder for a file of `file_len` bytes; a file whose
/// size is not known counts as small.
pub fn decoder_threads(file_len: Option<u64>) -> (threads: DecoderThreads)
    ensures
        threads == decoder_threads_spec(file_len),
{
    match file_len {
        Some(len) => {
            if len >= LARGE_FILE_BYTES {
                DecoderThreads { count: 2, sliced: true }
            } else {
                DecoderThreads { count: 1, sliced: false }
            }
        },
        None => DecoderThreads { count: 1, sliced: false },
    }
}

/// Picks the source of the subtitles: the file's own stream before any
/// file beside it.
pub fn subtitle_source(has_subtitle_stream: bool, sidecar_files: usize) -> (source: SubtitleSource)
    ensures
        source == if has_subtitle_stream {
            SubtitleSource::Embedded
        } else if sidecar_files > 0 {
            SubtitleSource::Sidecar
        } else {
            SubtitleSource::Absent
        },
{
    if has_subtitle_stream {
        SubtitleSource::Embedded
    } else if sidecar_files > 0 {
        SubtitleSource::Sidecar
    } else {
        SubtitleSource::Absent
    }
}

/// How often the subtitle filter may fail on one frame before the frame is
/// given up.
pub const MAX_FILTER_FAILURES: u32 = 3;

/// After the subtitle filter failed on a frame for the `failures`-th time:
/// whether to try the frame again.
pub fn filter_retry(failures: u32) -> (again: bool)
    ensures
        again == (failures <= MAX_FILTER_FAILURES),
{
    failures <= MAX_FILTER_FAILURES
}

pub open spec fn audio_frame_pts_spec(pts: Option<i64>) -> i64 {
    match pts {
        Some(t) => t,
        None => 0,
    }
}

pub open spec fn video_frame_pts_spec(pts: Option<i64>, timestamp: Option<i64>, pkt_dts: i64) -> i64 {
    match pts {
        Some(t) => t,
        None => match timestamp {
            Some(t) => t,
            None => if pkt_dts == AV_NOPTS_VALUE {
                0
            } else {
                pkt_dts
            },
        },
    }
}

/// The presentation timestamp of a decoded video frame: its own, or else
/// its best-effort timestamp, or else the decode timestamp of its packet,
/// or else zero.
pub fn video_frame_pts(pts: Option<i64>, timestamp: Option<i64>, pkt_dts: i64) -> (t: i64)
    ensures
        t == video_frame_pts_spec(pts, timestamp, pkt_dts),
{
    match pts {
        Some(t) => t,
        None => match timestamp {
            Some(t) => t,
            None => {
                if pkt_dts == AV_NOPTS_VALUE {
                    0
                } else {
                    pkt_dts
                }
            },
        },
    }
}

/// Packs resampled samples and the stamps of their frame for the presenter.
/// A missing presentation timestamp or timestamp counts as zero.
pub fn audio_play_frame<S>(
    samples: Vec<S>,
    channels: u16,
    sample_rate: u32,
    pts: Option<i64>,
    duration: i64,
    timestamp: Option<i64>,
) -> (frame: AudioPlayFrame<S>)
    ensures
        frame == (AudioPlayFrame {
            samples,
            channels,
            sample_rate,
            pts: audio_frame_pts_spec(pts),
            duration,
            timestamp: audio_frame_pts_spec(timestamp),
        }),
{
    AudioPlayFrame {
        samples,
        channels,
        sample_rate,
        pts: match pts {
            Some(t) => t,
            None => 0,
        },
        duration,
        timestamp: match timestamp {
            Some(t) => t,
            None => 0,
        },
    }
}

/// Packs a converted picture and the stamps of its frame for the presenter.
pub fn video_play_frame(
    width: usize,
    height: usize,
    pts: Option<i64>,
    timestamp: Option<i64>,
    pkt_dts: i64,
    duration: i64,
    pixels: Vec<u8>,
) -> (frame: VideoPlayFrame)
    ensures
        frame == (VideoPlayFrame {
            width,
            height,
            pts: video_frame_pts_spec(pts, timestamp, pkt_dts),
            duration,
            timestamp: audio_frame_pts_spec(timestamp),
            pixels,
        }),
{
    VideoPlayFrame {
        width,
        height,
        pts: video_frame_pts(pts, timestamp, pkt_dts),
        duration,
        timestamp: match timestamp {
            Some(t) => t,
            None => 0,
        },
        pixels,
    }
}

/// Bytes per pixel of a picture in red, green and blue.
pub const RGB_BYTES: usize = 3;

/// Whether `len` bytes, in rows `stride` bytes apart, hold a picture of
/// `width` by `height` pixels.
pub open spec fn frame_fits(len: nat, stride: nat, width: nat, height: nat) -> bool {
    RGB_BYTES * width <= stride && (height > 0 ==> (height - 1) * stride + RGB_BYTES * width <= len)
}

/// The picture in `data` without the padding at the end of its rows.
pub open spec fn packed_rows(data: Seq<u8>, stride: nat, width: nat, height: nat) -> Seq<u8> {
    Seq::new(
        RGB_BYTES as nat * width * height,
        |k: int| data[(k / (RGB_BYTES * width)) * stride + k % (RGB_BYTES * width)],
    )
}

/// Tests [`frame_fits`].
pub fn frame_fits_in(len: usize, stride: usize, width: usize, height: usize) -> (fits: bool)
    ensures
        fits == frame_fits(len as nat, stride as nat, width as nat, height as nat),
{
    if width > usize::MAX / RGB_BYTES {
        return false;
    }
    let byte_width: usize = RGB_BYTES * width;
    if byte_width > stride {
        return false;
    }
    if height == 0 {
        return true;
    }
    if len < byte_width {
        assert(((height - 1) * stride) as int >= 0) by (nonlinear_arith)
            requires
                height >= 1,
                stride >= 0,
        ;
        return false;
    }
    let room: usize = len - byte_width;
    let rows: usize = height - 1;
    if rows == 0 {
        assert(rows * stride == 0) by (nonlinear_arith)
            requires
                rows == 0,
        ;
        return true;
    }
    if stride == 0 {
        assert(rows * stride == 0) by (nonlinear_arith)
            requires
                stride == 0,
        ;
        return true;
    }
    // rows * stride <= room  <==>  stride <= room / rows
    proof {
        let q = (room / rows) as int;
        vstd::arithmetic::div_mod::lemma_fundamental_div_mod(room as int, rows as int);
        if stride as int <= q {
            lemma_mul_inequality(stride as int, q, rows as int);
            lemma_mul_is_commutative(stride as int, rows as int);
            lemma_mul_is_commutative(q, rows as int);
        } else {
            lemma_mul_inequality(q + 1, stride as int, rows as int);
            lemma_mul_is_commutative(stride as int, rows as int);
            lemma_mul_is_commutative(q + 1, rows as int);
            assert((q + 1) * rows == q * rows + rows) by (nonlinear_arith);
            lemma_mul_is_commutative(q, rows as int);
            vstd::arithmetic::div_mod::lemma_mod_bound(room as int, rows as int);
        }
    }
    stride <= room / rows
}

/// Lays the rows of a decoded picture side by side: the picture arrives
/// with rows `stride` bytes apart and leaves with three bytes per pixel and
/// nothing between its rows.
pub fn frame_to_color_image(data: &[u8], stride: usize, width: usize, height: usize) -> (pixels:
    Vec<u8>)
    requires
        frame_fits(data@.len(), stride as nat, width as nat, height as nat),
    ensures
        pixels@ == packed_rows(data@, stride as nat, width as nat, height as nat),
{
    let len: usize = data.len();
    let byte_width: usize = RGB_BYTES * width;
    let mut pixels: Vec<u8> = Vec::new();
    let mut line: usize = 0;
    while line < height
        invariant
            line <= height,
            len == data@.len(),
            byte_width == RGB_BYTES * width,
            frame_fits(data@.len(), stride as nat, width as nat, height as nat),
            pixels@.len() == line * byte_width,
            forall|k: int|
                0 <= k < pixels@.len() ==> #[trigger] pixels@[k] == data@[(k / (byte_width as int))
                    * stride + k % (byte_width as int)],
        decreases height - line,
    {
        assert(line * stride <= (height - 1) * stride) by (nonlinear_arith)
            requires
                0 <= line <= height - 1,
                0 <= stride,
        ;
        assert(0 <= line * stride) by (nonlinear_arith)
            requires
                0 <= line,
                0 <= stride,
        ;
        let begin: usize = line * stride;
        let ghost before = pixels@;
        let mut j: usize = 0;
        while j < byte_width
            invariant
                j <= byte_width,
                line < height,
                len == data@.len(),
                begin == line * stride,
                begin + byte_width <= data@.len(),
                byte_width == RGB_BYTES * width,
                before.len() == line * byte_width,
                pixels@.len() == before.len() + j,
                forall|k: int| 0 <= k < before.len() ==> #[trigger] pixels@[k] == before[k],
                forall|k: int|
                    before.len() <= k < pixels@.len() ==> #[trigger] pixels@[k] == data@[begin + (k
                        - before.len())],
            decreases byte_width - j,
        {
            pixels.push(data[begin + j]);
            j += 1;
        }
        proof {
            let w = byte_width as int;
            assert((line + 1) * w == line * w + w) by (nonlinear_arith);
            assert forall|k: int| 0 <= k < pixels@.len() implies #[trigger] pixels@[k] == data@[(k
                / w) * stride + k % w] by {
                if k >= before.len() {
                    let i = k - before.len();
                    assert(k == line * w + i);
                    vstd::arithmetic::div_mod::lemma_fundamental_div_mod_converse(
                        k,
                        w,
                        line as int,
                        i,
                    );
                }
            }
        }
        line += 1;
    }
    proof {
        let w = byte_width as int;
        assert(RGB_BYTES as nat * (width as nat) * (height as nat) == height * w) by (nonlinear_arith)
            requires
                w == RGB_BYTES * width,
        ;
        assert(pixels@ =~= packed_rows(data@, stride as nat, width as nat, height as nat));
    }
    pixels
}

} // verus!
