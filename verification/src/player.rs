//! The player: its shared state, its control surface and its five workers.

pub mod audio;
pub mod clock;
pub mod command;
pub mod consts;
pub mod decode;
pub mod kits;
pub mod names;
pub mod packet_reader;
pub mod pipeline;
pub mod play_ctrl;
pub mod player_;
pub mod present;
pub mod queue;
pub mod time_base;
pub mod video;
pub mod video_audio_rs;

pub use audio::{
    audio_ring, feed_samples, fits_ring, has_room, push_frame, write_audio, AudioPlayFrame, SampleConsumer,
    SampleProducer,
};
pub use clock::{Clock, FrameStamp, PlayTime};
pub use command::{CommandGo, CommandUi, PlayerState};
pub use consts::{
    AUDIO_FRAME_QUEUE_SIZE, AUDIO_PACKET_QUEUE_SIZE, AUDIO_RING_CAPACITY, AV_TIME_BASE,
    DECODE_IDLE_INTERVAL_MS, DEFAULT_LOOKAHEAD_FRAMES, MAX_DIFF_MOVE_MOUSE, MAX_EMPTY_POLLS,
    PLAY_MIN_INTERVAL_MS, VIDEO_FRAME_QUEUE_SIZE, VIDEO_PACKET_QUEUE_SIZE,
    VIDEO_SYNC_THRESHOLD_MAX, VIDEO_SYNC_THRESHOLD_MIN,
};
pub use decode::{
    after_send, audio_play_frame, decode_next, decoder_threads, frame_to_color_image, is_ffmpeg_eof_error,
    subtitle_source, video_frame_pts, video_play_frame, worker_pace, DecodeError, DecodeStep,
    DecoderThreads, PacketEvent, Pace, SubtitleSource,
};
pub use packet_reader::{
    reader_end_of_input, reader_plan, reader_poll, PacketRoute, ReaderAction, ReaderStep,
    SeekDirection, Streams,
};
pub use pipeline::{PathEvent, StreamPath};
pub use play_ctrl::{sleep_micros, video_delay, PlayCtrl};
pub use player_::{AudioStreamInfo, MediaInfo, Player, PlayerError, VideoStreamInfo};
pub use present::{FrameEvent, PresentStep, Presenter, StreamKind};
pub use time_base::{rescale, Rational};
pub use video::VideoPlayFrame;
pub use queue::{drain_optional, drain_queue, drain_step, BoundedQueue, Drained, Polled};
pub use video_audio_rs::{
    frame_step, next_frame, next_packet, packet_step, skip_frame, skip_step, Queued, SkipStep,
    VideoAudioRS,
};
