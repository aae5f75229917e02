use door_player::player::{
    drain_optional, drain_queue, drain_step, frame_step, next_frame, next_packet, packet_step, skip_frame, skip_step,
    AudioStreamInfo, BoundedQueue, CommandGo, DecodeStep, Drained, MediaInfo, Polled, SkipStep,
    PlayCtrl, PlayerState, PresentStep, Presenter, Queued, Rational, ReaderStep, SeekDirection,
    StreamKind, VideoAudioRS, VideoPlayFrame, VideoStreamInfo, AUDIO_FRAME_QUEUE_SIZE,
    AUDIO_PACKET_QUEUE_SIZE, VIDEO_FRAME_QUEUE_SIZE, VIDEO_PACKET_QUEUE_SIZE,
};

fn media(video: bool, audio: bool) -> MediaInfo {
    MediaInfo {
        duration: 10_000_000,
        video: if video {
            Some(VideoStreamInfo { index: 0, time_base: Rational::new(1, 30), width: 4, height: 2 })
        } else {
            None
        },
        audio: if audio { Some(AudioStreamInfo { index: 1, time_base: Rational::new(1, 44_100) }) } else { None },
    }
}

fn ctrl(state: PlayerState) -> PlayCtrl {
    let mut c = PlayCtrl::new(10_000_000, Some(Rational::new(1, 30)), Some(Rational::new(1, 44_100)));
    c.player_state = state;
    c
}

fn frame(pts: i64) -> VideoPlayFrame {
    VideoPlayFrame { width: 0, height: 0, pts, duration: 1, timestamp: 0, pixels: Vec::new() }
}

#[test]
fn every_stream_of_the_file_gets_its_queues() {
    let rs: VideoAudioRS<u32, f32> = VideoAudioRS::new(&media(true, true));
    assert_eq!(rs.video_packets.as_ref().unwrap().sender().capacity(), VIDEO_PACKET_QUEUE_SIZE);
    assert_eq!(rs.video_packets.as_ref().unwrap().receiver().capacity(), VIDEO_PACKET_QUEUE_SIZE);
    assert_eq!(rs.video_frames.as_ref().unwrap().sender().capacity(), VIDEO_FRAME_QUEUE_SIZE);
    assert_eq!(rs.video_frames.as_ref().unwrap().receiver().capacity(), VIDEO_FRAME_QUEUE_SIZE);
    assert_eq!(rs.audio_packets.as_ref().unwrap().sender().capacity(), AUDIO_PACKET_QUEUE_SIZE);
    assert_eq!(rs.audio_packets.as_ref().unwrap().receiver().capacity(), AUDIO_PACKET_QUEUE_SIZE);
    assert_eq!(rs.audio_frames.as_ref().unwrap().sender().capacity(), AUDIO_FRAME_QUEUE_SIZE);
    assert_eq!(rs.audio_frames.as_ref().unwrap().receiver().capacity(), AUDIO_FRAME_QUEUE_SIZE);
    assert_eq!(rs.video_packets.as_ref().unwrap().limit(), 12);
    assert_eq!(rs.video_frames.as_ref().unwrap().limit(), 1);
    assert_eq!(rs.audio_packets.as_ref().unwrap().limit(), 2);
    assert_eq!(rs.audio_frames.as_ref().unwrap().limit(), 5);
    assert_eq!(rs.video_stream_time_base, Some(Rational::new(1, 30)));
    assert_eq!(rs.audio_stream_time_base, Some(Rational::new(1, 44_100)));
    // the two ends belong to one queue
    assert!(rs.video_packets.as_ref().unwrap().sender().try_send(Queued::Packet(7)).unwrap());
    assert!(matches!(
        rs.video_packets.as_ref().unwrap().receiver().try_recv().unwrap(),
        Some(Queued::Packet(7))
    ));
}

#[test]
fn an_absent_stream_has_no_queues() {
    let rs: VideoAudioRS<u32, f32> = VideoAudioRS::new(&media(true, false));
    assert!(rs.video_packets.is_some() && rs.video_packets.is_some());
    assert!(rs.video_frames.is_some() && rs.video_frames.is_some());
    assert!(rs.audio_packets.is_none() && rs.audio_packets.is_none());
    assert!(rs.audio_frames.is_none() && rs.audio_frames.is_none());
    assert_eq!(rs.audio_stream_time_base, None);
    let rs: VideoAudioRS<u32, f32> = VideoAudioRS::new(&media(false, true));
    assert!(rs.video_packets.is_none() && rs.video_frames.is_none());
    assert!(rs.audio_packets.is_some() && rs.audio_frames.is_some());
    assert_eq!(rs.video_stream_time_base, None);
    let rs: VideoAudioRS<u32, f32> = VideoAudioRS::new(&media(false, false));
    assert!(rs.video_packets.is_none() && rs.audio_packets.is_none());
    assert_eq!(rs.seek_clean(), Drained { seen: 0, dropped: 0 });
}

#[test]
fn seek_clean_empties_every_queue() {
    let rs: VideoAudioRS<u32, i16> = VideoAudioRS::new(&media(true, true));
    for n in 0..5 {
        assert!(rs.video_packets.as_ref().unwrap().sender().try_send(Queued::Packet(n)).unwrap());
    }
    assert!(rs.video_frames.as_ref().unwrap().sender().try_send(frame(3)).unwrap());
    assert!(rs.audio_packets.as_ref().unwrap().sender().try_send(Queued::Packet(9)).unwrap());
    assert!(rs.audio_packets.as_ref().unwrap().sender().try_send(Queued::Discontinuity).unwrap());
    assert_eq!(rs.seek_clean(), Drained { seen: 8, dropped: 8 });
    assert_eq!(rs.video_packets.as_ref().unwrap().receiver().len(), 0);
    assert_eq!(rs.video_frames.as_ref().unwrap().receiver().len(), 0);
    assert_eq!(rs.audio_packets.as_ref().unwrap().receiver().len(), 0);
    assert_eq!(rs.audio_frames.as_ref().unwrap().receiver().len(), 0);
    assert_eq!(rs.seek_clean(), Drained { seen: 0, dropped: 0 });
}

#[test]
fn drain_queue_drops_what_is_queued() {
    let queue: BoundedQueue<u8> = BoundedQueue::new(4);
    assert_eq!(queue.limit(), 4);
    assert_eq!(queue.sender().capacity(), 4);
    assert_eq!(drain_queue(&queue), Drained { seen: 0, dropped: 0 });
    for n in 0..3 {
        assert!(queue.sender().try_send(n).unwrap());
    }
    assert_eq!(queue.in_flight(), 3);
    assert!(!queue.is_full());
    assert_eq!(drain_queue(&queue), Drained { seen: 3, dropped: 3 });
    assert!(queue.receiver().is_empty());
    assert_eq!(queue.in_flight(), 0);
}

#[test]
fn a_queue_never_holds_more_than_its_limit() {
    let queue: BoundedQueue<u8> = BoundedQueue::new(2);
    assert!(queue.sender().try_send(1).unwrap());
    assert!(queue.sender().try_send(2).unwrap());
    assert!(queue.is_full());
    assert!(!queue.sender().try_send(3).unwrap());
    assert_eq!(queue.in_flight(), 2);
    assert_eq!(queue.receiver().try_recv().unwrap(), Some(1));
    assert_eq!(queue.receiver().try_recv().unwrap(), Some(2));
    assert_eq!(queue.receiver().try_recv().unwrap(), None);
}

#[test]
fn the_decoder_is_fed_packet_by_packet() {
    let (tx, rx) = kanal::bounded::<Queued<u32>>(4);
    assert_eq!(next_packet(&rx, PlayerState::Playing), (DecodeStep::Wait, None));
    assert!(tx.try_send(Queued::Packet(11)).unwrap());
    assert!(tx.try_send(Queued::Discontinuity).unwrap());
    assert!(tx.try_send(Queued::Packet(12)).unwrap());
    assert_eq!(next_packet(&rx, PlayerState::Playing), (DecodeStep::Feed, Some(11)));
    assert_eq!(next_packet(&rx, PlayerState::Playing), (DecodeStep::Discard, None));
    // a stopped player takes the packet off the queue and leaves
    assert_eq!(next_packet(&rx, PlayerState::Stopped), (DecodeStep::Exit, None));
    assert_eq!(next_packet(&rx, PlayerState::Playing), (DecodeStep::Wait, None));
    drop(tx);
    assert_eq!(next_packet(&rx, PlayerState::Playing), (DecodeStep::Exit, None));
}

#[test]
fn the_presenter_takes_frames_as_they_come() {
    let (tx, rx) = kanal::bounded::<VideoPlayFrame>(2);
    let mut c = ctrl(PlayerState::Playing);
    let mut p = Presenter::new(StreamKind::Video);
    let (step, got) = next_frame(&mut p, &mut c, &rx);
    assert_eq!(step, PresentStep::Idle);
    assert!(got.is_none());
    assert!(tx.try_send(frame(42)).unwrap());
    let (step, got) = next_frame(&mut p, &mut c, &rx);
    assert_eq!(step, PresentStep::Present);
    assert_eq!(got.unwrap().pts, 42);
    c.set_packet_finished(true);
    for _ in 0..9 {
        let (step, got) = next_frame(&mut p, &mut c, &rx);
        assert_eq!(step, PresentStep::Idle);
        assert!(got.is_none());
    }
    let (step, _) = next_frame(&mut p, &mut c, &rx);
    assert_eq!(step, PresentStep::Exit);
    assert!(c.video_finished());
    assert_eq!(c.player_state, PlayerState::EndOfFile);
}

#[test]
fn a_presenter_whose_decoder_is_gone_leaves() {
    let (tx, rx) = kanal::bounded::<VideoPlayFrame>(2);
    drop(tx);
    let mut c = ctrl(PlayerState::Playing);
    let mut p = Presenter::new(StreamKind::Audio);
    let (step, got) = next_frame(&mut p, &mut c, &rx);
    assert_eq!(step, PresentStep::Exit);
    assert!(got.is_none());
    assert!(c.audio_finished());
}

#[test]
fn the_reader_idles_while_a_packet_queue_is_full() {
    let rs: VideoAudioRS<u32, f32> = VideoAudioRS::new(&media(true, true));
    let mut c = ctrl(PlayerState::Playing);
    assert_eq!(rs.reader_poll(&mut c, 1, 0), ReaderStep::Read { packets: 1 });
    for n in 0..AUDIO_PACKET_QUEUE_SIZE {
        assert!(rs.audio_packets.as_ref().unwrap().sender().try_send(Queued::Packet(n as u32)).unwrap());
    }
    assert_eq!(rs.reader_poll(&mut c, 1, 0), ReaderStep::Idle);
    assert_eq!(rs.seek_clean(), Drained { seen: 2, dropped: 2 });
    assert_eq!(rs.reader_poll(&mut c, 1, 0), ReaderStep::Read { packets: 1 });
    for n in 0..VIDEO_PACKET_QUEUE_SIZE {
        assert_eq!(rs.reader_poll(&mut c, 1, 0), ReaderStep::Read { packets: 1 });
        assert!(rs.video_packets.as_ref().unwrap().sender().try_send(Queued::Packet(n as u32)).unwrap());
    }
    assert_eq!(rs.reader_poll(&mut c, 1, 0), ReaderStep::Idle);
    // a command is carried out all the same
    c.command_go = CommandGo::Seek(1_000_000);
    assert_eq!(
        rs.reader_poll(&mut c, 1, 0),
        ReaderStep::Seek { position: 1_000_000, direction: SeekDirection::Backward, packets: 1 }
    );
}

#[test]
fn the_reader_of_a_file_without_audio_watches_the_video_queue_only() {
    let rs: VideoAudioRS<u32, f32> = VideoAudioRS::new(&media(true, false));
    let mut c = PlayCtrl::new(10_000_000, Some(Rational::new(1, 30)), None);
    c.player_state = PlayerState::Playing;
    assert_eq!(rs.reader_poll(&mut c, 0, 0), ReaderStep::Read { packets: 1 });
    c.set_video_finished(true);
    assert_eq!(rs.reader_poll(&mut c, 0, 0), ReaderStep::Exit);
    assert_eq!(c.player_state, PlayerState::Stopped);
}

#[test]
fn counts_of_several_queues_add_up() {
    let a = Drained { seen: 5, dropped: 3 };
    let b = Drained { seen: 2, dropped: 2 };
    assert_eq!(a.merged(b), Drained { seen: 7, dropped: 5 });
    assert_eq!(a.merged(Drained { seen: 0, dropped: 0 }), a);
    let full = Drained { seen: usize::MAX, dropped: usize::MAX - 1 };
    assert_eq!(full.merged(b), Drained { seen: usize::MAX, dropped: usize::MAX });
}

#[test]
fn what_comes_after_the_look_is_left_in_the_queue() {
    let queue: BoundedQueue<u8> = BoundedQueue::new(4);
    for n in 0..2 {
        assert!(queue.sender().try_send(n).unwrap());
    }
    let drained = drain_queue(&queue);
    assert!(drained.dropped <= drained.seen);
    assert!(drained.seen <= queue.limit());
    assert_eq!(drained, Drained { seen: 2, dropped: 2 });
    assert!(queue.sender().try_send(9).unwrap());
    assert_eq!(queue.in_flight(), 1);
    assert_eq!(queue.receiver().try_recv().unwrap(), Some(9));
}

#[test]
fn what_a_look_finds_decides_the_step_of_a_decoder() {
    assert_eq!(packet_step(Polled::<Queued<u32>>::Closed, PlayerState::Playing), (DecodeStep::Exit, None));
    assert_eq!(packet_step(Polled::<Queued<u32>>::Empty, PlayerState::Playing), (DecodeStep::Wait, None));
    assert_eq!(
        packet_step(Polled::Item(Queued::<u32>::Discontinuity), PlayerState::Playing),
        (DecodeStep::Discard, None)
    );
    assert_eq!(packet_step(Polled::Item(Queued::Packet(7u32)), PlayerState::Playing), (DecodeStep::Feed, Some(7)));
    assert_eq!(packet_step(Polled::Item(Queued::Packet(7u32)), PlayerState::Paused), (DecodeStep::Feed, Some(7)));
    assert_eq!(packet_step(Polled::Item(Queued::Packet(7u32)), PlayerState::Stopped), (DecodeStep::Exit, None));
}

#[test]
fn what_a_look_finds_decides_the_step_of_a_presenter() {
    let mut c = ctrl(PlayerState::Playing);
    let mut p = Presenter::new(StreamKind::Video);
    assert_eq!(frame_step(&mut p, &mut c, Polled::Item(42u8)), (PresentStep::Present, Some(42)));
    assert_eq!(frame_step(&mut p, &mut c, Polled::<u8>::Empty), (PresentStep::Idle, None));
    assert_eq!(p.empty_count(), 0);
    c.set_packet_finished(true);
    assert_eq!(frame_step(&mut p, &mut c, Polled::<u8>::Empty), (PresentStep::Idle, None));
    assert_eq!(p.empty_count(), 1);
    assert_eq!(frame_step(&mut p, &mut c, Polled::Item(43u8)), (PresentStep::Present, Some(43)));
    assert_eq!(p.empty_count(), 0);
    assert_eq!(frame_step(&mut p, &mut c, Polled::<u8>::Closed), (PresentStep::Exit, None));
    assert!(c.video_finished());
    assert_eq!(c.player_state, PlayerState::EndOfFile);
}

#[test]
fn a_frame_is_skipped_when_there_is_one() {
    assert_eq!(skip_step(Polled::Item(1u8), PlayerState::Playing), SkipStep::Skipped);
    assert_eq!(skip_step(Polled::Item(1u8), PlayerState::Stopped), SkipStep::Skipped);
    assert_eq!(skip_step(Polled::<u8>::Empty, PlayerState::Playing), SkipStep::Again);
    assert_eq!(skip_step(Polled::<u8>::Empty, PlayerState::Stopped), SkipStep::Stop);
    assert_eq!(skip_step(Polled::<u8>::Closed, PlayerState::Playing), SkipStep::Stop);
    let queue: BoundedQueue<u8> = BoundedQueue::new(2);
    assert_eq!(skip_frame(queue.receiver(), PlayerState::Playing), SkipStep::Again);
    assert!(queue.sender().try_send(5).unwrap());
    assert!(queue.sender().try_send(6).unwrap());
    assert_eq!(skip_frame(queue.receiver(), PlayerState::Playing), SkipStep::Skipped);
    assert_eq!(queue.receiver().try_recv().unwrap(), Some(6));
}

#[test]
fn a_look_that_finds_an_item_drops_it() {
    assert_eq!(drain_step(Polled::Item(7u8), 0), 1);
    assert_eq!(drain_step(Polled::Item(7u8), 41), 42);
    assert_eq!(drain_step(Polled::<u8>::Empty, 41), 41);
    assert_eq!(drain_step(Polled::<u8>::Closed, 41), 41);
    assert_eq!(drain_step(Polled::Item(7u8), usize::MAX - 1), usize::MAX);
}

#[test]
fn an_absent_queue_gives_nothing() {
    let none: Option<BoundedQueue<u8>> = None;
    assert_eq!(drain_optional(&none), Drained { seen: 0, dropped: 0 });
    let some: Option<BoundedQueue<u8>> = Some(BoundedQueue::new(3));
    for n in 0..3 {
        assert!(some.as_ref().unwrap().sender().try_send(n).unwrap());
    }
    assert_eq!(drain_optional(&some), Drained { seen: 3, dropped: 3 });
    assert_eq!(some.as_ref().unwrap().in_flight(), 0);
    assert_eq!(drain_optional(&some), Drained { seen: 0, dropped: 0 });
}

#[test]
fn a_flush_leaves_every_queue_empty_and_open() {
    let rs: VideoAudioRS<u32, i16> = VideoAudioRS::new(&media(true, true));
    for n in 0..12 {
        assert!(rs.video_packets.as_ref().unwrap().sender().try_send(Queued::Packet(n)).unwrap());
    }
    assert!(rs.video_frames.as_ref().unwrap().sender().try_send(frame(1)).unwrap());
    assert_eq!(rs.seek_clean(), Drained { seen: 13, dropped: 13 });
    assert_eq!(rs.video_packets.as_ref().unwrap().in_flight(), 0);
    assert_eq!(rs.video_frames.as_ref().unwrap().in_flight(), 0);
    assert_eq!(rs.audio_packets.as_ref().unwrap().in_flight(), 0);
    assert_eq!(rs.audio_frames.as_ref().unwrap().in_flight(), 0);
    // a second flush changes nothing, and the queues still take items
    assert_eq!(rs.seek_clean(), Drained { seen: 0, dropped: 0 });
    assert!(!rs.video_packets.as_ref().unwrap().sender().is_closed());
    assert!(rs.video_packets.as_ref().unwrap().sender().try_send(Queued::Discontinuity).unwrap());
    assert_eq!(rs.video_packets.as_ref().unwrap().in_flight(), 1);
}
