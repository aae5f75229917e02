use door_player::player::{
    audio_play_frame, decode_next, next_packet, reader_poll, video_play_frame, worker_pace,
    AudioPlayFrame, AudioStreamInfo, CommandGo, CommandUi, DecodeStep, FrameEvent, MediaInfo, Pace,
    PacketEvent, PacketRoute, Player, PlayerState, PresentStep, Presenter, Queued, Rational,
    ReaderStep, SeekDirection, StreamKind, Streams, VideoPlayFrame, VideoStreamInfo,
    AUDIO_FRAME_QUEUE_SIZE, AUDIO_PACKET_QUEUE_SIZE, VIDEO_FRAME_QUEUE_SIZE,
    VIDEO_PACKET_QUEUE_SIZE,
};

const STREAMS: Streams = Streams { audio_index: Some(1), video_index: Some(0) };

fn ten_seconds() -> MediaInfo {
    MediaInfo {
        duration: 10_000_000,
        video: Some(VideoStreamInfo { index: 0, time_base: Rational::new(1, 30), width: 640, height: 360 }),
        audio: Some(AudioStreamInfo { index: 1, time_base: Rational::new(1, 44_100) }),
    }
}

fn video_frame(pts: i64) -> VideoPlayFrame {
    video_play_frame(640, 360, Some(pts), Some(pts), 0, 1, Vec::new())
}

fn audio_frame(pts: i64) -> AudioPlayFrame<f32> {
    audio_play_frame(vec![0.0f32; 16], 2, 44_100, Some(pts), 1024, Some(pts))
}

fn close_to(value: i64, target: i64, by: i64) -> bool {
    (value - target).abs() <= by
}

#[test]
fn open_play_seek_stop() {
    // open: paused, nothing elapsed
    let mut player = Player::new(&ten_seconds(), CommandUi::NoCommand, 0).unwrap();
    assert_eq!(player.play_ctrl.player_state, PlayerState::Paused);
    assert_eq!(player.play_ctrl.duration_ms, 10_000);
    assert_eq!(reader_poll(&mut player.play_ctrl, &STREAMS, false, false), ReaderStep::Idle);
    assert_eq!(worker_pace(player.play_ctrl.player_state), Pace::Idle);

    // play
    assert!(player.resume());
    assert_eq!(player.play_ctrl.player_state, PlayerState::Playing);
    assert_eq!(reader_poll(&mut player.play_ctrl, &STREAMS, false, false), ReaderStep::Read { packets: 1 });
    assert_eq!(worker_pace(player.play_ctrl.player_state), Pace::Run);

    // one second of frames, audio and video side by side
    let mut audio = Presenter::new(StreamKind::Audio);
    let mut video = Presenter::new(StreamKind::Video);
    let mut audio_pts: i64 = 0;
    for pts in 0..=30i64 {
        while audio_pts * 30 <= pts * 44_100 {
            assert_eq!(audio.poll(&mut player.play_ctrl, FrameEvent::Frame), PresentStep::Present);
            player.play_ctrl.play_audio(audio_frame(audio_pts), 0.0);
            audio_pts += 1024;
        }
        assert_eq!(video.poll(&mut player.play_ctrl, FrameEvent::Frame), PresentStep::Present);
        let delay = player.play_ctrl.play_video(&video_frame(pts));
        if pts > 0 {
            // the clocks stay inside the band, so every frame plays at its natural rate
            assert_eq!(delay, 33_333);
        }
        player.process_state();
    }
    assert!(close_to(player.play_ctrl.video_elapsed_ms, 1000, 50));
    assert!(close_to(player.play_ctrl.audio_elapsed_ms, 1000, 50));
    assert!(close_to(player.play_ctrl.video_elapsed_ms, player.play_ctrl.audio_elapsed_ms, 125));
    assert_eq!(player.play_ctrl.elapsed_ms(), 1000);

    // seek to five seconds
    player.seek(5_000_000);
    assert_eq!(player.play_ctrl.player_state, PlayerState::Seeking(true));
    assert_eq!(
        reader_poll(&mut player.play_ctrl, &STREAMS, true, true),
        ReaderStep::Seek { position: 5_000_000, direction: SeekDirection::Backward, packets: 1 }
    );
    assert_eq!(player.play_ctrl.command_go, CommandGo::NoCommand);
    assert_eq!(
        decode_next(player.play_ctrl.player_state, PacketEvent::Discontinuity),
        DecodeStep::Discard
    );
    player.process_state();
    assert_eq!(player.play_ctrl.player_state, PlayerState::Seeking(true));
    assert_eq!(player.play_ctrl.elapsed_ms(), 5000);
    // the first frame after the seek
    player.play_ctrl.play_audio(audio_frame(220_500), 0.0);
    player.play_ctrl.play_video(&video_frame(150));
    player.process_state();
    assert_eq!(player.play_ctrl.player_state, PlayerState::Seeking(false));
    assert!(player.process_state());
    assert_eq!(player.play_ctrl.player_state, PlayerState::Playing);
    assert!(close_to(player.play_ctrl.elapsed_ms(), 5000, 50));
    assert!(close_to(player.play_ctrl.audio_elapsed_ms, 5000, 50));

    // stop: every worker leaves at its next look
    player.stop();
    assert_eq!(player.play_ctrl.player_state, PlayerState::Stopped);
    assert_eq!(reader_poll(&mut player.play_ctrl, &STREAMS, false, false), ReaderStep::Exit);
    assert_eq!(worker_pace(player.play_ctrl.player_state), Pace::Exit);
    assert_eq!(audio.pace(player.play_ctrl.player_state), Pace::Exit);
    assert_eq!(video.pace(player.play_ctrl.player_state), Pace::Exit);
    assert_eq!(player.play_ctrl.player_state, PlayerState::Stopped);
}

#[test]
fn a_file_with_video_only_plays() {
    let media = MediaInfo { audio: None, ..ten_seconds() };
    let mut player = Player::new(&media, CommandUi::NoCommand, 0).unwrap();
    let streams = Streams { audio_index: None, video_index: Some(0) };
    assert!(player.start());
    assert_eq!(player.play_ctrl.player_state, PlayerState::Playing);
    // a full audio queue cannot hold the reader back: there is none
    assert_eq!(reader_poll(&mut player.play_ctrl, &streams, true, false), ReaderStep::Read { packets: 1 });
    assert_eq!(streams.route_packet(1, false), PacketRoute::Dropped);
    assert_eq!(streams.route_packet(0, false), PacketRoute::Video);
    let mut last_elapsed = -1;
    for pts in 0..90i64 {
        let delay = player.play_ctrl.play_video(&video_frame(pts));
        assert_eq!(delay, 33_333);
        assert_eq!(player.play_ctrl.audio_clock.play_ts(player.play_ctrl.lookahead_frames), 0);
        assert!(player.play_ctrl.video_elapsed_ms > last_elapsed);
        last_elapsed = player.play_ctrl.video_elapsed_ms;
    }
    assert_eq!(last_elapsed, 2967);
    // the video ends, and with it the file
    player.play_ctrl.set_packet_finished(true);
    let mut video = Presenter::new(StreamKind::Video);
    for _ in 0..9 {
        assert_eq!(video.poll(&mut player.play_ctrl, FrameEvent::Empty), PresentStep::Idle);
    }
    assert_eq!(video.poll(&mut player.play_ctrl, FrameEvent::Empty), PresentStep::Exit);
    assert_eq!(player.play_ctrl.player_state, PlayerState::EndOfFile);
    assert_eq!(reader_poll(&mut player.play_ctrl, &streams, false, false), ReaderStep::Exit);
    assert_eq!(player.play_ctrl.player_state, PlayerState::Stopped);
}

#[test]
fn nothing_from_before_a_seek_is_presented_after_it() {
    // queues as the pipeline has them
    let (packet_tx, packet_rx) = kanal::bounded::<Queued<i64>>(VIDEO_PACKET_QUEUE_SIZE);
    let (frame_tx, frame_rx) = kanal::bounded::<VideoPlayFrame>(VIDEO_FRAME_QUEUE_SIZE);
    let mut player = Player::new(&ten_seconds(), CommandUi::NoCommand, 0).unwrap();
    player.resume();
    // packets and a frame from the first second wait in the queues
    for pts in 20..26i64 {
        assert!(packet_tx.try_send(Queued::Packet(pts)).unwrap());
    }
    assert!(frame_tx.try_send(video_frame(19)).unwrap());
    // the decoder holds frames of its own
    let mut decoder: Vec<i64> = vec![17, 18];

    player.seek(5_000_000);
    let step = reader_poll(&mut player.play_ctrl, &STREAMS, false, packet_tx.is_full());
    let packets = match step {
        ReaderStep::Seek { position, direction, packets } => {
            assert_eq!((position, direction), (5_000_000, SeekDirection::Backward));
            // empty every queue and mark the place
            for _ in 0..packet_rx.len() {
                let _ = packet_rx.try_recv();
            }
            for _ in 0..frame_rx.len() {
                let _ = frame_rx.try_recv();
            }
            assert!(packet_tx.try_send(Queued::Discontinuity).unwrap());
            packets
        }
        other => panic!("unexpected step {:?}", other),
    };
    // the container resumes at the key frame before the target
    for n in 0..packets {
        assert!(packet_tx.try_send(Queued::Packet(140 + n as i64)).unwrap());
    }

    // the decoder works through its queue
    let mut presented: Vec<i64> = Vec::new();
    loop {
        let (step, packet) = next_packet(&packet_rx, player.play_ctrl.player_state);
        match step {
            DecodeStep::Feed => decoder.push(packet.unwrap()),
            DecodeStep::Discard => decoder.clear(),
            DecodeStep::Wait => break,
            DecodeStep::Exit => panic!("the reader is still there"),
        }
        while !decoder.is_empty() {
            let pts = decoder.remove(0);
            assert!(frame_tx.try_send(video_frame(pts)).unwrap());
            let frame = frame_rx.try_recv().unwrap().unwrap();
            player.play_ctrl.play_video(&frame);
            presented.push(frame.pts);
        }
    }
    assert_eq!(presented, vec![140]);
    assert!(presented.iter().all(|pts| *pts >= 140));
}

#[test]
fn the_queues_have_the_sizes_of_the_pipeline() {
    assert_eq!(AUDIO_PACKET_QUEUE_SIZE, 2);
    assert_eq!(VIDEO_PACKET_QUEUE_SIZE, 12);
    assert_eq!(AUDIO_FRAME_QUEUE_SIZE, 5);
    assert_eq!(VIDEO_FRAME_QUEUE_SIZE, 1);
}
