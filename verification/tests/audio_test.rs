use door_player::player::{
    audio_ring, feed_samples, fits_ring, has_room, push_frame, write_audio, AUDIO_RING_CAPACITY,
};

fn words(samples: &[f32]) -> Vec<u32> {
    samples.iter().map(|s| s.to_bits()).collect()
}

fn samples(words: &[u32]) -> Vec<f32> {
    words.iter().map(|w| f32::from_bits(*w)).collect()
}

#[test]
fn ring_buf_test() {
    let (mut prod, mut cons) = audio_ring();
    assert_eq!(feed_samples(&mut prod, &[2, 3], 0), 2);
    let mut out = [0u32; 1];
    assert_eq!(write_audio(&mut out, &mut cons, 0), 1);
    println!("{}", out[0]);
    assert_eq!(out[0], 2);
}

#[test]
fn an_empty_ring_gives_silence() {
    let (_prod, mut cons) = audio_ring();
    let mut data = words(&[0.5f32; 8]);
    assert_eq!(write_audio(&mut data, &mut cons, 0), 0);
    assert_eq!(samples(&data), vec![0.0f32; 8]);
}

#[test]
fn samples_come_out_in_order_and_silence_follows() {
    let (mut prod, mut cons) = audio_ring();
    assert_eq!(feed_samples(&mut prod, &words(&[0.1, 0.2, 0.3]), 0), 3);
    let mut data = words(&[9.0f32; 5]);
    assert_eq!(write_audio(&mut data, &mut cons, 0), 3);
    assert_eq!(samples(&data), vec![0.1f32, 0.2, 0.3, 0.0, 0.0]);
    let mut data = words(&[9.0f32; 2]);
    assert_eq!(write_audio(&mut data, &mut cons, (-1.0f32).to_bits()), 0);
    assert_eq!(samples(&data), vec![-1.0f32, -1.0]);
}

#[test]
fn a_short_buffer_takes_only_what_it_holds() {
    let (mut prod, mut cons) = audio_ring();
    assert_eq!(feed_samples(&mut prod, &[1, 2, 3, 4, 5], 0), 5);
    let mut data = [0u32; 2];
    assert_eq!(write_audio(&mut data, &mut cons, 0), 2);
    assert_eq!(data, [1, 2]);
    let mut data = [0u32; 4];
    assert_eq!(write_audio(&mut data, &mut cons, 7), 3);
    assert_eq!(data, [3, 4, 5, 7]);
    let mut none: [u32; 0] = [];
    assert_eq!(write_audio(&mut none, &mut cons, 7), 0);
}

#[test]
fn the_ring_takes_no_more_than_it_has_room_for() {
    assert_eq!(AUDIO_RING_CAPACITY, 8820 * 2);
    let (mut prod, mut cons) = audio_ring();
    assert!(has_room(&mut prod, AUDIO_RING_CAPACITY));
    assert!(!has_room(&mut prod, AUDIO_RING_CAPACITY + 1));
    let samples: Vec<u32> = (0..AUDIO_RING_CAPACITY + 100).map(|i| (i * 7) as u32).collect();
    let next = feed_samples(&mut prod, &samples, 0);
    assert_eq!(next, AUDIO_RING_CAPACITY);
    assert!(!has_room(&mut prod, 1));
    assert!(has_room(&mut prod, 0));
    // nothing goes in while the ring is full
    assert_eq!(feed_samples(&mut prod, &samples, next), next);
    // the reader frees places and the writer goes on where it stopped
    let mut data = vec![0u32; 60];
    assert_eq!(write_audio(&mut data, &mut cons, 0), 60);
    assert_eq!(data, samples[..60].to_vec());
    assert!(has_room(&mut prod, 60));
    assert!(!has_room(&mut prod, 61));
    let next = feed_samples(&mut prod, &samples, next);
    assert_eq!(next, AUDIO_RING_CAPACITY + 60);
    let mut rest = vec![0u32; AUDIO_RING_CAPACITY + 5];
    assert_eq!(write_audio(&mut rest, &mut cons, 255), AUDIO_RING_CAPACITY);
    assert_eq!(rest[..AUDIO_RING_CAPACITY].to_vec(), samples[60..AUDIO_RING_CAPACITY + 60].to_vec());
    assert_eq!(rest[AUDIO_RING_CAPACITY..].to_vec(), vec![255u32; 5]);
}

#[test]
fn a_frame_fed_in_pieces_arrives_whole() {
    let (mut prod, mut cons) = audio_ring();
    let frame: Vec<u32> = (0..(3 * AUDIO_RING_CAPACITY as u32)).collect();
    let mut heard: Vec<u32> = Vec::new();
    let mut from = 0;
    let mut rounds = 0;
    while from < frame.len() {
        rounds += 1;
        assert!(rounds < 100);
        from = feed_samples(&mut prod, &frame, from);
        // the device takes a buffer of an odd size at a time
        for _ in 0..20 {
            let mut buffer = [u32::MAX; 1023];
            let done = write_audio(&mut buffer, &mut cons, u32::MAX);
            heard.extend_from_slice(&buffer[..done]);
        }
    }
    loop {
        let mut buffer = [u32::MAX; 1023];
        let done = write_audio(&mut buffer, &mut cons, u32::MAX);
        heard.extend_from_slice(&buffer[..done]);
        if done == 0 {
            break;
        }
    }
    assert_eq!(heard, frame);
}

#[test]
fn feeding_from_the_end_feeds_nothing() {
    let (mut prod, _cons) = audio_ring();
    let samples = words(&[0.5f32; 4]);
    assert_eq!(feed_samples(&mut prod, &samples, 4), 4);
    assert_eq!(feed_samples(&mut prod, &samples, 2), 4);
    assert!(has_room(&mut prod, AUDIO_RING_CAPACITY - 2));
    assert!(!has_room(&mut prod, AUDIO_RING_CAPACITY - 1));
}

#[test]
fn a_frame_goes_in_whole_or_not_at_all() {
    let (mut prod, mut cons) = audio_ring();
    let frame: Vec<u32> = (0..10_000).collect();
    assert!(push_frame(&mut prod, &frame));
    // seven thousand six hundred and forty places are left: the next frame has to wait
    assert!(!push_frame(&mut prod, &frame));
    assert!(has_room(&mut prod, AUDIO_RING_CAPACITY - 10_000));
    assert!(!has_room(&mut prod, AUDIO_RING_CAPACITY - 10_000 + 1));
    let mut data = vec![0u32; 2_360];
    assert_eq!(write_audio(&mut data, &mut cons, 0), 2_360);
    assert_eq!(data, frame[..2_360].to_vec());
    assert!(push_frame(&mut prod, &frame));
    let mut rest = vec![0u32; AUDIO_RING_CAPACITY];
    assert_eq!(write_audio(&mut rest, &mut cons, 0), AUDIO_RING_CAPACITY);
    assert_eq!(rest[..7_640].to_vec(), frame[2_360..].to_vec());
    assert_eq!(rest[7_640..].to_vec(), frame);
}

#[test]
fn an_empty_frame_always_goes_in() {
    let (mut prod, _cons) = audio_ring();
    let full: Vec<u32> = vec![1; AUDIO_RING_CAPACITY];
    assert!(push_frame(&mut prod, &full));
    assert!(push_frame(&mut prod, &[]));
    assert!(!push_frame(&mut prod, &[1]));
}

#[test]
fn a_frame_larger_than_the_ring_never_goes_in() {
    let (mut prod, _cons) = audio_ring();
    let frame: Vec<u32> = vec![1; AUDIO_RING_CAPACITY + 1];
    assert!(!push_frame(&mut prod, &frame));
    assert!(has_room(&mut prod, AUDIO_RING_CAPACITY));
}

#[test]
fn a_frame_fits_the_ring_up_to_its_capacity() {
    assert!(fits_ring(0));
    assert!(fits_ring(1024));
    assert!(fits_ring(AUDIO_RING_CAPACITY));
    assert!(!fits_ring(AUDIO_RING_CAPACITY + 1));
    assert!(!fits_ring(usize::MAX));
}
