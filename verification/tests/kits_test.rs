use door_player::player::kits::{
    millisecond_approx_eq, subtitle_extension, timestamp_to_millisecond, EntryName, FfmpegKit,
    SubTitle, Volume,
};
use door_player::player::names::{bytes_eq, bytes_start_with};
use door_player::player::time_base::{rescale, Rational};

#[test]
fn test_for() {
    let len = 2;
    for i in 1..len {
        println!("{}", i);
    }
}

#[test]
fn millisecond_approx_eq_is_a_fifty_millisecond_window() {
    assert!(millisecond_approx_eq(1000, 1000));
    assert!(millisecond_approx_eq(1000, 1049));
    assert!(millisecond_approx_eq(1049, 1000));
    assert!(!millisecond_approx_eq(1000, 1050));
    assert!(!millisecond_approx_eq(1050, 1000));
    assert!(!millisecond_approx_eq(i64::MIN, i64::MAX));
}

#[test]
fn rescale_rounds_to_nearest_away_from_zero() {
    let ms = Rational::new(1, 1000);
    assert_eq!(rescale(90_000, Rational::new(1, 90_000), ms), 1000);
    assert_eq!(rescale(45, Rational::new(1, 90_000), ms), 1);
    assert_eq!(rescale(44, Rational::new(1, 90_000), ms), 0);
    assert_eq!(rescale(-45, Rational::new(1, 90_000), ms), -1);
    assert_eq!(rescale(-44, Rational::new(1, 90_000), ms), 0);
    assert_eq!(rescale(1, Rational::new(1, 2), Rational::new(1, 1)), 1);
    assert_eq!(rescale(3, Rational::new(1, 2), Rational::new(1, 1)), 2);
}

#[test]
fn rescale_without_a_scale_gives_the_lowest_value() {
    assert_eq!(rescale(5, Rational::new(1, 0), Rational::new(1, 1000)), i64::MIN);
    assert_eq!(rescale(5, Rational::new(-1, 25), Rational::new(1, 1000)), i64::MIN);
    assert_eq!(rescale(i64::MAX, Rational::new(1, 1), Rational::new(1, 1000)), i64::MIN);
}

#[test]
fn timestamp_to_millisecond_of_a_ten_second_file() {
    assert_eq!(timestamp_to_millisecond(10_000_000, Rational::new(1, 1_000_000)), 10_000);
    assert_eq!(timestamp_to_millisecond(441_000, Rational::new(1, 44_100)), 10_000);
}

#[test]
fn volume_steps_stay_between_silence_and_full() {
    assert_eq!(Volume::plus_volume(500), 505);
    assert_eq!(Volume::plus_volume(996), 1000);
    assert_eq!(Volume::plus_volume(1000), 1000);
    assert_eq!(Volume::minus_volume(500), 495);
    assert_eq!(Volume::minus_volume(4), 0);
    assert_eq!(Volume::minus_volume(0), 0);
    assert_eq!(Volume::plus_volume(i64::MAX), 1000);
    assert_eq!(Volume::minus_volume(i64::MIN), 0);
}

fn entry(name: &str) -> EntryName {
    let extension = std::path::Path::new(name)
        .extension()
        .map(|e| e.to_string_lossy().as_bytes().to_vec());
    EntryName { name: name.as_bytes().to_vec(), extension }
}

#[test]
fn subtitle_files_share_the_stem_and_carry_a_subtitle_extension() {
    let entries: Vec<_> = [
        "movie.mkv",
        "movie.srt",
        "movie.en.ass",
        "other.srt",
        "movie.txt",
        "movie",
        "movie.ssa",
        "movie2.sub",
        "mov.smi",
        "movie.smi",
        "movie.SRT",
        "movie.srt.bak",
    ]
    .iter()
    .map(|n| entry(n))
    .collect();
    let picks = SubTitle::sub_files(
        &b"movie.mkv".to_vec(),
        &b"movie".to_vec(),
        &entries,
    );
    // movie.en.ass, movie.smi, movie.srt, movie.ssa, movie2.sub
    assert_eq!(picks, vec![2, 9, 1, 6, 7]);
}

#[test]
fn the_media_file_itself_is_no_subtitle_file() {
    let entries = vec![entry("talk.sub"), entry("talk.srt")];
    let picks = SubTitle::sub_files(&b"talk.sub".to_vec(), &b"talk".to_vec(), &entries);
    assert_eq!(picks, vec![1]);
    let none = SubTitle::sub_files(&b"talk.sub".to_vec(), &b"talk".to_vec(), &vec![]);
    assert_eq!(none, Vec::<usize>::new());
}

#[test]
fn byte_strings_are_compared_byte_by_byte() {
    assert!(bytes_eq(&b"abc".to_vec(), &b"abc".to_vec()));
    assert!(!bytes_eq(&b"abc".to_vec(), &b"abd".to_vec()));
    assert!(!bytes_eq(&b"abc".to_vec(), &b"ab".to_vec()));
    assert!(bytes_eq(&vec![], &vec![]));
    assert!(bytes_start_with(&b"abc".to_vec(), &b"ab".to_vec()));
    assert!(bytes_start_with(&b"abc".to_vec(), &b"".to_vec()));
    assert!(bytes_start_with(&b"abc".to_vec(), &b"abc".to_vec()));
    assert!(!bytes_start_with(&b"abc".to_vec(), &b"abcd".to_vec()));
    assert!(!bytes_start_with(&b"abc".to_vec(), &b"b".to_vec()));
    for known in ["srt", "ass", "ssa", "sub", "smi"] {
        assert!(subtitle_extension(&known.as_bytes().to_vec()));
    }
    for unknown in ["", "sr", "srtx", "SRT", "txt", "sbu", "asa"] {
        assert!(!subtitle_extension(&unknown.as_bytes().to_vec()));
    }
}

fn names(list: &[&str]) -> Vec<Vec<u8>> {
    list.iter().map(|n| n.as_bytes().to_vec()).collect()
}

#[test]
fn demuxer_names_are_parted_sorted_and_listed_once() {
    let raw = names(&["mov,mp4,m4a,3gp,3g2,mj2", "matroska,webm", "avi", "mp4", "webm,ogg"]);
    assert_eq!(
        FfmpegKit::demuxers(&raw),
        names(&["3g2", "3gp", "avi", "m4a", "matroska", "mj2", "mkv", "mov", "mp4", "ogg", "webm"])
    );
}

#[test]
fn mkv_is_always_among_the_demuxer_names() {
    assert_eq!(FfmpegKit::demuxers(&names(&[])), names(&["mkv"]));
    assert_eq!(FfmpegKit::demuxers(&names(&["mkv"])), names(&["mkv"]));
    assert_eq!(FfmpegKit::demuxers(&names(&["avi,mkv,avi"])), names(&["avi", "mkv"]));
}

#[test]
fn empty_names_between_commas_are_names_too() {
    assert_eq!(FfmpegKit::demuxers(&names(&["b,,a"])), names(&["", "a", "b", "mkv"]));
    assert_eq!(FfmpegKit::demuxers(&names(&[""])), names(&["", "mkv"]));
    assert_eq!(FfmpegKit::demuxers(&names(&[","])), names(&["", "mkv"]));
    assert_eq!(FfmpegKit::demuxers(&names(&["x,"])), names(&["", "mkv", "x"]));
}

#[test]
fn subtitle_files_come_in_the_order_of_their_names() {
    let entries: Vec<_> = ["b.srt", "a.srt", "c.ass", "a.ass", "b.srt"].iter().map(|n| entry(n)).collect();
    let picks = SubTitle::sub_files(&b"x.mkv".to_vec(), &b"".to_vec(), &entries);
    // a.ass, a.srt, b.srt, b.srt, c.ass: names that are the same keep the order of the listing
    assert_eq!(picks, vec![3, 1, 0, 4, 2]);
}
