use safclip_controller::export::{
    clip_bounds, counted_label, export_preflight, merge_preflight, progress_message,
};
use safclip_controller::model::{format_time, MediaMetadata, Segment};
use safclip_controller::player::{percent_decode, source_path_from_url};
use safclip_controller::scan::{find_chars, first_word_chars, split_chars, trim_chars};
use safclip_controller::text::decimal_string;

fn chars(s: &str) -> Vec<char> {
    s.chars().collect()
}

fn seg(start_ns: i64, end_ns: i64) -> Segment {
    Segment { id: "s".to_string(), start_ns, end_ns, label: None }
}

#[test]
fn model_format_time_truncates_milliseconds() {
    assert_eq!(format_time(0), "00:00.000");
    assert_eq!(format_time(-1), "00:00.000");
    assert_eq!(format_time(61_999_999_999), "01:01.999");
    assert_eq!(format_time(3_725_500_000_000), "62:05.500");
}

#[test]
fn segment_duration_and_bounds() {
    assert_eq!(seg(1_000_000_000, 3_500_000_000).duration_seconds(), 2_500_000_000);
    assert_eq!(seg(1_000_000_000, 3_500_000_000).validate_bounds(), Ok(()));
    assert_eq!(
        seg(-1, 3).validate_bounds(),
        Err("Segment start must be greater than or equal to 0".to_string())
    );
    assert_eq!(
        seg(3, 3).validate_bounds(),
        Err("Segment end must be greater than start".to_string())
    );
}

#[test]
fn metadata_validation() {
    let mut m = MediaMetadata {
        source_path: "/v.mp4".to_string(),
        duration_ns: 10,
        format_name: None,
        keyframes_ns: vec![0, 4, 4, 9],
    };
    assert_eq!(m.validate(), Ok(()));
    m.keyframes_ns = vec![0, 5, 4];
    assert_eq!(m.validate(), Err("Keyframes must be sorted in ascending order".to_string()));
    m.duration_ns = 0;
    assert_eq!(m.validate(), Err("Media duration must be a positive finite number".to_string()));
}

#[test]
fn clip_bounds_validate_then_snap() {
    let m = MediaMetadata {
        source_path: "/v.mp4".to_string(),
        duration_ns: 10_000_000_000,
        format_name: None,
        keyframes_ns: vec![0, 4_000_000_000, 8_000_000_000, 10_000_000_000],
    };
    assert_eq!(clip_bounds(&seg(5_000_000_000, 6_000_000_000), &m), Ok((4_000_000_000, 8_000_000_000)));
    assert_eq!(
        clip_bounds(&seg(-5, 6_000_000_000), &m),
        Err("Segment start must be greater than or equal to 0".to_string())
    );
    assert_eq!(
        clip_bounds(&seg(6_000_000_000, 6_000_000_000), &m),
        Err("Segment end must be greater than start".to_string())
    );
}

#[test]
fn preflight_checks() {
    assert_eq!(export_preflight("/v.mp4", 0, true), Err("No segments to export".to_string()));
    assert_eq!(export_preflight("/v.mp4", 0, false), Err("No segments to export".to_string()));
    assert_eq!(
        merge_preflight("/v.mp4", 0, true),
        Err("No segments were provided for merge".to_string())
    );
    assert_eq!(
        export_preflight("/missing/v.mp4", 2, false),
        Err("Source file not found: /missing/v.mp4".to_string())
    );
    assert_eq!(
        merge_preflight("/missing/v.mp4", 2, false),
        Err("Source file does not exist: /missing/v.mp4".to_string())
    );
    assert_eq!(export_preflight("/v.mp4", 1, true), Ok(()));
    assert_eq!(merge_preflight("/v.mp4", 3, true), Ok(()));
}

#[test]
fn progress_messages() {
    assert_eq!(counted_label("Exporting clip", 2, 5), "Exporting clip 2/5");
    assert_eq!(
        progress_message("Exporting clip 1/1", 5_000_000_000, 20_000_000_000),
        Some("Exporting clip 1/1: 25.0%".to_string())
    );
    assert_eq!(progress_message("x", 1, 3), Some("x: 33.3%".to_string()));
    assert_eq!(progress_message("x", 2, 3), Some("x: 66.7%".to_string()));
    assert_eq!(progress_message("x", -1, 3), Some("x: 0.0%".to_string()));
    assert_eq!(progress_message("x", 50, 3), Some("x: 100.0%".to_string()));
    assert_eq!(progress_message("x", 1, 0), None);
}

#[test]
fn percent_decoding() {
    assert_eq!(percent_decode("a%20b"), Some("a b".to_string()));
    assert_eq!(percent_decode("%C3%A9t%C3%A9"), Some("été".to_string()));
    assert_eq!(percent_decode("plain"), Some("plain".to_string()));
    assert_eq!(percent_decode("bad%2"), None);
    assert_eq!(percent_decode("bad%zz"), None);
    assert_eq!(percent_decode("%FF"), None);
}

#[test]
fn track_urls_become_paths() {
    assert_eq!(source_path_from_url("file:///home/me/My%20Video.mp4"), "/home/me/My Video.mp4");
    assert_eq!(source_path_from_url("file:///tmp/100%"), "/tmp/100%");
    assert_eq!(source_path_from_url("https://example.com/a.mp4"), "https://example.com/a.mp4");
}

#[test]
fn scanning_helpers() {
    let parts = split_chars(&chars("00:01:02.5"), ':');
    assert_eq!(parts, vec![chars("00"), chars("01"), chars("02.5")]);
    assert_eq!(split_chars(&chars(""), ':'), vec![chars("")]);
    assert_eq!(find_chars(&chars("abc time=1"), &chars("time=")), Some(4));
    assert_eq!(find_chars(&chars("abc"), &chars("time=")), None);
    assert_eq!(first_word_chars(&chars("  12.5 rest")), chars("12.5"));
    assert_eq!(trim_chars(&chars("\t x y \n")), chars("x y"));
    assert_eq!(decimal_string(0), "0");
    assert_eq!(decimal_string(18_446_744_073_709_551_615), "18446744073709551615");
}
