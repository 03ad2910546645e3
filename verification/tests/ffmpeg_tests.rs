use safclip_controller::ffmpeg::concat::{
    build_concat_args, merged_candidate, merged_output_path, part_file_name, pick_merged_output_path,
};
use safclip_controller::ffmpeg::cut::{
    build_copy_cut_args, clip_output_candidate, concat_list_text, format_fixed6,
    next_clip_output_path, pick_clip_output_path, snap_bounds_to_keyframes, source_extension,
};
use safclip_controller::ffmpeg::probe::{
    finish_metadata, keyframe_times, normalize_keyframes, probe_duration,
};
use safclip_controller::ffmpeg::progress::{
    extract_time_seconds, parse_ffmpeg_time_to_seconds, parse_seconds,
};

fn chars(s: &str) -> Vec<char> {
    s.chars().collect()
}

#[test]
fn snap_moves_bounds_outward_to_keyframes() {
    let kf = vec![0, 2_000_000_000, 4_000_000_000, 6_000_000_000];
    assert_eq!(
        snap_bounds_to_keyframes(2_500_000_000, 5_500_000_000, &kf, 10_000_000_000),
        Ok((2_000_000_000, 6_000_000_000))
    );
    // Bounds on keyframes stay.
    assert_eq!(
        snap_bounds_to_keyframes(2_000_000_000, 4_000_000_000, &kf, 10_000_000_000),
        Ok((2_000_000_000, 4_000_000_000))
    );
    // Past the last keyframe the media's end is the cut point.
    assert_eq!(
        snap_bounds_to_keyframes(7_000_000_000, 8_000_000_000, &kf, 10_000_000_000),
        Ok((6_000_000_000, 10_000_000_000))
    );
}

#[test]
fn snap_clamps_to_the_media() {
    let kf = vec![3_000_000_000];
    assert_eq!(
        snap_bounds_to_keyframes(-5_000_000_000, 50_000_000_000, &kf, 10_000_000_000),
        Ok((0, 10_000_000_000))
    );
    // Keyframes outside the media are ignored.
    let outside = vec![-1_000_000_000, 12_000_000_000, 5_000_000_000];
    assert_eq!(
        snap_bounds_to_keyframes(6_000_000_000, 7_000_000_000, &outside, 10_000_000_000),
        Ok((5_000_000_000, 10_000_000_000))
    );
}

#[test]
fn snap_without_keyframes_only_clamps() {
    assert_eq!(
        snap_bounds_to_keyframes(1_000_000_000, 2_500_000_000, &Vec::new(), 10_000_000_000),
        Ok((1_000_000_000, 2_500_000_000))
    );
    assert_eq!(
        snap_bounds_to_keyframes(11_000_000_000, 12_000_000_000, &Vec::new(), 10_000_000_000),
        Err("Segment has no positive duration after clamping".to_string())
    );
}

#[test]
fn snap_errors() {
    let kf = vec![0, 5_000_000_000];
    assert_eq!(
        snap_bounds_to_keyframes(1, 2, &kf, 0),
        Err("Media duration must be a positive finite number".to_string())
    );
    assert_eq!(
        snap_bounds_to_keyframes(3, 3, &kf, 10),
        Err("Segment end must be greater than start".to_string())
    );
    // A segment that starts at the media's end has no cut point after it.
    assert_eq!(
        snap_bounds_to_keyframes(10_000_000_000, 11_000_000_000, &kf, 10_000_000_000),
        Err("Unable to find a keyframe-aligned end after snapped start".to_string())
    );
}

#[test]
fn fixed6_writes_six_decimals() {
    assert_eq!(format_fixed6(0), "0.000000");
    assert_eq!(format_fixed6(1_500_000_000), "1.500000");
    assert_eq!(format_fixed6(62_000_001_000), "62.000001");
    assert_eq!(format_fixed6(-250_000_000), "-0.250000");
    assert_eq!(format_fixed6(1_999_999_500), "2.000000");
    assert_eq!(format_fixed6(1_000_000_499), "1.000000");
    assert_eq!(format_fixed6(-400), "-0.000000");
}

#[test]
fn copy_cut_arguments() {
    let args = build_copy_cut_args("/in/a.mp4", 1_000_000_000, 3_500_000_000, "/out/a-clip-001.mp4");
    let expected: Vec<String> = [
        "-hide_banner", "-y", "-ss", "1.000000", "-i", "/in/a.mp4", "-t", "2.500000", "-map", "0",
        "-c", "copy", "-avoid_negative_ts", "make_zero", "/out/a-clip-001.mp4",
    ]
    .iter()
    .map(|s| s.to_string())
    .collect();
    assert_eq!(args, expected);
}

#[test]
fn concat_arguments() {
    let args = build_concat_args("/tmp/list.txt", "/out/m.mp4");
    let expected: Vec<String> = [
        "-hide_banner", "-y", "-f", "concat", "-safe", "0", "-i", "/tmp/list.txt", "-map", "0",
        "-c", "copy", "/out/m.mp4",
    ]
    .iter()
    .map(|s| s.to_string())
    .collect();
    assert_eq!(args, expected);
}

#[test]
fn concat_list_escapes_quotes_and_backslashes() {
    let files = vec!["/tmp/part-000.mp4".to_string(), "/tmp/it's\\x.mp4".to_string()];
    assert_eq!(
        concat_list_text(&files),
        "file '/tmp/part-000.mp4'\nfile '/tmp/it\\'s\\\\x.mp4'\n"
    );
    assert_eq!(concat_list_text(&Vec::new()), "");
}

#[test]
fn output_names() {
    assert_eq!(clip_output_candidate("/v", "talk", 7, "mkv"), "/v/talk-clip-007.mkv");
    assert_eq!(clip_output_candidate("/v", "talk", 1234, "mkv"), "/v/talk-clip-1234.mkv");
    assert_eq!(merged_candidate("/v", "talk", 0, "mp4"), "/v/talk-merged.mp4");
    assert_eq!(merged_candidate("/v", "talk", 12, "mp4"), "/v/talk-merged-012.mp4");
    assert_eq!(part_file_name(3, "webm"), "part-003.webm");
    assert_eq!(source_extension("/v/talk.mkv"), "mkv");
    assert_eq!(source_extension("/v/talk"), "mp4");
}

#[test]
fn next_clip_path_skips_nothing_when_free() {
    let p = next_clip_output_path("/nonexistent-dir-for-tests/movie.mov", 1).unwrap();
    assert_eq!(p, "/nonexistent-dir-for-tests/movie-clip-001.mov");
    let q = next_clip_output_path("/nonexistent-dir-for-tests/movie", 42).unwrap();
    assert_eq!(q, "/nonexistent-dir-for-tests/movie-clip-042.mp4");
}

#[test]
fn next_clip_path_needs_a_parent() {
    assert_eq!(
        next_clip_output_path("/", 1),
        Err("Source path has no parent directory".to_string())
    );
}

#[test]
fn parse_seconds_reads_decimal_seconds() {
    assert_eq!(parse_seconds(&chars("12")), Some(12_000_000_000));
    assert_eq!(parse_seconds(&chars("2.5")), Some(2_500_000_000));
    assert_eq!(parse_seconds(&chars("-1.25")), Some(-1_250_000_000));
    assert_eq!(parse_seconds(&chars("+.5")), Some(500_000_000));
    assert_eq!(parse_seconds(&chars("3.")), Some(3_000_000_000));
    assert_eq!(parse_seconds(&chars("0.0000019")), Some(1_900));
    assert_eq!(parse_seconds(&chars("0.0000000019")), Some(1));
    assert_eq!(parse_seconds(&chars("")), None);
    assert_eq!(parse_seconds(&chars(".")), None);
    assert_eq!(parse_seconds(&chars("N/A")), None);
}

#[test]
fn ffmpeg_clock_is_read() {
    assert_eq!(parse_ffmpeg_time_to_seconds("00:01:02.50"), Some(62_500_000_000));
    assert_eq!(parse_ffmpeg_time_to_seconds("01:00:00.00"), Some(3_600_000_000_000));
    assert_eq!(parse_ffmpeg_time_to_seconds("01:02"), None);
    assert_eq!(parse_ffmpeg_time_to_seconds("aa:00:00"), None);
}

#[test]
fn progress_line_time_is_extracted() {
    assert_eq!(
        extract_time_seconds("frame=  100 fps=25 size=1024kB time=00:01:02.50 bitrate=128kbits/s"),
        Some(62_500_000_000)
    );
    assert_eq!(extract_time_seconds("time=N/A speed=1x"), None);
    assert_eq!(extract_time_seconds("no marker here"), None);
    assert_eq!(extract_time_seconds("time="), None);
}

#[test]
fn probe_duration_is_read() {
    assert_eq!(probe_duration(&Some("12.345".to_string())), Ok(12_345_000_000));
    assert!(probe_duration(&None).is_err());
    assert!(probe_duration(&Some("abc".to_string())).is_err());
    assert!(probe_duration(&Some("0".to_string())).is_err());
}

#[test]
fn keyframe_times_skip_unreadable_entries() {
    let raw = vec![
        Some("0.000000".to_string()),
        None,
        Some("2.002".to_string()),
        Some("x".to_string()),
    ];
    assert_eq!(keyframe_times(&raw), vec![0, 2_002_000_000]);
}

#[test]
fn keyframes_are_normalized() {
    let raw = vec![5_000_000_000, 1_000_000_000, 5_000_000_000, -3, 20_000_000_000];
    assert_eq!(
        normalize_keyframes(&raw, 10_000_000_000),
        vec![0, 1_000_000_000, 5_000_000_000, 10_000_000_000]
    );
    let meta = finish_metadata("/v/a.mp4".to_string(), 10_000_000_000, Some("mov".to_string()), &raw);
    assert_eq!(meta.keyframes_ns, vec![0, 1_000_000_000, 5_000_000_000, 10_000_000_000]);
    assert_eq!(meta.duration_ns, 10_000_000_000);
    assert_eq!(meta.format_name.as_deref(), Some("mov"));
    assert_eq!(meta.validate(), Ok(()));
}

#[test]
fn clip_name_is_the_first_reported_free() {
    let src = "/v/a.mp4";
    assert_eq!(pick_clip_output_path(src, 1, &vec![false]), Ok("/v/a-clip-001.mp4".to_string()));
    assert_eq!(
        pick_clip_output_path(src, 1, &vec![true, true, false, false]),
        Ok("/v/a-clip-003.mp4".to_string())
    );
    assert_eq!(
        pick_clip_output_path(src, 999_999, &vec![true]),
        Err("Unable to allocate a unique output file name".to_string())
    );
    assert_eq!(
        pick_clip_output_path(src, 999_999, &vec![true, false]),
        Err("Unable to allocate a unique output file name".to_string())
    );
    assert_eq!(
        pick_clip_output_path(src, 2_000_000, &vec![false]),
        Ok("/v/a-clip-2000000.mp4".to_string())
    );
    assert_eq!(
        pick_clip_output_path("/", 1, &vec![false]),
        Err("Source path has no parent directory".to_string())
    );
    let p = next_clip_output_path("/nonexistent-dir-for-tests/x.mkv", u32::MAX).unwrap();
    assert_eq!(p, "/nonexistent-dir-for-tests/x-clip-4294967295.mkv");
}

#[test]
fn merged_name_prefers_the_unnumbered_one() {
    let src = "/v/a.mp4";
    assert_eq!(pick_merged_output_path(src, &vec![false]), Ok("/v/a-merged.mp4".to_string()));
    assert_eq!(
        pick_merged_output_path(src, &vec![true, true, false]),
        Ok("/v/a-merged-002.mp4".to_string())
    );
    assert_eq!(
        pick_merged_output_path(src, &vec![true; 1_000_000]),
        Err("Unable to allocate merged output file name".to_string())
    );
    assert_eq!(
        merged_output_path("/nonexistent-dir-for-tests/a.mov"),
        Ok("/nonexistent-dir-for-tests/a-merged.mov".to_string())
    );
}

#[test]
fn parse_seconds_reads_exponents() {
    assert_eq!(parse_seconds(&chars("1e3")), Some(1_000_000_000_000));
    assert_eq!(parse_seconds(&chars("1.5E-3")), Some(1_500_000));
    assert_eq!(parse_seconds(&chars("2.5e-7")), Some(250));
    assert_eq!(parse_seconds(&chars("2.5e-10")), Some(0));
    assert_eq!(parse_seconds(&chars("-1e-6")), Some(-1_000));
    assert_eq!(parse_seconds(&chars("-1e-9")), Some(-1));
    assert_eq!(parse_seconds(&chars("+.5e1")), Some(5_000_000_000));
    assert_eq!(parse_seconds(&chars("1.e2")), Some(100_000_000_000));
    assert_eq!(parse_seconds(&chars("1.0000005e1")), Some(10_000_005_000));
    assert_eq!(parse_seconds(&chars("12345678901234567890e-20")), Some(123_456_789));
    assert_eq!(parse_seconds(&chars("0e99999999999999999999999")), Some(0));
    assert_eq!(parse_seconds(&chars("7e-99999999999999999999999")), Some(0));
    assert_eq!(parse_seconds(&chars("1e400")), None);
    assert_eq!(parse_seconds(&chars("9.3e12")), None);
    assert_eq!(parse_seconds(&chars("-9223372036.854775808")), Some(i64::MIN));
    assert_eq!(parse_seconds(&chars("-9.223372036854775808e9")), Some(i64::MIN));
    assert_eq!(parse_seconds(&chars("1e")), None);
    assert_eq!(parse_seconds(&chars("e5")), None);
    assert_eq!(parse_seconds(&chars("1e+")), None);
    assert_eq!(parse_seconds(&chars("1e2e3")), None);
    assert_eq!(parse_seconds(&chars("inf")), None);
    assert_eq!(parse_seconds(&chars("NaN")), None);
    assert_eq!(parse_ffmpeg_time_to_seconds("0:0:1e1"), Some(10_000_000_000));
}
