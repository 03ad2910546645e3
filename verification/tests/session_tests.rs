use safclip_controller::model::Segment;
use safclip_controller::session::{new_session_data, session_path, validate, SessionValidation};

fn seg(id: &str, start_ns: i64, end_ns: i64, label: Option<&str>) -> Segment {
    Segment {
        id: id.to_string(),
        start_ns,
        end_ns,
        label: label.map(|l| l.to_string()),
    }
}

#[test]
fn test_session_path() {
    assert_eq!(session_path("/path/to/video.mp4"), "/path/to/video.mp4.safclip.json");
    assert_eq!(session_path("video.mp4"), "video.mp4.safclip.json");
}

#[test]
fn test_save_load_validate() {
    let video_file = "/tmp/test_video.mp4";
    let segments = vec![
        seg("uuid-1", 1_000_000_000, 5_500_000_000, Some("Introduction")),
        seg("uuid-2", 10_000_000_000, 20_000_000_000, None),
    ];
    let loaded = new_session_data(video_file.to_string(), 1_700_000_000, segments);
    assert_eq!(loaded.version, 1);
    assert_eq!(loaded.segments.len(), 2);
    assert_eq!(loaded.segments[0].id, "uuid-1");
    assert_eq!(loaded.segments[0].start_ns, 1_000_000_000);
    assert_eq!(loaded.segments[0].end_ns, 5_500_000_000);
    assert_eq!(loaded.segments[0].label.as_deref(), Some("Introduction"));
    assert_eq!(loaded.segments[1].id, "uuid-2");
    assert_eq!(loaded.segments[1].label, None);

    let validation = validate(&loaded, &video_file.to_string(), true, Some(1_700_000_000));
    assert!(validation.is_valid());
    assert!(validation.source_exists);
    assert!(validation.path_match);
    assert!(validation.modified_match);
}

#[test]
fn session_path_keeps_directory_and_adds_suffix() {
    assert_eq!(session_path("/a/b c/clip.mkv"), "/a/b c/clip.mkv.safclip.json");
}

#[test]
fn validate_reports_changed_source() {
    let data = new_session_data("/v/a.mp4".to_string(), 100, Vec::new());
    let moved = validate(&data, &"/w/a.mp4".to_string(), true, Some(100));
    assert_eq!(
        moved,
        SessionValidation { path_match: false, modified_match: true, source_exists: true }
    );
    assert!(!moved.is_valid());

    let touched = validate(&data, &"/v/a.mp4".to_string(), true, Some(101));
    assert!(touched.path_match);
    assert!(!touched.modified_match);
    assert!(!touched.is_valid());

    let unknown_time = validate(&data, &"/v/a.mp4".to_string(), true, None);
    assert!(!unknown_time.modified_match);

    let missing = validate(&data, &"/v/a.mp4".to_string(), false, Some(100));
    assert!(!missing.source_exists);
    assert!(!missing.modified_match);
    assert!(!missing.is_valid());
}

#[test]
fn session_path_joins_like_std() {
    assert_eq!(session_path("/a/b/"), "/a/b.safclip.json");
    assert_eq!(session_path("/clip.mp4"), "/clip.mp4.safclip.json");
}
