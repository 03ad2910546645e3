use safclip_controller::app::{AppState, Effect, ExportMsg, ExportPoll};
use safclip_controller::input::AppAction;
use safclip_controller::model::{AppMode, MediaMetadata, Segment};
use safclip_controller::session::{new_session_data, validate};
use safclip_controller::timeline::TimelineState;

fn seg(id: &str, start_ns: i64, end_ns: i64, label: Option<&str>) -> Segment {
    Segment {
        id: id.to_string(),
        start_ns,
        end_ns,
        label: label.map(|l| l.to_string()),
    }
}

fn state_with_media(path: &str, duration_ns: i64) -> AppState {
    let mut state = AppState::new();
    state.source_path = Some(path.to_string());
    state.metadata = Some(MediaMetadata {
        source_path: path.to_string(),
        duration_ns,
        format_name: Some("mp4".to_string()),
        keyframes_ns: vec![0, 10_000_000_000, 20_000_000_000],
    });
    state.timeline_state = TimelineState::new(duration_ns);
    state
}

fn status(state: &AppState) -> String {
    state.status_message.clone().unwrap_or_default()
}

#[test]
fn test_app_state_session_restore_flow() {
    let path = "/tmp/test_app_video.mp4";
    let mut state = state_with_media(path, 60_000_000_000);
    let session = new_session_data(
        path.to_string(),
        42,
        vec![seg("uuid-123", 5_000_000_000, 15_000_000_000, Some("Restore me"))],
    );
    let validation = validate(&session, &path.to_string(), true, Some(42));
    state.on_session_loaded(session, validation);

    assert_eq!(state.mode, AppMode::SessionRestore);
    assert!(state.pending_session.is_some());
    assert_eq!(state.pending_session.as_ref().unwrap().segments.len(), 1);
    assert_eq!(
        status(&state),
        "Session found: 1 segments from previous session. Restore? [Y/n]"
    );

    let fx = state.apply_action(AppAction::ZoomIn, 0);
    assert!(fx.is_empty());
    assert_eq!(state.mode, AppMode::SessionRestore);
    assert_eq!(state.segments.len(), 0);

    let fx = state.apply_action(AppAction::RestoreSession, 0);
    assert_eq!(fx, vec![Effect::SaveSession]);
    assert_eq!(state.mode, AppMode::Normal);
    assert_eq!(state.segments.len(), 1);
    assert_eq!(state.segments[0].label.as_deref(), Some("Restore me"));
    assert!(state.pending_session.is_none());
    assert_eq!(status(&state), "Session restored.");
}

#[test]
fn test_app_state_session_discard_flow() {
    let path = "/tmp/test_app_video_discard.mp4";
    let mut state = state_with_media(path, 60_000_000_000);
    let session = new_session_data(
        path.to_string(),
        42,
        vec![seg("uuid-123", 5_000_000_000, 15_000_000_000, Some("Restore me"))],
    );
    let validation = validate(&session, &path.to_string(), true, Some(42));
    state.on_session_loaded(session, validation);
    assert_eq!(state.mode, AppMode::SessionRestore);

    let fx = state.apply_action(AppAction::DiscardSession, 0);
    assert_eq!(state.mode, AppMode::Normal);
    assert_eq!(state.segments.len(), 0);
    assert!(state.pending_session.is_none());
    // The (empty) segments are stored again, replacing the old session.
    assert_eq!(fx, vec![Effect::SaveSession]);
    assert_eq!(status(&state), "Session discarded.");
}

#[test]
fn session_with_changed_source_warns() {
    let path = "/tmp/a.mp4";
    let mut state = state_with_media(path, 60_000_000_000);
    let session = new_session_data(path.to_string(), 1, vec![seg("x", 0, 1_000_000_000, None)]);
    let validation = validate(&session, &path.to_string(), true, Some(2));
    state.on_session_loaded(session, validation);
    assert_eq!(state.mode, AppMode::SessionRestore);
    assert_eq!(
        status(&state),
        "Session found: 1 segments. Warning: Source file may have changed, keyframe positions could differ. Restore? [Y/n]"
    );
}

#[test]
fn session_of_missing_source_is_ignored() {
    let path = "/tmp/a.mp4";
    let mut state = state_with_media(path, 60_000_000_000);
    let session = new_session_data(path.to_string(), 1, vec![seg("x", 0, 1_000_000_000, None)]);
    let validation = validate(&session, &path.to_string(), false, None);
    state.on_session_loaded(session, validation);
    assert_eq!(state.mode, AppMode::Normal);
    assert!(state.pending_session.is_none());
}

fn add_segment(state: &mut AppState, from_ns: i64, to_ns: i64) {
    state.apply_action(AppAction::SeekToStart, 0);
    state.apply_action(AppAction::SeekForward(from_ns), 1_000);
    state.apply_action(AppAction::SetInPoint, 2_000);
    state.apply_action(AppAction::SeekToStart, 3_000);
    state.apply_action(AppAction::SeekForward(to_ns), 4_000);
    state.apply_action(AppAction::SetOutPoint, 5_000);
}

#[test]
fn marking_in_and_out_adds_a_segment() {
    let mut state = state_with_media("/tmp/v.mp4", 60_000_000_000);
    state.apply_action(AppAction::SeekForward(3_000_000_000), 0);
    state.apply_action(AppAction::SetInPoint, 0);
    assert_eq!(state.pending_in_point, Some(3_000_000_000));
    assert_eq!(status(&state), "In-point set at 00:03.000");
    state.apply_action(AppAction::SeekForward(4_500_000_000), 0);
    let fx = state.apply_action(AppAction::SetOutPoint, 0);
    assert_eq!(fx, vec![Effect::SaveSession]);
    assert_eq!(state.segments.len(), 1);
    assert_eq!(state.segments[0].start_ns, 3_000_000_000);
    assert_eq!(state.segments[0].end_ns, 7_500_000_000);
    assert!(!state.segments[0].id.is_empty());
    assert!(state.pending_in_point.is_none());
    assert_eq!(status(&state), "Segment added: 00:03.000 - 00:07.500");
    assert_eq!(state.selected_segment, Some(0));
}

#[test]
fn segment_ids_differ() {
    let mut state = state_with_media("/tmp/v.mp4", 60_000_000_000);
    add_segment(&mut state, 1_000_000_000, 2_000_000_000);
    add_segment(&mut state, 3_000_000_000, 4_000_000_000);
    assert_eq!(state.segments.len(), 2);
    assert_ne!(state.segments[0].id, state.segments[1].id);
}

#[test]
fn reversed_marks_are_swapped() {
    let mut state = state_with_media("/tmp/v.mp4", 60_000_000_000);
    add_segment(&mut state, 9_000_000_000, 4_000_000_000);
    assert_eq!(state.segments[0].start_ns, 4_000_000_000);
    assert_eq!(state.segments[0].end_ns, 9_000_000_000);
}

#[test]
fn added_segments_stay_ordered_by_start() {
    let mut state = state_with_media("/tmp/v.mp4", 60_000_000_000);
    add_segment(&mut state, 30_000_000_000, 40_000_000_000);
    add_segment(&mut state, 5_000_000_000, 8_000_000_000);
    add_segment(&mut state, 15_000_000_000, 20_000_000_000);
    let starts: Vec<i64> = state.segments.iter().map(|s| s.start_ns).collect();
    assert_eq!(starts, vec![5_000_000_000, 15_000_000_000, 30_000_000_000]);
}

#[test]
fn undo_then_redo_restores_the_edit() {
    let mut state = state_with_media("/tmp/v.mp4", 60_000_000_000);
    add_segment(&mut state, 1_000_000_000, 2_000_000_000);
    assert_eq!(state.segments.len(), 1);
    assert_eq!(state.undo_stack.len(), 1);

    let fx = state.apply_action(AppAction::Undo, 10_000);
    assert_eq!(state.segments.len(), 0);
    assert_eq!(state.redo_stack.len(), 1);
    assert!(fx.contains(&Effect::SaveSession));

    state.apply_action(AppAction::Redo, 20_000);
    assert_eq!(state.segments.len(), 1);
    assert_eq!(state.segments[0].start_ns, 1_000_000_000);
    assert_eq!(state.segments[0].end_ns, 2_000_000_000);
    assert_eq!(state.redo_stack.len(), 0);
}

#[test]
fn undo_with_empty_history_does_nothing_to_segments() {
    let mut state = state_with_media("/tmp/v.mp4", 60_000_000_000);
    state.apply_action(AppAction::Undo, 0);
    assert_eq!(state.segments.len(), 0);
    assert_eq!(state.undo_stack.len(), 0);
    assert_eq!(state.redo_stack.len(), 0);
}

#[test]
fn new_edit_forgets_redo() {
    let mut state = state_with_media("/tmp/v.mp4", 60_000_000_000);
    add_segment(&mut state, 1_000_000_000, 2_000_000_000);
    state.apply_action(AppAction::Undo, 0);
    assert_eq!(state.redo_stack.len(), 1);
    add_segment(&mut state, 3_000_000_000, 4_000_000_000);
    assert_eq!(state.redo_stack.len(), 0);
}

#[test]
fn delete_removes_selected_segment() {
    let mut state = state_with_media("/tmp/v.mp4", 60_000_000_000);
    add_segment(&mut state, 1_000_000_000, 2_000_000_000);
    add_segment(&mut state, 5_000_000_000, 6_000_000_000);
    state.selected_segment = Some(0);
    state.apply_action(AppAction::DeleteSegment, 0);
    assert_eq!(state.segments.len(), 1);
    assert_eq!(state.segments[0].start_ns, 5_000_000_000);
    assert_eq!(status(&state), "Segment deleted");
}

#[test]
fn out_point_without_in_point_asks_for_one() {
    let mut state = state_with_media("/tmp/v.mp4", 60_000_000_000);
    let fx = state.apply_action(AppAction::SetOutPoint, 0);
    assert!(fx.is_empty());
    assert_eq!(status(&state), "Set in-point first (Press 'a')");
}

#[test]
fn out_point_without_in_point_moves_segment_end() {
    let mut state = state_with_media("/tmp/v.mp4", 60_000_000_000);
    add_segment(&mut state, 1_000_000_000, 2_000_000_000);
    state.apply_action(AppAction::SeekToStart, 0);
    state.apply_action(AppAction::SeekForward(8_000_000_000), 0);
    state.apply_action(AppAction::SetOutPoint, 0);
    assert_eq!(state.segments[0].end_ns, 8_000_000_000);
    assert_eq!(status(&state), "Segment updated: 00:01.000 - 00:08.000");
}

#[test]
fn seeking_is_limited_to_the_media() {
    let mut state = state_with_media("/tmp/v.mp4", 10_000_000_000);
    state.apply_action(AppAction::SeekForward(25_000_000_000), 0);
    assert_eq!(state.current_time, 10_000_000_000);
    state.apply_action(AppAction::SeekBackward(30_000_000_000), 0);
    assert_eq!(state.current_time, 0);
    state.apply_action(AppAction::SeekToEnd, 0);
    assert_eq!(state.current_time, 10_000_000_000);
}

#[test]
fn snap_to_keyframe_picks_nearest() {
    let mut state = state_with_media("/tmp/v.mp4", 60_000_000_000);
    state.apply_action(AppAction::SeekForward(13_000_000_000), 0);
    state.apply_action(AppAction::SnapToKeyframe, 0);
    assert_eq!(state.current_time, 10_000_000_000);
    assert_eq!(status(&state), "Snapped to keyframe: 00:10.000");
}

#[test]
fn label_editing_sets_and_clears_label() {
    let mut state = state_with_media("/tmp/v.mp4", 60_000_000_000);
    add_segment(&mut state, 1_000_000_000, 2_000_000_000);
    state.selected_segment = Some(0);
    state.apply_action(AppAction::EditLabel, 0);
    assert_eq!(state.mode, AppMode::EditLabel);
    state.apply_action(AppAction::Char('h'), 0);
    state.apply_action(AppAction::Char('i'), 0);
    state.apply_action(AppAction::Char('x'), 0);
    state.apply_action(AppAction::Backspace, 0);
    let fx = state.apply_action(AppAction::ConfirmSegment, 0);
    assert_eq!(fx, vec![Effect::SaveSession]);
    assert_eq!(state.mode, AppMode::Normal);
    assert_eq!(state.segments[0].label.as_deref(), Some("hi"));

    state.apply_action(AppAction::EditLabel, 0);
    assert_eq!(state.label_input, "hi");
    state.apply_action(AppAction::Backspace, 0);
    state.apply_action(AppAction::Backspace, 0);
    state.apply_action(AppAction::ConfirmSegment, 0);
    assert_eq!(state.segments[0].label, None);
}

#[test]
fn edit_label_needs_a_selection() {
    let mut state = state_with_media("/tmp/v.mp4", 60_000_000_000);
    state.apply_action(AppAction::EditLabel, 0);
    assert_eq!(state.mode, AppMode::Normal);
    assert_eq!(status(&state), "Select a segment to label");
}

#[test]
fn export_requests_become_effects() {
    let mut state = state_with_media("/tmp/v.mp4", 60_000_000_000);
    add_segment(&mut state, 1_000_000_000, 2_000_000_000);
    let fx = state.apply_action(AppAction::Export, 0);
    assert_eq!(fx, vec![Effect::ExportSeparate("/tmp/v.mp4".to_string())]);
    assert!(state.is_exporting);
    assert_eq!(state.mode, AppMode::Export);
    assert_eq!(status(&state), "Exporting separate clips...");
    let fx = state.apply_action(AppAction::ExportMerged, 0);
    assert_eq!(fx, vec![Effect::ExportMerged("/tmp/v.mp4".to_string())]);
    assert_eq!(status(&state), "Exporting merged clip...");

    let done = state.poll_export(ExportPoll::Message(ExportMsg::Progress("half".to_string())));
    assert!(!done);
    assert_eq!(status(&state), "half");
    let done = state.poll_export(ExportPoll::Message(ExportMsg::Done(vec![
        "a".to_string(),
        "b".to_string(),
    ])));
    assert!(done);
    assert!(!state.is_exporting);
    assert_eq!(state.mode, AppMode::Normal);
    assert_eq!(status(&state), "Exported 2 clips successfully.");
}

#[test]
fn export_failures_are_reported() {
    let mut state = state_with_media("/tmp/v.mp4", 60_000_000_000);
    state.is_exporting = true;
    state.mode = AppMode::Export;
    let done = state.poll_export(ExportPoll::Message(ExportMsg::Failed("boom".to_string())));
    assert!(done);
    assert_eq!(status(&state), "Export failed: boom");
    assert!(!state.is_exporting);

    state.is_exporting = true;
    let done = state.poll_export(ExportPoll::Message(ExportMsg::MergedDone("/o.mp4".to_string())));
    assert!(done);
    assert_eq!(status(&state), "Merged clip exported to: /o.mp4");

    assert!(!state.poll_export(ExportPoll::Empty));
    state.is_exporting = true;
    assert!(state.poll_export(ExportPoll::Disconnected));
    assert!(!state.is_exporting);
}

#[test]
fn timecodes_render_hours_only_when_needed() {
    let state = AppState::new();
    assert_eq!(state.format_time(0), "00:00.000");
    assert_eq!(state.format_time(-5), "00:00.000");
    assert_eq!(state.format_time(75_250_000_000), "01:15.250");
    assert_eq!(state.format_time(3_723_004_000_000), "01:02:03.004");
    assert_eq!(state.format_time(1_999_600_000), "00:01.1000");
}

#[test]
fn probe_result_starts_session_load() {
    let mut state = AppState::new();
    let fx = state.start_probing("/tmp/x.mp4".to_string());
    assert_eq!(fx, vec![Effect::StartProbe("/tmp/x.mp4".to_string())]);
    assert!(state.is_probing);
    assert_eq!(state.source_path.as_deref(), Some("/tmp/x.mp4"));

    let meta = MediaMetadata {
        source_path: "/tmp/x.mp4".to_string(),
        duration_ns: 30_000_000_000,
        format_name: None,
        keyframes_ns: vec![0, 2_000_000_000],
    };
    let fx = state.on_probe_result(Ok(meta));
    assert_eq!(fx, vec![Effect::LoadSession("/tmp/x.mp4".to_string())]);
    assert!(!state.is_probing);
    assert_eq!(state.timeline_state.duration, 30_000_000_000);
    assert_eq!(status(&state), "Keyframe probing complete.");

    let fx = state.on_probe_result(Err("no ffprobe".to_string()));
    assert!(fx.is_empty());
    assert_eq!(status(&state), "Probing failed: no ffprobe");
}

#[test]
fn players_are_cycled_in_order() {
    let mut state = AppState::new();
    state.cli_source_path = Some("/tmp/cli.mp4".to_string());
    let fx = state.refresh_players(vec!["mpv".to_string(), "vlc".to_string()], None);
    assert_eq!(state.active_player(), Some(0));
    assert_eq!(fx, vec![Effect::StartProbe("/tmp/cli.mp4".to_string())]);
    assert_eq!(status(&state), "Switched to player: mpv");
    assert_eq!(state.next_player_index(), Some(1));

    state.cycle_player(Some("/tmp/other.mp4".to_string()));
    assert_eq!(state.active_player(), Some(1));
    assert_eq!(state.next_player_index(), Some(0));

    // A refresh keeps the active player when it is still there.
    let fx = state.refresh_players(vec!["vlc".to_string(), "mpv".to_string()], None);
    assert!(fx.is_empty());
    assert_eq!(state.active_player(), Some(0));

    // Player effects are produced only with an active player.
    let fx = state.apply_action(AppAction::TogglePlay, 0);
    assert_eq!(fx, vec![Effect::PlayerTogglePlay]);
}

#[test]
fn poll_counter_refreshes_every_tenth_tick() {
    let mut state = AppState::new();
    let mut refreshes = 0;
    for _ in 0..30 {
        if state.tick_poll() {
            refreshes += 1;
        }
    }
    assert_eq!(refreshes, 3);
}

#[test]
fn quit_and_help_toggle() {
    let mut state = AppState::new();
    state.apply_action(AppAction::ToggleHelp, 0);
    assert_eq!(state.mode, AppMode::Help);
    state.apply_action(AppAction::ToggleHelp, 0);
    assert_eq!(state.mode, AppMode::Normal);
    state.apply_action(AppAction::Quit, 0);
    assert!(state.should_quit);
}

#[test]
fn segments_get_version_four_uuids() {
    let mut state = state_with_media("/tmp/v.mp4", 60_000_000_000);
    add_segment(&mut state, 1_000_000_000, 2_000_000_000);
    let id = &state.segments[0].id;
    assert_eq!(id.len(), 36);
    for (i, c) in id.chars().enumerate() {
        if i == 8 || i == 13 || i == 18 || i == 23 {
            assert_eq!(c, '-');
        } else {
            assert!(c.is_ascii_digit() || ('a'..='f').contains(&c));
        }
    }
    assert_eq!(id.chars().nth(14), Some('4'));
    assert!(matches!(id.chars().nth(19), Some('8' | '9' | 'a' | 'b')));
}

#[test]
fn closing_a_segment_under_a_given_id() {
    let mut state = state_with_media("/tmp/v.mp4", 60_000_000_000);
    state.apply_action(AppAction::SeekForward(9_000_000_000), 0);
    state.apply_action(AppAction::SetInPoint, 0);
    state.apply_action(AppAction::SeekBackward(5_000_000_000), 0);
    let fx = state.add_segment_with_id("abc".to_string());
    assert_eq!(fx, vec![Effect::SaveSession]);
    assert_eq!(state.segments.len(), 1);
    assert_eq!(state.segments[0].id, "abc");
    assert_eq!(state.segments[0].start_ns, 4_000_000_000);
    assert_eq!(state.segments[0].end_ns, 9_000_000_000);
    assert_eq!(state.segments[0].label, None);
    assert!(state.pending_in_point.is_none());
    assert_eq!(state.undo_stack.len(), 1);
    assert_eq!(status(&state), "Segment added: 00:04.000 - 00:09.000");
}
