//! Properties of the controller as a whole, over the specifications that
//! its operations are verified against.

use vstd::prelude::*;
use crate::app::{
    action_step, covering, new_segment, ordered_by_start, redone, segment_added, segment_added_with,
    undo_recorded, undone, uuid_v4_text, AppState, Effect, lemma_sort_ordered, last_started,
    player_status_step, sort_by_start,
};
use crate::input::{key_action, KeyCode, MOD_ALT, MOD_CONTROL, MOD_NONE, MOD_SHIFT};
use crate::timeline::{
    clamp_int, max_pan_of, zoom_cap, zoom_in_result, zoom_out_result, TimelineState, ZOOM_ONE,
};
use crate::ffmpeg::cut::{clamp_time, cut_point, snap_outcome, snapped, is_floor_point, is_ceil_point, is_next_point};
use crate::ffmpeg::probe::strictly_increasing;
use crate::input::AppAction;
use crate::model::{nondecreasing, AppMode, Segment};

verus! {

/// Undo takes back an edit: once an edit has recorded the state it changed,
/// and nothing else has been recorded since, undoing brings back that state's
/// segments, selection and playhead.
pub proof fn law_undo_reverts_edit(
    before: AppState,
    edited: AppState,
    later: AppState,
    after: AppState,
    fx: Seq<Effect>,
)
    requires
        undo_recorded(before, edited),
        later.undo_stack@ == edited.undo_stack@,
        undone(later, after, fx),
    ensures
        after.segments@ == before.segments@,
        after.selected_segment == before.selected_segment,
        after.current_time == before.current_time,
{
}

/// Redo takes back an undo: the segments, selection, playhead and redo history
/// are as before the undo, and the undo history is as long again.
pub proof fn law_redo_reverts_undo(
    s0: AppState,
    s1: AppState,
    s2: AppState,
    fx1: Seq<Effect>,
    fx2: Seq<Effect>,
)
    requires
        s0.undo_stack@.len() > 0,
        undone(s0, s1, fx1),
        redone(s1, s2, fx2),
    ensures
        s2.segments@ == s0.segments@,
        s2.selected_segment == s0.selected_segment,
        s2.current_time == s0.current_time,
        s2.redo_stack@ == s0.redo_stack@,
        s2.undo_stack@.len() == s0.undo_stack@.len(),
        s2.undo_stack@.drop_last() == s0.undo_stack@.drop_last(),
{
}

/// Undo takes back a redo, in the same way.
pub proof fn law_undo_reverts_redo(
    s0: AppState,
    s1: AppState,
    s2: AppState,
    fx1: Seq<Effect>,
    fx2: Seq<Effect>,
)
    requires
        s0.redo_stack@.len() > 0,
        redone(s0, s1, fx1),
        undone(s1, s2, fx2),
    ensures
        s2.segments@ == s0.segments@,
        s2.selected_segment == s0.selected_segment,
        s2.current_time == s0.current_time,
        s2.undo_stack@ == s0.undo_stack@,
        s2.redo_stack@.len() == s0.redo_stack@.len(),
{
}

/// An edit makes everything undone so far impossible to redo.
pub proof fn law_edit_forgets_redo(before: AppState, edited: AppState)
    requires
        undo_recorded(before, edited),
    ensures
        edited.redo_stack@.len() == 0,
{
}

/// Closing a segment from the in-point adds exactly one segment, running from
/// the earlier to the later of the two times, under a fresh version-4 UUID,
/// and leaves the list ordered by start.
pub proof fn law_added_segment_kept_ordered(pre: AppState, post: AppState, fx: Seq<Effect>)
    requires
        segment_added(pre, post, fx),
    ensures
        ordered_by_start(post.segments@),
        post.segments@.len() == pre.segments@.len() + 1,
        exists|id: String|
            uuid_v4_text(id@) && post.segments@.to_multiset() == pre.segments@.to_multiset().insert(
                #[trigger] new_segment(id, pre.pending_in_point->0, pre.current_time),
            ),
        exists|i: int|
            0 <= i < post.segments@.len() && post.segments@[i].start_ns
                <= #[trigger] post.segments@[i].end_ns && post.segments@[i].label is None,
{
    broadcast use vstd::seq_lib::group_to_multiset_ensures;

    let id = choose|id: String| uuid_v4_text(id@) && #[trigger] segment_added_with(pre, id, post, fx);
    let x = new_segment(id, pre.pending_in_point->0, pre.current_time);
    let all = pre.segments@.push(x);
    lemma_sort_ordered(all);
    assert(all.to_multiset() == pre.segments@.to_multiset().insert(x));
    assert(post.segments@.to_multiset().count(x) > 0);
    assert(post.segments@.contains(x));
    let i = choose|i: int| 0 <= i < post.segments@.len() && post.segments@[i] == x;
    assert(post.segments@[i].start_ns <= post.segments@[i].end_ns);
}

/// While a found session waits for an answer, only restoring, discarding,
/// cancelling, confirming and quitting do anything: every other action
/// leaves the state as it was and asks for nothing.
pub proof fn law_session_question_blocks_other_actions(
    pre: AppState,
    action: AppAction,
    now: u64,
    post: AppState,
    fx: Seq<Effect>,
)
    requires
        pre.mode == AppMode::SessionRestore,
        action_step(pre, action, now, post, fx),
        !(action is RestoreSession),
        !(action is ConfirmSegment),
        !(action is DiscardSession),
        !(action is Cancel),
        !(action is Quit),
    ensures
        post == pre,
        fx.len() == 0,
{
}

/// Restoring a found session puts exactly its segments back, with a fresh
/// history, and leaves the question.
pub proof fn law_restore_takes_session(
    pre: AppState,
    now: u64,
    post: AppState,
    fx: Seq<Effect>,
)
    requires
        pre.mode == AppMode::SessionRestore,
        pre.pending_session is Some,
        action_step(pre, AppAction::RestoreSession, now, post, fx),
    ensures
        post.segments == pre.pending_session->0.segments,
        post.undo_stack@.len() == 0,
        post.redo_stack@.len() == 0,
        post.mode == AppMode::Normal,
        post.pending_session is None,
        post.selected_segment == covering(post.segments@, pre.current_time as int),
{
}

/// Discarding a found session keeps the segments there are.
pub proof fn law_discard_keeps_segments(
    pre: AppState,
    now: u64,
    post: AppState,
    fx: Seq<Effect>,
)
    requires
        pre.mode == AppMode::SessionRestore,
        action_step(pre, AppAction::DiscardSession, now, post, fx),
    ensures
        post.segments == pre.segments,
        post.mode == AppMode::Normal,
        post.pending_session is None,
{
}

/// Snapped bounds lie on cut points inside the media (or are the clamped
/// bounds when there are no keyframes): the start no later than the requested
/// start, the end after the start and no earlier than the requested end.
pub proof fn law_snapped_bounds(
    requested_start: i64,
    requested_end: i64,
    keyframes: Seq<i64>,
    duration: i64,
    r: Result<(i64, i64), String>,
)
    requires
        snap_outcome(requested_start, requested_end, keyframes, duration, r),
        r is Ok,
    ensures
        ({
            let (s, e) = r->Ok_0;
            &&& 0 <= s < e <= duration
            &&& s <= clamp_time(requested_start as int, duration as int)
            &&& keyframes.len() > 0 ==> cut_point(keyframes, duration as int, s as int) && cut_point(
                keyframes,
                duration as int,
                e as int,
            )
            &&& keyframes.len() == 0 ==> s == clamp_time(requested_start as int, duration as int)
                && e == clamp_time(requested_end as int, duration as int)
            &&& e >= clamp_time(requested_end as int, duration as int)
        }),
{
    let (s, e) = r->Ok_0;
    if keyframes.len() > 0 {
        let cs = clamp_time(requested_start as int, duration as int);
        let ce = clamp_time(requested_end as int, duration as int);
        assert(snapped(keyframes, duration as int, requested_start as int, requested_end as int, (s, e)));
        assert(is_floor_point(keyframes, duration as int, cs, s as int));
        if is_ceil_point(keyframes, duration as int, ce, e as int) && s < e {
        } else {
            let c = choose|c: int| is_ceil_point(keyframes, duration as int, ce, c) && c <= s;
            assert(is_next_point(keyframes, duration as int, s as int, e as int));
            assert(cut_point(keyframes, duration as int, duration as int));
        }
    }
}

/// Segments are saved automatically: whenever an action changes the segments
/// of a known source, the effects it asks for include storing the session.
pub proof fn law_segment_changes_are_saved(
    pre: AppState,
    action: AppAction,
    now: u64,
    post: AppState,
    fx: Seq<Effect>,
)
    requires
        action_step(pre, action, now, post, fx),
        pre.source_path is Some,
        post.segments@ != pre.segments@,
    ensures
        fx.contains(Effect::SaveSession),
{
    if fx == pre.save_fx() {
        assert(fx[0] == Effect::SaveSession);
    } else if pre.mode != AppMode::EditLabel && pre.mode != AppMode::SessionRestore && (
    action is Undo || action is Redo) {
        let redo = action is Redo;
        let (mid, fx1) = choose|mid: AppState, fx1: Seq<Effect>|
            (if redo {
                redone(pre, mid, fx1)
            } else {
                undone(pre, mid, fx1)
            }) && post == (AppState {
                selected_segment: covering(mid.segments@, mid.current_time as int),
                ..mid
            }) && fx == fx1 + pre.save_fx();
        assert(fx[fx1.len() as int] == Effect::SaveSession);
    }
}

/// Probed keyframes, once normalized, pass the metadata check: an
/// increasing list never decreases.
pub proof fn law_increasing_is_sorted(s: Seq<i64>)
    requires
        strictly_increasing(s),
    ensures
        nondecreasing(s),
{
}

/// The segment an out-point moves, found by `last_started`, is the last one
/// in the list that starts no later than the playhead.
proof fn lemma_last_started_is_last(segs: Seq<Segment>, t: int)
    ensures
        last_started(segs, t) matches Some(i) ==> {
            &&& 0 <= i < segs.len()
            &&& segs[i].start_ns <= t
            &&& forall|j: int| i < j < segs.len() ==> segs[j].start_ns > t
        },
        last_started(segs, t) is None ==> forall|j: int| 0 <= j < segs.len() ==> segs[j].start_ns > t,
    decreases segs.len(),
{
    if segs.len() > 0 && segs.last().start_ns > t {
        lemma_last_started_is_last(segs.drop_last(), t);
        assert forall|j: int| 0 <= j < segs.len() - 1 implies segs[j] == segs.drop_last()[j] by {}
    }
}

/// Setting an out-point with no in-point pending moves the end of the last
/// segment in the list that starts no later than the playhead to the
/// playhead, and the list is ordered by start again; with no such segment
/// the segments stay as they are.
pub proof fn law_out_point_extends_last_started(
    pre: AppState,
    now: u64,
    post: AppState,
    fx: Seq<Effect>,
)
    requires
        pre.mode != AppMode::EditLabel,
        pre.mode != AppMode::SessionRestore,
        pre.pending_in_point is None,
        action_step(pre, AppAction::SetOutPoint, now, post, fx),
    ensures
        (exists|j: int| 0 <= j < pre.segments@.len() && pre.segments@[j].start_ns <= pre.current_time)
            ==> exists|i: int|
            {
                &&& 0 <= i < pre.segments@.len()
                &&& pre.segments@[i].start_ns <= pre.current_time
                &&& (forall|j: int|
                    i < j < pre.segments@.len() ==> pre.segments@[j].start_ns > pre.current_time)
                &&& post.segments@ == sort_by_start(
                    pre.segments@.update(
                        i,
                        Segment { end_ns: pre.current_time, ..pre.segments@[i] },
                    ),
                )
            },
        (forall|j: int| 0 <= j < pre.segments@.len() ==> pre.segments@[j].start_ns > pre.current_time)
            ==> post.segments == pre.segments,
{
    let t = pre.current_time as int;
    lemma_last_started_is_last(pre.segments@, t);
    match last_started(pre.segments@, t) {
        Some(i) => {
            assert(pre.segments@[i].start_ns <= pre.current_time);
        },
        None => {},
    }
}

/// Zooming out keeps the anchor where it was in the view: before the clamp to
/// the media's ends, the anchor's distance from the left edge, scaled by the
/// zoom, is the same before and after (to within one time unit).
pub proof fn law_zoom_out_keeps_anchor(t: TimelineState, factor: u64, anchor: i64, post: TimelineState)
    requires
        t.wf(),
        post == zoom_out_result(t, factor, anchor),
        anchor >= t.pan_offset,
    ensures
        post.duration == t.duration,
        post.zoom_level == (if factor == 0 {
            zoom_cap(t.duration as int)
        } else {
            clamp_int(t.zoom_level * ZOOM_ONE / factor as int, ZOOM_ONE as int, zoom_cap(t.duration as int))
        }),
        ({
            let k = (anchor - t.pan_offset) * t.zoom_level / post.zoom_level as int;
            &&& 0 <= k
            &&& k * post.zoom_level <= (anchor - t.pan_offset) * t.zoom_level
            &&& (anchor - t.pan_offset) * t.zoom_level < (k + 1) * post.zoom_level
            &&& post.pan_offset == clamp_int(
                anchor - k,
                0,
                max_pan_of(t.duration as int, post.zoom_level as int),
            )
        }),
{
    lemma_anchor_offset(t, anchor, post.zoom_level as int);
}

/// Zooming in keeps the anchor where it was in the view, in the same sense.
pub proof fn law_zoom_in_keeps_anchor(t: TimelineState, factor: u64, anchor: i64, post: TimelineState)
    requires
        t.wf(),
        post == zoom_in_result(t, factor, anchor),
        anchor >= t.pan_offset,
    ensures
        post.duration == t.duration,
        post.zoom_level == clamp_int(t.zoom_level * factor / ZOOM_ONE as int, ZOOM_ONE as int, zoom_cap(t.duration as int)),
        ({
            let k = (anchor - t.pan_offset) * t.zoom_level / post.zoom_level as int;
            &&& 0 <= k
            &&& k * post.zoom_level <= (anchor - t.pan_offset) * t.zoom_level
            &&& (anchor - t.pan_offset) * t.zoom_level < (k + 1) * post.zoom_level
            &&& post.pan_offset == clamp_int(
                anchor - k,
                0,
                max_pan_of(t.duration as int, post.zoom_level as int),
            )
        }),
{
    lemma_anchor_offset(t, anchor, post.zoom_level as int);
}

proof fn lemma_anchor_offset(t: TimelineState, anchor: i64, z: int)
    requires
        anchor >= t.pan_offset,
        z >= 1,
        t.zoom_level >= 1,
    ensures
        ({
            let d = anchor - t.pan_offset;
            let k = d * t.zoom_level / z;
            &&& 0 <= k
            &&& k * z <= d * t.zoom_level
            &&& d * t.zoom_level < (k + 1) * z
        }),
{
    let d = anchor - t.pan_offset;
    let k = d * t.zoom_level / z;
    assert(0 <= k && k * z <= d * t.zoom_level && d * t.zoom_level < (k + 1) * z) by (nonlinear_arith)
        requires
            k == d * t.zoom_level / z,
            d >= 0,
            t.zoom_level >= 1,
            z >= 1,
    ;
}

/// The playhead follows the player: when the timeline is not being dragged
/// and more than 150 ms have passed since the last seek, it takes the
/// reported position; otherwise it stays. The playing state is always taken.
pub proof fn law_playhead_follows_player(
    pre: AppState,
    position: i64,
    duration: i64,
    playing: bool,
    source: Option<String>,
    now: u64,
    post: AppState,
    fx: Seq<Effect>,
)
    requires
        player_status_step(pre, position, duration, playing, source, now, post, fx),
    ensures
        !pre.is_dragging_timeline && now > pre.last_seek_time + 150 ==> post.current_time == position,
        pre.is_dragging_timeline || now <= pre.last_seek_time + 150 ==> post.current_time
            == pre.current_time,
        post.player_playing == playing,
        post.is_dragging_timeline == pre.is_dragging_timeline,
{
}

/// The key bindings, each action with exactly the keys that ask for it.
pub proof fn law_key_bindings(code: KeyCode, m: u8)
    ensures
        (key_action(code, m) == AppAction::Quit) <==> (code == KeyCode::Char('q') && m == MOD_NONE),
        (key_action(code, m) == AppAction::SeekBackward(1_000_000_000)) <==> ((code == KeyCode::Left
            || code == KeyCode::Char('h')) && m == MOD_NONE),
        (key_action(code, m) == AppAction::SeekForward(1_000_000_000)) <==> ((code == KeyCode::Right
            || code == KeyCode::Char('l')) && m == MOD_NONE),
        (key_action(code, m) == AppAction::SeekBackward(5_000_000_000)) <==> (code == KeyCode::Left
            && m == MOD_SHIFT),
        (key_action(code, m) == AppAction::SeekForward(5_000_000_000)) <==> (code == KeyCode::Right
            && m == MOD_SHIFT),
        (key_action(code, m) == AppAction::SeekBackward(10_000_000_000)) <==> (code == KeyCode::Left
            && m == MOD_ALT),
        (key_action(code, m) == AppAction::SeekForward(10_000_000_000)) <==> (code == KeyCode::Right
            && m == MOD_ALT),
        (key_action(code, m) == AppAction::SeekToStart) <==> (code == KeyCode::Home && m == MOD_NONE),
        (key_action(code, m) == AppAction::SeekToEnd) <==> (code == KeyCode::End && m == MOD_NONE),
        (key_action(code, m) == AppAction::TogglePlay) <==> (code == KeyCode::Char(' ') && m == MOD_NONE),
        (key_action(code, m) == AppAction::SetInPoint) <==> (code == KeyCode::Char('a') && m == MOD_NONE),
        (key_action(code, m) == AppAction::SetOutPoint) <==> (code == KeyCode::Char('d') && m == MOD_NONE),
        (key_action(code, m) == AppAction::ConfirmSegment) <==> (code == KeyCode::Enter && m == MOD_NONE),
        (key_action(code, m) == AppAction::DeleteSegment) <==> ((code == KeyCode::Delete || code
            == KeyCode::Char('x') || code == KeyCode::Char('s')) && m == MOD_NONE),
        (key_action(code, m) == AppAction::SelectPrevSegment) <==> ((code == KeyCode::Up || code
            == KeyCode::Char('k')) && m == MOD_NONE),
        (key_action(code, m) == AppAction::SelectNextSegment) <==> ((code == KeyCode::Down || code
            == KeyCode::Char('j')) && m == MOD_NONE),
        (key_action(code, m) == AppAction::SeekToSegmentStart) <==> (code == KeyCode::Char('H') || (
        code == KeyCode::Char('h') && m == MOD_SHIFT)),
        (key_action(code, m) == AppAction::SeekToSegmentEnd) <==> (code == KeyCode::Char('L') || (code
            == KeyCode::Char('l') && m == MOD_SHIFT)),
        (key_action(code, m) == AppAction::Export) <==> (code == KeyCode::Char('e') && m == MOD_NONE),
        (key_action(code, m) == AppAction::ExportMerged) <==> (code == KeyCode::Char('E') || (code
            == KeyCode::Char('e') && m == MOD_SHIFT)),
        (key_action(code, m) == AppAction::ExportSelected) <==> (code == KeyCode::Char('e') && m
            == MOD_CONTROL),
        (key_action(code, m) == AppAction::SnapToKeyframe) <==> (code == KeyCode::Char('K') || (code
            == KeyCode::Char('k') && m == MOD_SHIFT)),
        (key_action(code, m) == AppAction::ZoomIn) <==> (code == KeyCode::Char('+') || code
            == KeyCode::Char('=')),
        (key_action(code, m) == AppAction::ZoomOut) <==> (code == KeyCode::Char('-') && m == MOD_NONE),
        (key_action(code, m) == AppAction::PanLeft) <==> (code == KeyCode::Char('h') && m == MOD_ALT),
        (key_action(code, m) == AppAction::PanRight) <==> (code == KeyCode::Char('l') && m == MOD_ALT),
        (key_action(code, m) == AppAction::Undo) <==> (code == KeyCode::Char('u') && m == MOD_NONE),
        (key_action(code, m) == AppAction::Redo) <==> (code == KeyCode::Char('r') && m == MOD_CONTROL),
        (key_action(code, m) == AppAction::EditLabel) <==> (code == KeyCode::Char('r') && m == MOD_NONE),
        (key_action(code, m) == AppAction::ToggleHelp) <==> (code == KeyCode::Char('?') || (code
            == KeyCode::Char('/') && m == MOD_SHIFT)),
        (key_action(code, m) == AppAction::Cancel) <==> (code == KeyCode::Esc && m == MOD_NONE),
        (key_action(code, m) == AppAction::RestoreSession) <==> ((code == KeyCode::Char('y') || code
            == KeyCode::Char('Y')) && m == MOD_NONE),
        (key_action(code, m) == AppAction::DiscardSession) <==> ((code == KeyCode::Char('n') || code
            == KeyCode::Char('N')) && m == MOD_NONE),
        (key_action(code, m) == AppAction::SwitchPlayer) <==> (code == KeyCode::Tab && m == MOD_NONE),
{
}

/// Moving the selection: the next segment is the one after the selected
/// one (the last stays selected), the previous one the one before it (the
/// first stays selected); with nothing selected, next picks the first segment
/// and previous the last. Nothing else changes.
pub proof fn law_selection_moves_by_one(
    pre: AppState,
    action: AppAction,
    now: u64,
    post: AppState,
    fx: Seq<Effect>,
)
    requires
        pre.mode != AppMode::EditLabel,
        pre.mode != AppMode::SessionRestore,
        action is SelectNextSegment || action is SelectPrevSegment,
        action_step(pre, action, now, post, fx),
    ensures
        fx.len() == 0,
        post.segments == pre.segments,
        action is SelectNextSegment ==> match pre.selected_segment {
            Some(i) => post.selected_segment == Some(
                if i + 1 < pre.segments@.len() {
                    (i + 1) as usize
                } else {
                    i
                },
            ),
            None => post.selected_segment == if pre.segments@.len() > 0 {
                Some(0usize)
            } else {
                None::<usize>
            },
        },
        action is SelectPrevSegment ==> match pre.selected_segment {
            Some(i) => post.selected_segment == Some(
                if i > 0 {
                    (i - 1) as usize
                } else {
                    i
                },
            ),
            None => post.selected_segment == if pre.segments@.len() > 0 {
                Some((pre.segments@.len() - 1) as usize)
            } else {
                None::<usize>
            },
        },
{
}

} // verus!
