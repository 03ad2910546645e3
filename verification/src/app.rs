//! The controller's state and how it answers actions.
//!
//! Answering an action changes the state and yields the effects the program
//! must carry out against the outside world (the media player, the session
//! file, probing and exporting); the program reports back what it learns
//! (probe results, player status, export messages) through the `on_*` methods.

use vstd::prelude::*;
use crate::input::{AppAction, MouseButton};
use crate::model::{AppMode, AppStateSnapshot, MediaMetadata, Segment};
use crate::session::{SessionData, SessionValidation};
use crate::text::{chars_of, decimal, padded, push_decimal, push_padded, push_str, string_from_chars};
use crate::timeline::{clamp_int, pan_result, zoom_in_result, zoom_out_result, TimelineState};

verus! {

/// A message from a running export.
#[derive(Debug)]
pub enum ExportMsg {
    Progress(String),
    Done(Vec<String>),
    MergedDone(String),
    Failed(String),
}

/// What polling the export channel found.
#[derive(Debug)]
pub enum ExportPoll {
    Message(ExportMsg),
    Empty,
    Disconnected,
}

/// Work the program must do on the controller's behalf.
#[derive(Debug, PartialEq)]
pub enum Effect {
    /// Toggle play/pause on the active player.
    PlayerTogglePlay,
    PlayerPlay,
    PlayerPause,
    /// Move the active player's position forward by nanoseconds.
    PlayerSeekForward(i64),
    /// Move the active player's position back by nanoseconds.
    PlayerSeekBackward(i64),
    /// Put the active player's position at a time.
    PlayerSeekAbsolute(i64),
    /// Store the current segments as the session of the current source.
    SaveSession,
    /// Probe a media file in the background and report with `on_probe_result`.
    StartProbe(String),
    /// Read the session stored for a source and report with `on_session_loaded`.
    LoadSession(String),
    /// Export every segment of the source as its own clip.
    ExportSeparate(String),
    /// Export all segments of the source merged into one file.
    ExportMerged(String),
    /// Export one segment of the source.
    ExportSegment(String, usize),
    /// Make the next media player the active one.
    SwitchPlayer,
}

/// The whole state of the controller. Times are nanoseconds; clock readings
/// are milliseconds of a monotonic clock the program supplies.
pub struct AppState {
    pub source_path: Option<String>,
    pub cli_source_path: Option<String>,
    pub metadata: Option<MediaMetadata>,
    pub segments: Vec<Segment>,
    pub selected_segment: Option<usize>,
    pub current_time: i64,
    pub timeline_state: TimelineState,
    pub mode: AppMode,
    pub undo_stack: Vec<AppStateSnapshot>,
    pub redo_stack: Vec<AppStateSnapshot>,
    pub status_message: Option<String>,
    pub pending_in_point: Option<i64>,
    pub should_quit: bool,
    pub is_exporting: bool,
    pub is_probing: bool,
    /// Identities of the media players found, in the order found.
    pub available_players: Vec<String>,
    pub active_player_index: Option<usize>,
    pub player_playing: bool,
    pub terminal_size: (u16, u16),
    /// x, y, width, height of the timeline's clickable area.
    pub timeline_rect: (u16, u16, u16, u16),
    /// x, y, width, height of the segment list.
    pub segments_rect: (u16, u16, u16, u16),
    pub is_dragging_timeline: bool,
    pub is_panning_timeline: bool,
    pub drag_last_col: u16,
    pub drag_was_playing: bool,
    pub label_input: String,
    pub poll_count: usize,
    pub pending_session: Option<SessionData>,
    pub last_seek_time: u64,
    pub last_click_time: u64,
    pub last_click_pos: (u16, u16),
}

/// A selection that points at a segment, or none.
pub open spec fn selection_ok(segs: Seq<Segment>, sel: Option<usize>) -> bool {
    sel matches Some(i) ==> i < segs.len()
}

pub open spec fn snapshot_ok(s: AppStateSnapshot) -> bool {
    selection_ok(s.segments@, s.selected_segment)
}

pub open spec fn snapshots_ok(st: Seq<AppStateSnapshot>) -> bool {
    forall|i: int| 0 <= i < st.len() ==> snapshot_ok(#[trigger] st[i])
}

/// Whether a segment covers a time, both ends included.
pub open spec fn covers(s: Segment, t: int) -> bool {
    s.start_ns <= t && t <= s.end_ns
}

/// The first segment from `i` on that covers `t`.
pub open spec fn covering_from(segs: Seq<Segment>, t: int, i: int) -> Option<usize>
    decreases segs.len() - i,
{
    if i < 0 || i >= segs.len() {
        None
    } else if covers(segs[i], t) {
        Some(i as usize)
    } else {
        covering_from(segs, t, i + 1)
    }
}

/// The first segment that covers `t`.
pub open spec fn covering(segs: Seq<Segment>, t: int) -> Option<usize> {
    covering_from(segs, t, 0)
}

proof fn lemma_covering_from_bound(segs: Seq<Segment>, t: int, i: int)
    requires
        segs.len() <= usize::MAX,
    ensures
        covering_from(segs, t, i) matches Some(k) ==> i <= k < segs.len() && covers(segs[k as int], t),
        covering_from(segs, t, i) is None ==> forall|j: int| i <= j < segs.len() && 0 <= i ==> !covers(segs[j], t),
    decreases segs.len() - i,
{
    if 0 <= i < segs.len() && !covers(segs[i], t) {
        lemma_covering_from_bound(segs, t, i + 1);
    }
}

/// `s` with `x` placed after every element that starts no later than it.
pub open spec fn insert_by_start(s: Seq<Segment>, x: Segment) -> Seq<Segment>
    decreases s.len(),
{
    if s.len() == 0 {
        seq![x]
    } else if s.last().start_ns <= x.start_ns {
        s.push(x)
    } else {
        insert_by_start(s.drop_last(), x).push(s.last())
    }
}

/// The segments ordered by start, segments with equal starts keeping their
/// order (a stable sort).
pub open spec fn sort_by_start(s: Seq<Segment>) -> Seq<Segment>
    decreases s.len(),
{
    if s.len() == 0 {
        Seq::<Segment>::empty()
    } else {
        insert_by_start(sort_by_start(s.drop_last()), s.last())
    }
}

pub open spec fn ordered_by_start(s: Seq<Segment>) -> bool {
    forall|i: int, j: int| 0 <= i <= j < s.len() ==> s[i].start_ns <= s[j].start_ns
}

proof fn lemma_insert_at(s: Seq<Segment>, x: Segment, p: int)
    requires
        0 <= p <= s.len(),
        p == 0 || s[p - 1].start_ns <= x.start_ns,
        forall|j: int| p <= j < s.len() ==> s[j].start_ns > x.start_ns,
    ensures
        insert_by_start(s, x) == s.take(p).push(x) + s.skip(p),
    decreases s.len(),
{
    if s.len() == p {
        assert(s.take(p) =~= s);
        assert(s.skip(p) =~= Seq::<Segment>::empty());
        assert(s.push(x) + Seq::<Segment>::empty() =~= s.push(x));
    } else {
        let d = s.drop_last();
        lemma_insert_at(d, x, p);
        assert(d.take(p) =~= s.take(p));
        assert(d.skip(p).push(s.last()) =~= s.skip(p));
        assert((s.take(p).push(x) + d.skip(p)).push(s.last()) =~= s.take(p).push(x) + s.skip(p));
    }
}

/// Inserting into an ordered list keeps it ordered and adds exactly the one element.
pub proof fn lemma_insert_ordered(s: Seq<Segment>, x: Segment)
    requires
        ordered_by_start(s),
    ensures
        ordered_by_start(insert_by_start(s, x)),
        insert_by_start(s, x).len() == s.len() + 1,
        insert_by_start(s, x).to_multiset() == s.to_multiset().insert(x),
    decreases s.len(),
{
    broadcast use vstd::seq_lib::group_to_multiset_ensures;

    if s.len() == 0 {
        assert(seq![x] =~= Seq::<Segment>::empty().push(x));
    } else if s.last().start_ns <= x.start_ns {
    } else {
        let d = s.drop_last();
        assert(ordered_by_start(d));
        lemma_insert_ordered(d, x);
        let r = insert_by_start(d, x);
        assert forall|i: int| 0 <= i < r.len() implies r[i].start_ns <= s.last().start_ns by {
            let m = r.to_multiset();
            assert(m.count(r[i]) > 0);
            assert(d.to_multiset().insert(x).count(r[i]) > 0);
            if r[i] != x {
                assert(d.to_multiset().count(r[i]) > 0);
                assert(d.contains(r[i]));
                let k = choose|k: int| 0 <= k < d.len() && d[k] == r[i];
                assert(s[k] == d[k]);
            }
        }
        assert(s =~= d.push(s.last()));
    }
}

/// The segments come out ordered by start, each one kept (a permutation).
pub proof fn lemma_sort_ordered(s: Seq<Segment>)
    ensures
        ordered_by_start(sort_by_start(s)),
        sort_by_start(s).to_multiset() == s.to_multiset(),
        sort_by_start(s).len() == s.len(),
    decreases s.len(),
{
    broadcast use vstd::seq_lib::group_to_multiset_ensures;

    if s.len() > 0 {
        lemma_sort_ordered(s.drop_last());
        lemma_insert_ordered(sort_by_start(s.drop_last()), s.last());
        assert(s =~= s.drop_last().push(s.last()));
    }
}

/// Places `x` among segments ordered so far, after those starting no later.
fn insert_segment(v: &mut Vec<Segment>, x: Segment)
    ensures
        final(v)@ == insert_by_start(old(v)@, x),
{
    let mut p: usize = v.len();
    while p > 0 && v[p - 1].start_ns > x.start_ns
        invariant
            v@ == old(v)@,
            p <= v@.len(),
            forall|j: int| p <= j < v@.len() ==> v@[j].start_ns > x.start_ns,
        decreases p,
    {
        p = p - 1;
    }
    proof {
        lemma_insert_at(v@, x, p as int);
    }
    let ghost before = v@;
    v.insert(p, x);
    assert(v@ =~= before.take(p as int).push(x) + before.skip(p as int));
}

/// The segments ordered by start, ties kept in their order.
pub fn sort_segments(v: &Vec<Segment>) -> (r: Vec<Segment>)
    ensures
        r@ == sort_by_start(v@),
{
    let mut out: Vec<Segment> = Vec::new();
    let mut i: usize = 0;
    while i < v.len()
        invariant
            i <= v@.len(),
            out@ == sort_by_start(v@.take(i as int)),
        decreases v.len() - i,
    {
        proof {
            assert(v@.take(i + 1).drop_last() =~= v@.take(i as int));
        }
        let x = v[i].clone();
        insert_segment(&mut out, x);
        i = i + 1;
    }
    assert(v@.take(v@.len() as int) =~= v@);
    out
}

/// A copy of the segments.
pub fn clone_segments(v: &Vec<Segment>) -> (r: Vec<Segment>)
    ensures
        r@ == v@,
{
    let mut out: Vec<Segment> = Vec::new();
    let mut i: usize = 0;
    while i < v.len()
        invariant
            i <= v@.len(),
            out@ == v@.take(i as int),
        decreases v.len() - i,
    {
        out.push(v[i].clone());
        i = i + 1;
        assert(out@ =~= v@.take(i as int));
    }
    assert(v@.take(v@.len() as int) =~= v@);
    out
}

/// The index of the first segment covering `time`.
pub fn covering_segment(segments: &Vec<Segment>, time: i64) -> (r: Option<usize>)
    ensures
        r == covering(segments@, time as int),
{
    let mut i: usize = 0;
    while i < segments.len()
        invariant
            i <= segments@.len(),
            covering(segments@, time as int) == covering_from(segments@, time as int, i as int),
        decreases segments.len() - i,
    {
        if segments[i].start_ns <= time && time <= segments[i].end_ns {
            return Some(i);
        }
        i = i + 1;
    }
    None
}

/// `H:MM:SS.mmm` once there are hours, `MM:SS.mmm` before; milliseconds rounded
/// to the nearest (so they may read 1000); a negative time reads `00:00.000`.
pub open spec fn timecode_text(ns: int) -> Seq<char> {
    if ns < 0 {
        "00:00.000"@
    } else {
        let h = ns / 3_600_000_000_000;
        let m = (ns % 3_600_000_000_000) / 60_000_000_000;
        let s = (ns / 1_000_000_000) % 60;
        let ms = ((ns % 1_000_000_000) + 500_000) / 1_000_000;
        if h > 0 {
            padded(h as nat, 2) + ":"@ + padded(m as nat, 2) + ":"@ + padded(s as nat, 2) + "."@
                + padded(ms as nat, 3)
        } else {
            padded(m as nat, 2) + ":"@ + padded(s as nat, 2) + "."@ + padded(ms as nat, 3)
        }
    }
}

/// Writes a time for the status line and the header.
pub fn timecode_string(ns: i64) -> (s: String)
    ensures
        s@ == timecode_text(ns as int),
{
    if ns < 0 {
        return String::from_str("00:00.000");
    }
    let u = ns as u64;
    let h = u / 3_600_000_000_000;
    let m = (u % 3_600_000_000_000) / 60_000_000_000;
    let s = (u / 1_000_000_000) % 60;
    let ms = ((u % 1_000_000_000) + 500_000) / 1_000_000;
    let mut v: Vec<char> = Vec::new();
    if h > 0 {
        push_padded(&mut v, h, 2);
        push_str(&mut v, ":");
    }
    push_padded(&mut v, m, 2);
    push_str(&mut v, ":");
    push_padded(&mut v, s, 2);
    push_str(&mut v, ".");
    push_padded(&mut v, ms, 3);
    proof {
        reveal_strlit(":");
        reveal_strlit(".");
    }
    assert(v@ =~= timecode_text(ns as int));
    string_from_chars(&v)
}

/// A snapshot holds the given segments, selection and playhead.
pub open spec fn snapshot_of(
    snap: AppStateSnapshot,
    segs: Seq<Segment>,
    sel: Option<usize>,
    time: i64,
) -> bool {
    snap.segments@ == segs && snap.selected_segment == sel && snap.current_time == time
}

impl AppState {
    /// The timeline is well formed, and the selection of the state and of
    /// every undo and redo snapshot points at a segment.
    pub open spec fn wf(&self) -> bool {
        &&& self.timeline_state.wf()
        &&& self.timeline_state.duration >= 0
        &&& selection_ok(self.segments@, self.selected_segment)
        &&& snapshots_ok(self.undo_stack@)
        &&& snapshots_ok(self.redo_stack@)
        &&& self.active_player_index matches Some(i) ==> i < self.available_players@.len()
    }

    /// A player is active and known.
    pub open spec fn has_active_player(&self) -> bool {
        self.active_player_index matches Some(i) && i < self.available_players@.len()
    }

    fn active_player_present(&self) -> (b: bool)
        ensures
            b == self.has_active_player(),
    {
        match self.active_player_index {
            Some(i) => i < self.available_players.len(),
            None => false,
        }
    }

    /// Records the segments, selection and playhead for undo; a new edit
    /// forgets what could be redone.
    pub fn push_undo(&mut self)
        requires
            old(self).wf(),
        ensures
            final(self).wf(),
            undo_recorded(*old(self), *final(self)),
            *final(self) == (AppState {
                undo_stack: final(self).undo_stack,
                redo_stack: final(self).redo_stack,
                ..*old(self)
            }),
    {
        let snapshot = AppStateSnapshot {
            segments: clone_segments(&self.segments),
            selected_segment: self.selected_segment,
            current_time: self.current_time,
        };
        let ghost before = self.undo_stack@;
        self.undo_stack.push(snapshot);
        self.redo_stack.clear();
        assert(self.undo_stack@.drop_last() =~= before);
    }

    /// The status line reads `msg`.
    pub open spec fn says(&self, msg: Seq<char>) -> bool {
        self.status_message matches Some(m) && m@ == msg
    }

    /// `e` when a player is active, nothing otherwise.
    pub open spec fn player_fx(&self, e: Effect) -> Seq<Effect> {
        if self.has_active_player() {
            seq![e]
        } else {
            Seq::<Effect>::empty()
        }
    }

    /// Storing the session, when the source is known.
    pub open spec fn save_fx(&self) -> Seq<Effect> {
        if self.source_path is Some {
            seq![Effect::SaveSession]
        } else {
            Seq::<Effect>::empty()
        }
    }

    fn push_player_effect(&self, fx: &mut Vec<Effect>, e: Effect)
        ensures
            final(fx)@ == old(fx)@ + self.player_fx(e),
    {
        if self.active_player_present() {
            fx.push(e);
        } else {
            assert(old(fx)@ + Seq::<Effect>::empty() =~= old(fx)@);
        }
    }

    fn push_save_effect(&self, fx: &mut Vec<Effect>)
        ensures
            final(fx)@ == old(fx)@ + self.save_fx(),
    {
        if self.source_path.is_some() {
            fx.push(Effect::SaveSession);
        } else {
            assert(old(fx)@ + Seq::<Effect>::empty() =~= old(fx)@);
        }
    }

    /// A controller with no media, no segments and no player yet.
    pub fn new() -> (s: Self)
        ensures
            s.wf(),
            s.source_path is None,
            s.cli_source_path is None,
            s.metadata is None,
            s.segments@.len() == 0,
            s.selected_segment is None,
            s.current_time == 0,
            s.timeline_state == TimelineState::new_spec(0),
            s.mode == AppMode::Normal,
            s.undo_stack@.len() == 0,
            s.redo_stack@.len() == 0,
            s.says("Welcome to SafClip. Press '?' for help."@),
            s.pending_in_point is None,
            !s.should_quit,
            !s.is_exporting,
            !s.is_probing,
            s.available_players@.len() == 0,
            s.active_player_index is None,
            !s.player_playing,
            s.terminal_size == (0u16, 0u16),
            s.timeline_rect == (0u16, 0u16, 0u16, 0u16),
            s.segments_rect == (0u16, 0u16, 0u16, 0u16),
            !s.is_dragging_timeline,
            !s.is_panning_timeline,
            s.drag_last_col == 0,
            !s.drag_was_playing,
            s.label_input@.len() == 0,
            s.poll_count == 0,
            s.pending_session is None,
            s.last_seek_time == 0,
            s.last_click_time == 0,
            s.last_click_pos == (0u16, 0u16),
    {
        AppState {
            source_path: None,
            cli_source_path: None,
            metadata: None,
            segments: Vec::new(),
            selected_segment: None,
            current_time: 0,
            timeline_state: TimelineState::new(0),
            mode: AppMode::Normal,
            undo_stack: Vec::new(),
            redo_stack: Vec::new(),
            status_message: Some(String::from_str("Welcome to SafClip. Press '?' for help.")),
            pending_in_point: None,
            should_quit: false,
            is_exporting: false,
            is_probing: false,
            available_players: Vec::new(),
            active_player_index: None,
            player_playing: false,
            terminal_size: (0, 0),
            timeline_rect: (0, 0, 0, 0),
            segments_rect: (0, 0, 0, 0),
            is_dragging_timeline: false,
            is_panning_timeline: false,
            drag_last_col: 0,
            drag_was_playing: false,
            label_input: String::new(),
            poll_count: 0,
            pending_session: None,
            last_seek_time: 0,
            last_click_time: 0,
            last_click_pos: (0, 0),
        }
    }

    pub fn set_terminal_size(&mut self, w: u16, h: u16)
        ensures
            *final(self) == (AppState { terminal_size: (w, h), ..*old(self) }),
    {
        self.terminal_size = (w, h);
    }

    /// Selects the first segment that covers the playhead, or none.
    pub fn sync_auto_selection(&mut self)
        requires
            old(self).wf(),
        ensures
            final(self).wf(),
            *final(self) == (AppState {
                selected_segment: covering(old(self).segments@, old(self).current_time as int),
                ..*old(self)
            }),
    {
        let found = covering_segment(&self.segments, self.current_time);
        assert(self.segments@.len() == self.segments.len());
        proof {
            lemma_covering_from_bound(self.segments@, self.current_time as int, 0);
        }
        self.selected_segment = found;
    }

    /// Writes a time as the status line and header show it.
    pub fn format_time(&self, ns: i64) -> (s: String)
        ensures
            s@ == timecode_text(ns as int),
    {
        timecode_string(ns)
    }

    /// The playhead as text.
    pub fn timecode(&self) -> (s: String)
        ensures
            s@ == timecode_text(self.current_time as int),
    {
        timecode_string(self.current_time)
    }

    /// The media's length as text.
    pub fn duration_timecode(&self) -> (s: String)
        ensures
            s@ == timecode_text(self.timeline_state.duration as int),
    {
        timecode_string(self.timeline_state.duration)
    }

    /// Goes back to the last recorded segments, selection and playhead; what
    /// they replace can be redone. Nothing happens with nothing to undo.
    pub fn undo(&mut self) -> (fx: Vec<Effect>)
        requires
            old(self).wf(),
        ensures
            final(self).wf(),
            undone(*old(self), *final(self), fx@),
    {
        let mut fx: Vec<Effect> = Vec::new();
        let ghost pre = *self;
        if self.undo_stack.len() == 0 {
            return fx;
        }
        match self.undo_stack.pop() {
            Some(snapshot) => {
                let current = AppStateSnapshot {
                    segments: clone_segments(&self.segments),
                    selected_segment: self.selected_segment,
                    current_time: self.current_time,
                };
                let ghost before = self.redo_stack@;
                self.redo_stack.push(current);
                assert(self.redo_stack@.drop_last() =~= before);
                proof {
                    assert(snapshot_ok(pre.undo_stack@.last()));
                    assert forall|i: int| 0 <= i < self.undo_stack@.len() implies snapshot_ok(
                        #[trigger] self.undo_stack@[i],
                    ) by {
                        assert(self.undo_stack@[i] == pre.undo_stack@[i]);
                    }
                    assert forall|i: int| 0 <= i < self.redo_stack@.len() implies snapshot_ok(
                        #[trigger] self.redo_stack@[i],
                    ) by {
                        if i < before.len() {
                            assert(self.redo_stack@[i] == before[i]);
                        }
                    }
                }
                self.segments = snapshot.segments;
                self.selected_segment = snapshot.selected_segment;
                self.current_time = snapshot.current_time;
                let t = self.current_time;
                self.push_player_effect(&mut fx, Effect::PlayerSeekAbsolute(t));
                assert(fx@ =~= pre.player_fx(Effect::PlayerSeekAbsolute(t)));
            },
            None => {},
        }
        fx
    }

    /// Brings back what the last undo replaced; what it replaces can be undone.
    /// Nothing happens with nothing to redo.
    pub fn redo(&mut self) -> (fx: Vec<Effect>)
        requires
            old(self).wf(),
        ensures
            final(self).wf(),
            redone(*old(self), *final(self), fx@),
    {
        let mut fx: Vec<Effect> = Vec::new();
        let ghost pre = *self;
        if self.redo_stack.len() == 0 {
            return fx;
        }
        match self.redo_stack.pop() {
            Some(snapshot) => {
                let current = AppStateSnapshot {
                    segments: clone_segments(&self.segments),
                    selected_segment: self.selected_segment,
                    current_time: self.current_time,
                };
                let ghost before = self.undo_stack@;
                self.undo_stack.push(current);
                assert(self.undo_stack@.drop_last() =~= before);
                proof {
                    assert(snapshot_ok(pre.redo_stack@.last()));
                    assert forall|i: int| 0 <= i < self.redo_stack@.len() implies snapshot_ok(
                        #[trigger] self.redo_stack@[i],
                    ) by {
                        assert(self.redo_stack@[i] == pre.redo_stack@[i]);
                    }
                    assert forall|i: int| 0 <= i < self.undo_stack@.len() implies snapshot_ok(
                        #[trigger] self.undo_stack@[i],
                    ) by {
                        if i < before.len() {
                            assert(self.undo_stack@[i] == before[i]);
                        }
                    }
                }
                self.segments = snapshot.segments;
                self.selected_segment = snapshot.selected_segment;
                self.current_time = snapshot.current_time;
                let t = self.current_time;
                self.push_player_effect(&mut fx, Effect::PlayerSeekAbsolute(t));
                assert(fx@ =~= pre.player_fx(Effect::PlayerSeekAbsolute(t)));
            },
            None => {},
        }
        fx
    }
}

/// Undo: the last snapshot comes back, the state it replaces can be redone,
/// and an active player is moved to the restored playhead.
pub open spec fn undone(pre: AppState, post: AppState, fx: Seq<Effect>) -> bool {
    if pre.undo_stack@.len() == 0 {
        post == pre && fx.len() == 0
    } else {
        let snap = pre.undo_stack@.last();
        &&& post.undo_stack@ == pre.undo_stack@.drop_last()
        &&& post.redo_stack@.drop_last() == pre.redo_stack@
        &&& post.redo_stack@.len() == pre.redo_stack@.len() + 1
        &&& snapshot_of(post.redo_stack@.last(), pre.segments@, pre.selected_segment, pre.current_time)
        &&& post.segments == snap.segments
        &&& post.selected_segment == snap.selected_segment
        &&& post.current_time == snap.current_time
        &&& post == (AppState {
            undo_stack: post.undo_stack,
            redo_stack: post.redo_stack,
            segments: post.segments,
            selected_segment: post.selected_segment,
            current_time: post.current_time,
            ..pre
        })
        &&& fx == pre.player_fx(Effect::PlayerSeekAbsolute(snap.current_time))
    }
}

/// Redo: the snapshot the last undo replaced comes back, the state it
/// replaces can be undone, and an active player follows the playhead.
pub open spec fn redone(pre: AppState, post: AppState, fx: Seq<Effect>) -> bool {
    if pre.redo_stack@.len() == 0 {
        post == pre && fx.len() == 0
    } else {
        let snap = pre.redo_stack@.last();
        &&& post.redo_stack@ == pre.redo_stack@.drop_last()
        &&& post.undo_stack@.drop_last() == pre.undo_stack@
        &&& post.undo_stack@.len() == pre.undo_stack@.len() + 1
        &&& snapshot_of(post.undo_stack@.last(), pre.segments@, pre.selected_segment, pre.current_time)
        &&& post.segments == snap.segments
        &&& post.selected_segment == snap.selected_segment
        &&& post.current_time == snap.current_time
        &&& post == (AppState {
            undo_stack: post.undo_stack,
            redo_stack: post.redo_stack,
            segments: post.segments,
            selected_segment: post.selected_segment,
            current_time: post.current_time,
            ..pre
        })
        &&& fx == pre.player_fx(Effect::PlayerSeekAbsolute(snap.current_time))
    }
}

/// The undo stack gained a snapshot of `pre`, and nothing can be redone.
pub open spec fn undo_recorded(pre: AppState, post: AppState) -> bool {
    &&& post.undo_stack@.len() == pre.undo_stack@.len() + 1
    &&& post.undo_stack@.drop_last() == pre.undo_stack@
    &&& snapshot_of(post.undo_stack@.last(), pre.segments@, pre.selected_segment, pre.current_time)
    &&& post.redo_stack@.len() == 0
}

/// A segment with the label being edited: none when the text is empty.
pub open spec fn labeled(seg: Segment, text: String) -> Segment {
    Segment {
        label: if text@.len() == 0 {
            None
        } else {
            Some(text)
        },
        ..seg
    }
}

/// The edited label is stored on segment `idx`, undoably, and editing ends.
pub open spec fn label_stored(pre: AppState, idx: int, post: AppState, fx: Seq<Effect>) -> bool {
    &&& undo_recorded(pre, post)
    &&& post.segments@ == pre.segments@.update(idx, labeled(pre.segments@[idx], pre.label_input))
    &&& post == (AppState {
        segments: post.segments,
        undo_stack: post.undo_stack,
        redo_stack: post.redo_stack,
        mode: AppMode::Normal,
        ..pre
    })
    &&& fx == pre.save_fx()
}

/// What an action does while a label is being edited.
pub open spec fn edit_label_step(
    pre: AppState,
    action: AppAction,
    post: AppState,
    fx: Seq<Effect>,
) -> bool {
    match action {
        AppAction::Char(c) => {
            &&& post == (AppState { label_input: post.label_input, ..pre })
            &&& post.label_input@ == pre.label_input@.push(c)
            &&& fx.len() == 0
        },
        AppAction::Backspace => {
            &&& post == (AppState { label_input: post.label_input, ..pre })
            &&& post.label_input@ == if pre.label_input@.len() > 0 {
                pre.label_input@.drop_last()
            } else {
                pre.label_input@
            }
            &&& fx.len() == 0
        },
        AppAction::ConfirmSegment | AppAction::EditLabel => {
            match pre.selected_segment {
                Some(idx) => if idx < pre.segments@.len() {
                    label_stored(pre, idx as int, post, fx)
                } else {
                    post == (AppState { mode: AppMode::Normal, ..pre }) && fx.len() == 0
                },
                None => post == (AppState { mode: AppMode::Normal, ..pre }) && fx.len() == 0,
            }
        },
        AppAction::Cancel => post == (AppState { mode: AppMode::Normal, ..pre }) && fx.len() == 0,
        AppAction::Quit => post == (AppState { should_quit: true, ..pre }) && fx.len() == 0,
        _ => post == pre && fx.len() == 0,
    }
}

/// What an action does while a found session waits to be restored or discarded.
pub open spec fn restore_step(
    pre: AppState,
    action: AppAction,
    post: AppState,
    fx: Seq<Effect>,
) -> bool {
    match action {
        AppAction::RestoreSession | AppAction::ConfirmSegment => {
            match pre.pending_session {
                Some(session) => {
                    &&& post.segments == session.segments
                    &&& post.selected_segment == covering(
                        session.segments@,
                        pre.current_time as int,
                    )
                    &&& post.undo_stack@.len() == 0
                    &&& post.redo_stack@.len() == 0
                    &&& post.says("Session restored."@)
                    &&& post == (AppState {
                        segments: post.segments,
                        selected_segment: post.selected_segment,
                        undo_stack: post.undo_stack,
                        redo_stack: post.redo_stack,
                        mode: AppMode::Normal,
                        status_message: post.status_message,
                        pending_session: None,
                        ..pre
                    })
                    &&& fx == pre.save_fx()
                },
                None => post == (AppState { mode: AppMode::Normal, ..pre }) && fx.len() == 0,
            }
        },
        AppAction::DiscardSession | AppAction::Cancel => {
            &&& post.says("Session discarded."@)
            &&& post == (AppState {
                selected_segment: covering(pre.segments@, pre.current_time as int),
                mode: AppMode::Normal,
                status_message: post.status_message,
                pending_session: None,
                ..pre
            })
            &&& fx == pre.save_fx()
        },
        AppAction::Quit => post == (AppState { should_quit: true, ..pre }) && fx.len() == 0,
        _ => post == pre && fx.len() == 0,
    }
}

impl AppState {
    fn set_status(&mut self, msg: String)
        ensures
            *final(self) == (AppState { status_message: Some(msg), ..*old(self) }),
    {
        self.status_message = Some(msg);
    }

    /// Handles an action while a label is being edited.
    fn apply_in_edit_label(&mut self, action: AppAction) -> (fx: Vec<Effect>)
        requires
            old(self).wf(),
        ensures
            final(self).wf(),
            edit_label_step(*old(self), action, *final(self), fx@),
    {
        let mut fx: Vec<Effect> = Vec::new();
        let ghost pre = *self;
        match action {
            AppAction::Char(c) => {
                let mut v = chars_of(self.label_input.as_str());
                v.push(c);
                self.label_input = string_from_chars(&v);
            },
            AppAction::Backspace => {
                let mut v = chars_of(self.label_input.as_str());
                if v.len() > 0 {
                    v.pop();
                }
                assert(pre.label_input@.len() > 0 ==> v@ =~= pre.label_input@.drop_last());
                self.label_input = string_from_chars(&v);
            },
            AppAction::ConfirmSegment | AppAction::EditLabel => {
                match self.selected_segment {
                    Some(idx) => {
                        if idx < self.segments.len() {
                            self.push_undo();
                            let mut seg = self.segments[idx].clone();
                            seg.label = if self.label_input.as_str().unicode_len() == 0 {
                                None
                            } else {
                                Some(self.label_input.clone())
                            };
                            self.segments.set(idx, seg);
                            self.push_save_effect(&mut fx);
                            proof {
                                assert(fx@ =~= pre.save_fx());
                            }
                        }
                    },
                    None => {},
                }
                self.mode = AppMode::Normal;
            },
            AppAction::Cancel => {
                self.mode = AppMode::Normal;
            },
            AppAction::Quit => {
                self.should_quit = true;
            },
            _ => {},
        }
        fx
    }

    /// Handles an action while a found session waits for an answer.
    fn apply_in_session_restore(&mut self, action: AppAction) -> (fx: Vec<Effect>)
        requires
            old(self).wf(),
        ensures
            final(self).wf(),
            restore_step(*old(self), action, *final(self), fx@),
    {
        let mut fx: Vec<Effect> = Vec::new();
        let ghost pre = *self;
        match action {
            AppAction::RestoreSession | AppAction::ConfirmSegment => {
                match self.pending_session.take() {
                    Some(session_data) => {
                        self.segments = session_data.segments;
                        self.selected_segment = None;
                        self.undo_stack.clear();
                        self.redo_stack.clear();
                        self.mode = AppMode::Normal;
                        self.status_message = Some(String::from_str("Session restored."));
                        self.push_save_effect(&mut fx);
                        assert(fx@ =~= pre.save_fx());
                        self.sync_auto_selection();
                    },
                    None => {
                        self.mode = AppMode::Normal;
                    },
                }
            },
            AppAction::DiscardSession | AppAction::Cancel => {
                self.pending_session = None;
                self.mode = AppMode::Normal;
                self.status_message = Some(String::from_str("Session discarded."));
                self.push_save_effect(&mut fx);
                assert(fx@ =~= pre.save_fx());
                self.sync_auto_selection();
            },
            AppAction::Quit => {
                self.should_quit = true;
            },
            _ => {},
        }
        fx
    }
}

/// The playhead moved to `t` at clock reading `now`, and the selection follows it.
pub open spec fn seeked(pre: AppState, t: i64, now: u64, post: AppState) -> bool {
    post == (AppState {
        current_time: t,
        last_seek_time: now,
        selected_segment: covering(pre.segments@, t as int),
        ..pre
    })
}

/// `x` limited to the range of `i64`.
pub open spec fn saturate_i64(x: int) -> i64 {
    if x < i64::MIN {
        i64::MIN
    } else if x > i64::MAX {
        i64::MAX
    } else {
        x as i64
    }
}

/// Only the status line changed, and it reads `msg`.
pub open spec fn only_says(pre: AppState, msg: Seq<char>, post: AppState) -> bool {
    post.says(msg) && post == (AppState { status_message: post.status_message, ..pre })
}

/// The selection after asking for the previous segment.
pub open spec fn prev_selection(sel: Option<usize>, len: nat) -> Option<usize> {
    match sel {
        Some(i) => if i > 0 {
            Some((i - 1) as usize)
        } else {
            Some(i)
        },
        None => if len > 0 {
            Some((len - 1) as usize)
        } else {
            None
        },
    }
}

/// The selection after asking for the next segment.
pub open spec fn next_selection(sel: Option<usize>, len: nat) -> Option<usize> {
    match sel {
        Some(i) => if i + 1 < len {
            Some((i + 1) as usize)
        } else {
            Some(i)
        },
        None => if len > 0 {
            Some(0usize)
        } else {
            None
        },
    }
}

/// Distance between two times.
pub open spec fn dist(a: int, b: int) -> int {
    if a >= b {
        a - b
    } else {
        b - a
    }
}

/// `i` is the first keyframe among the nearest to `t`.
pub open spec fn is_nearest(kf: Seq<i64>, t: int, i: int) -> bool {
    &&& 0 <= i < kf.len()
    &&& forall|j: int| 0 <= j < kf.len() ==> dist(kf[i] as int, t) <= dist(kf[j] as int, t)
    &&& forall|j: int| 0 <= j < i ==> dist(kf[j] as int, t) > dist(kf[i] as int, t)
}

/// The first of the keyframes nearest to `t`.
pub open spec fn nearest_keyframe(kf: Seq<i64>, t: int) -> i64 {
    kf[choose|i: int| is_nearest(kf, t, i)]
}

proof fn lemma_nearest_unique(kf: Seq<i64>, t: int, i: int, j: int)
    requires
        is_nearest(kf, t, i),
        is_nearest(kf, t, j),
    ensures
        i == j,
{
    if i < j {
        assert(dist(kf[i] as int, t) > dist(kf[j] as int, t));
    } else if j < i {
        assert(dist(kf[j] as int, t) > dist(kf[i] as int, t));
    }
}

/// Snapping the playhead to the nearest keyframe.
pub open spec fn snapped_to_keyframe(pre: AppState, now: u64, post: AppState, fx: Seq<Effect>) -> bool {
    match pre.metadata {
        Some(m) => if m.keyframes_ns@.len() > 0 {
            let k = nearest_keyframe(m.keyframes_ns@, pre.current_time as int);
            &&& post.says("Snapped to keyframe: "@ + timecode_text(k as int))
            &&& seeked(pre, k, now, AppState { status_message: pre.status_message, ..post })
            &&& fx == pre.player_fx(Effect::PlayerSeekAbsolute(k))
        } else {
            post == pre && fx.len() == 0
        },
        None => post == pre && fx.len() == 0,
    }
}

/// Seeking to the start or end of the selected segment.
pub open spec fn seeked_to_segment(
    pre: AppState,
    to_end: bool,
    now: u64,
    post: AppState,
    fx: Seq<Effect>,
) -> bool {
    match pre.selected_segment {
        Some(i) => if i < pre.segments@.len() {
            let t = if to_end {
                pre.segments@[i as int].end_ns
            } else {
                pre.segments@[i as int].start_ns
            };
            seeked(pre, t, now, post) && fx == pre.player_fx(Effect::PlayerSeekAbsolute(t))
        } else {
            post == pre && fx.len() == 0
        },
        None => post == pre && fx.len() == 0,
    }
}

impl AppState {
    fn seek_to(&mut self, t: i64, now: u64)
        requires
            old(self).wf(),
        ensures
            final(self).wf(),
            seeked(*old(self), t, now, *final(self)),
    {
        self.current_time = t;
        self.last_seek_time = now;
        self.sync_auto_selection();
    }

    fn seek_forward(&mut self, n: i64, now: u64) -> (fx: Vec<Effect>)
        requires
            old(self).wf(),
        ensures
            final(self).wf(),
            seeked(
                *old(self),
                saturate_i64(
                    if old(self).current_time + n < old(self).timeline_state.duration {
                        old(self).current_time + n
                    } else {
                        old(self).timeline_state.duration as int
                    },
                ),
                now,
                *final(self),
            ),
            fx@ == old(self).player_fx(Effect::PlayerSeekForward(n)),
    {
        let mut fx: Vec<Effect> = Vec::new();
        self.push_player_effect(&mut fx, Effect::PlayerSeekForward(n));
        assert(fx@ =~= self.player_fx(Effect::PlayerSeekForward(n)));
        let duration = self.timeline_state.duration;
        let sum = self.current_time as i128 + n as i128;
        let m = if sum < duration as i128 {
            sum
        } else {
            duration as i128
        };
        let t: i64 = if m < i64::MIN as i128 {
            i64::MIN
        } else {
            m as i64
        };
        self.seek_to(t, now);
        fx
    }

    fn seek_backward(&mut self, n: i64, now: u64) -> (fx: Vec<Effect>)
        requires
            old(self).wf(),
        ensures
            final(self).wf(),
            seeked(
                *old(self),
                saturate_i64(
                    if old(self).current_time - n > 0 {
                        old(self).current_time - n
                    } else {
                        0
                    },
                ),
                now,
                *final(self),
            ),
            fx@ == old(self).player_fx(Effect::PlayerSeekBackward(n)),
    {
        let mut fx: Vec<Effect> = Vec::new();
        self.push_player_effect(&mut fx, Effect::PlayerSeekBackward(n));
        assert(fx@ =~= self.player_fx(Effect::PlayerSeekBackward(n)));
        let diff = self.current_time as i128 - n as i128;
        let m = if diff > 0 {
            diff
        } else {
            0
        };
        let t: i64 = if m > i64::MAX as i128 {
            i64::MAX
        } else {
            m as i64
        };
        self.seek_to(t, now);
        fx
    }

    fn seek_absolute(&mut self, t: i64, now: u64) -> (fx: Vec<Effect>)
        requires
            old(self).wf(),
        ensures
            final(self).wf(),
            seeked(*old(self), t, now, *final(self)),
            fx@ == old(self).player_fx(Effect::PlayerSeekAbsolute(t)),
    {
        let mut fx: Vec<Effect> = Vec::new();
        self.push_player_effect(&mut fx, Effect::PlayerSeekAbsolute(t));
        assert(fx@ =~= self.player_fx(Effect::PlayerSeekAbsolute(t)));
        self.seek_to(t, now);
        fx
    }

    fn seek_to_segment(&mut self, to_end: bool, now: u64) -> (fx: Vec<Effect>)
        requires
            old(self).wf(),
        ensures
            final(self).wf(),
            seeked_to_segment(*old(self), to_end, now, *final(self), fx@),
    {
        match self.selected_segment {
            Some(idx) => {
                if idx < self.segments.len() {
                    let t = if to_end {
                        self.segments[idx].end_ns
                    } else {
                        self.segments[idx].start_ns
                    };
                    return self.seek_absolute(t, now);
                }
            },
            None => {},
        }
        Vec::new()
    }

    fn snap_to_keyframe(&mut self, now: u64) -> (fx: Vec<Effect>)
        requires
            old(self).wf(),
        ensures
            final(self).wf(),
            snapped_to_keyframe(*old(self), now, *final(self), fx@),
    {
        let ghost pre = *self;
        let nearest: i64 = match &self.metadata {
            Some(meta) => {
                let kf = &meta.keyframes_ns;
                if kf.len() == 0 {
                    return Vec::new();
                }
                let t = self.current_time as i128;
                let mut best: usize = 0;
                let mut best_d: i128 = if kf[0] as i128 >= t {
                    kf[0] as i128 - t
                } else {
                    t - kf[0] as i128
                };
                let mut i: usize = 1;
                while i < kf.len()
                    invariant
                        1 <= i <= kf@.len(),
                        best < i,
                        t == pre.current_time,
                        best_d == dist(kf@[best as int] as int, t as int),
                        forall|j: int| 0 <= j < i ==> best_d <= dist(kf@[j] as int, t as int),
                        forall|j: int| 0 <= j < best ==> dist(kf@[j] as int, t as int) > best_d,
                    decreases kf.len() - i,
                {
                    let d = if kf[i] as i128 >= t {
                        kf[i] as i128 - t
                    } else {
                        t - kf[i] as i128
                    };
                    if d < best_d {
                        best = i;
                        best_d = d;
                    }
                    i = i + 1;
                }
                proof {
                    assert(is_nearest(kf@, t as int, best as int));
                    assert forall|j: int| is_nearest(kf@, t as int, j) implies j == best by {
                        lemma_nearest_unique(kf@, t as int, j, best as int);
                    }
                }
                kf[best]
            },
            None => {
                return Vec::new();
            },
        };
        let fx = self.seek_absolute(nearest, now);
        let mut v = chars_of("Snapped to keyframe: ");
        let tc = self.format_time(nearest);
        push_str(&mut v, tc.as_str());
        self.set_status(string_from_chars(&v));
        fx
    }

    fn select_prev(&mut self)
        requires
            old(self).wf(),
        ensures
            final(self).wf(),
            *final(self) == (AppState {
                selected_segment: prev_selection(
                    old(self).selected_segment,
                    old(self).segments@.len(),
                ),
                ..*old(self)
            }),
    {
        match self.selected_segment {
            Some(idx) => {
                if idx > 0 {
                    self.selected_segment = Some(idx - 1);
                }
            },
            None => {
                if self.segments.len() > 0 {
                    self.selected_segment = Some(self.segments.len() - 1);
                }
            },
        }
    }

    fn select_next(&mut self)
        requires
            old(self).wf(),
        ensures
            final(self).wf(),
            *final(self) == (AppState {
                selected_segment: next_selection(
                    old(self).selected_segment,
                    old(self).segments@.len(),
                ),
                ..*old(self)
            }),
    {
        match self.selected_segment {
            Some(idx) => {
                let n = self.segments.len();
                if idx + 1 < n {
                    self.selected_segment = Some(idx + 1);
                }
            },
            None => {
                if self.segments.len() > 0 {
                    self.selected_segment = Some(0);
                }
            },
        }
    }
}

pub open spec fn is_lower_hex(c: char) -> bool {
    ('0' <= c && c <= '9') || ('a' <= c && c <= 'f')
}

/// The text of a version-4 UUID as `uuid` writes it: 36 characters, lowercase
/// hexadecimal digits in groups of 8, 4, 4, 4 and 12 joined by hyphens, the
/// version digit `4`, and the variant digit one of `8`, `9`, `a`, `b`.
pub open spec fn uuid_v4_text(s: Seq<char>) -> bool {
    &&& s.len() == 36
    &&& forall|i: int|
        0 <= i < 36 ==> (if i == 8 || i == 13 || i == 18 || i == 23 {
            #[trigger] s[i] == '-'
        } else {
            is_lower_hex(s[i])
        })
    &&& s[14] == '4'
    &&& (s[19] == '8' || s[19] == '9' || s[19] == 'a' || s[19] == 'b')
}

/// A fresh segment id: `uuid::Uuid::new_v4()` in its hyphenated text form.
/// Which UUID comes out is random; what holds of every one is its form.
#[verifier::external_body]
fn new_segment_id() -> (id: String)
    ensures
        uuid_v4_text(id@),
{
    uuid::Uuid::new_v4().to_string()
}

/// The last segment that starts no later than `t`.
pub open spec fn last_started(segs: Seq<Segment>, t: int) -> Option<int>
    decreases segs.len(),
{
    if segs.len() == 0 {
        None
    } else if segs.last().start_ns <= t {
        Some(segs.len() - 1)
    } else {
        last_started(segs.drop_last(), t)
    }
}

proof fn lemma_last_started_bound(segs: Seq<Segment>, t: int)
    ensures
        last_started(segs, t) matches Some(i) ==> 0 <= i < segs.len(),
    decreases segs.len(),
{
    if segs.len() > 0 && segs.last().start_ns > t {
        lemma_last_started_bound(segs.drop_last(), t);
    }
}

/// The first segment from `i` on whose id reads `id`.
pub open spec fn first_with_id_from(segs: Seq<Segment>, id: Seq<char>, i: int) -> Option<int>
    decreases segs.len() - i,
{
    if i < 0 || i >= segs.len() {
        None
    } else if segs[i].id@ == id {
        Some(i)
    } else {
        first_with_id_from(segs, id, i + 1)
    }
}

pub open spec fn first_with_id(segs: Seq<Segment>, id: Seq<char>) -> Option<int> {
    first_with_id_from(segs, id, 0)
}

proof fn lemma_first_with_id_bound(segs: Seq<Segment>, id: Seq<char>, i: int)
    ensures
        first_with_id_from(segs, id, i) matches Some(k) ==> 0 <= i <= k < segs.len(),
    decreases segs.len() - i,
{
    if 0 <= i < segs.len() && segs[i].id@ != id {
        lemma_first_with_id_bound(segs, id, i + 1);
    }
}

/// A segment whose end moves to `t`, its ends swapped when `t` lies before its start.
pub open spec fn updated_segment(seg: Segment, t: i64) -> Segment {
    if t < seg.start_ns {
        Segment { start_ns: t, end_ns: seg.start_ns, ..seg }
    } else {
        Segment { end_ns: t, ..seg }
    }
}

/// An unlabeled segment between two times, in time order.
pub open spec fn new_segment(id: String, a: i64, b: i64) -> Segment {
    Segment {
        id: id,
        start_ns: if a < b {
            a
        } else {
            b
        },
        end_ns: if a < b {
            b
        } else {
            a
        },
        label: None,
    }
}

/// A new segment with a freshly drawn UUID from the in-point to the playhead
/// (in time order) is added, undoably, the list kept ordered by start.
pub open spec fn segment_added(pre: AppState, post: AppState, fx: Seq<Effect>) -> bool {
    exists|id: String| uuid_v4_text(id@) && #[trigger] segment_added_with(pre, id, post, fx)
}

/// A new segment with id `id` from the in-point to the playhead (in time
/// order) is added, undoably, the list kept ordered by start.
pub open spec fn segment_added_with(pre: AppState, id: String, post: AppState, fx: Seq<Effect>) -> bool {
    let start = pre.pending_in_point->0;
    let end = pre.current_time;
    let lo = if start < end {
        start
    } else {
        end
    };
    let hi = if start < end {
        end
    } else {
        start
    };
    &&& post.segments@ == sort_by_start(pre.segments@.push(new_segment(id, start, end)))
    &&& undo_recorded(pre, post)
    &&& post.selected_segment == covering(post.segments@, pre.current_time as int)
    &&& post.says(
        "Segment added: "@ + timecode_text(lo as int) + " - "@ + timecode_text(hi as int),
    )
    &&& post == (AppState {
        segments: post.segments,
        undo_stack: post.undo_stack,
        redo_stack: post.redo_stack,
        selected_segment: post.selected_segment,
        status_message: post.status_message,
        pending_in_point: None,
        ..pre
    })
    &&& fx == pre.save_fx()
}

/// Segment `idx` gets the playhead as its end, undoably; the list is kept
/// ordered by start and the segment stays selected.
pub open spec fn segment_updated(pre: AppState, idx: int, post: AppState, fx: Seq<Effect>) -> bool {
    let seg = updated_segment(pre.segments@[idx], pre.current_time);
    &&& post.segments@ == sort_by_start(pre.segments@.update(idx, seg))
    &&& undo_recorded(pre, post)
    &&& match first_with_id(post.segments@, pre.segments@[idx].id@) {
        Some(p) => {
            &&& post.selected_segment == Some(p as usize)
            &&& post.says(
                "Segment updated: "@ + timecode_text(post.segments@[p].start_ns as int) + " - "@
                    + timecode_text(post.segments@[p].end_ns as int),
            )
        },
        None => post.selected_segment == pre.selected_segment && post.status_message
            == pre.status_message,
    }
    &&& post == (AppState {
        segments: post.segments,
        undo_stack: post.undo_stack,
        redo_stack: post.redo_stack,
        selected_segment: post.selected_segment,
        status_message: post.status_message,
        ..pre
    })
    &&& fx == pre.save_fx()
}

/// Setting the out-point: closes a segment from the in-point if one is set,
/// else moves the end of the last segment starting by the playhead.
pub open spec fn out_point_step(pre: AppState, post: AppState, fx: Seq<Effect>) -> bool {
    match pre.pending_in_point {
        Some(_) => segment_added(pre, post, fx),
        None => match last_started(pre.segments@, pre.current_time as int) {
            Some(idx) => segment_updated(pre, idx, post, fx),
            None => only_says(pre, "Set in-point first (Press 'a')"@, post) && fx.len() == 0,
        },
    }
}

/// Deleting the selected segment, undoably; the selection follows the playhead.
pub open spec fn segment_deleted(pre: AppState, post: AppState, fx: Seq<Effect>) -> bool {
    match pre.selected_segment {
        Some(idx) => if idx < pre.segments@.len() {
            &&& post.segments@ == pre.segments@.remove(idx as int)
            &&& undo_recorded(pre, post)
            &&& post.selected_segment == covering(post.segments@, pre.current_time as int)
            &&& post.says("Segment deleted"@)
            &&& post == (AppState {
                segments: post.segments,
                undo_stack: post.undo_stack,
                redo_stack: post.redo_stack,
                selected_segment: post.selected_segment,
                status_message: post.status_message,
                ..pre
            })
            &&& fx == pre.save_fx()
        } else {
            post == pre && fx.len() == 0
        },
        None => post == pre && fx.len() == 0,
    }
}

/// Starting to edit the selected segment's label, from its current text.
pub open spec fn label_edit_started(pre: AppState, post: AppState) -> bool {
    match pre.selected_segment {
        Some(idx) => {
            &&& post == (AppState {
                mode: AppMode::EditLabel,
                label_input: post.label_input,
                ..pre
            })
            &&& post.label_input@ == if idx < pre.segments@.len() {
                match pre.segments@[idx as int].label {
                    Some(l) => l@,
                    None => Seq::<char>::empty(),
                }
            } else {
                Seq::<char>::empty()
            }
        },
        None => only_says(pre, "Select a segment to label"@, post),
    }
}

/// The text `prefix + tc(a) + " - " + tc(b)`.
fn range_message(prefix: &str, a: i64, b: i64) -> (s: String)
    ensures
        s@ == prefix@ + timecode_text(a as int) + " - "@ + timecode_text(b as int),
{
    let mut v = chars_of(prefix);
    let ta = timecode_string(a);
    push_str(&mut v, ta.as_str());
    push_str(&mut v, " - ");
    let tb = timecode_string(b);
    push_str(&mut v, tb.as_str());
    string_from_chars(&v)
}

/// The last segment starting no later than `t`.
fn last_started_index(segs: &Vec<Segment>, t: i64) -> (r: Option<usize>)
    ensures
        r matches Some(i) ==> last_started(segs@, t as int) == Some(i as int),
        r is None ==> last_started(segs@, t as int) is None,
{
    let mut best: Option<usize> = None;
    let mut i: usize = 0;
    while i < segs.len()
        invariant
            i <= segs@.len(),
            best matches Some(b) ==> last_started(segs@.take(i as int), t as int) == Some(b as int),
            best is None ==> last_started(segs@.take(i as int), t as int) is None,
        decreases segs.len() - i,
    {
        proof {
            assert(segs@.take(i + 1).drop_last() =~= segs@.take(i as int));
        }
        if segs[i].start_ns <= t {
            best = Some(i);
        }
        i = i + 1;
    }
    assert(segs@.take(segs@.len() as int) =~= segs@);
    best
}

/// The first segment whose id reads `id`.
fn index_of_id(segs: &Vec<Segment>, id: &String) -> (r: Option<usize>)
    ensures
        r matches Some(i) ==> first_with_id(segs@, id@) == Some(i as int) && i < segs@.len(),
        r is None ==> first_with_id(segs@, id@) is None,
{
    let mut i: usize = 0;
    while i < segs.len()
        invariant
            i <= segs@.len(),
            first_with_id(segs@, id@) == first_with_id_from(segs@, id@, i as int),
        decreases segs.len() - i,
    {
        if segs[i].id == *id {
            return Some(i);
        }
        i = i + 1;
    }
    None
}

impl AppState {
    fn set_in_point(&mut self)
        requires
            old(self).wf(),
        ensures
            final(self).wf(),
            final(self).says("In-point set at "@ + timecode_text(old(self).current_time as int)),
            *final(self) == (AppState {
                pending_in_point: Some(old(self).current_time),
                status_message: final(self).status_message,
                ..*old(self)
            }),
    {
        self.pending_in_point = Some(self.current_time);
        let mut v = chars_of("In-point set at ");
        let tc = self.format_time(self.current_time);
        push_str(&mut v, tc.as_str());
        self.set_status(string_from_chars(&v));
    }

    /// Closes a segment from the in-point to the playhead under the id `id`:
    /// the segment is added (its ends in time order, no label), the list kept
    /// ordered by start, undoably, and the session is stored.
    pub fn add_segment_with_id(&mut self, id: String) -> (fx: Vec<Effect>)
        requires
            old(self).wf(),
            old(self).pending_in_point is Some,
        ensures
            final(self).wf(),
            segment_added_with(*old(self), id, *final(self), fx@),
    {
        let mut fx: Vec<Effect> = Vec::new();
        let ghost pre = *self;
        let start = match self.pending_in_point {
            Some(s) => s,
            None => 0,
        };
        self.push_undo();
        let end = self.current_time;
        let (lo, hi) = if start < end {
            (start, end)
        } else {
            (end, start)
        };
        let seg = Segment { id, start_ns: lo, end_ns: hi, label: None };
        let ghost added = seg;
        let mut all = clone_segments(&self.segments);
        all.push(seg);
        self.segments = sort_segments(&all);
        assert(added == new_segment(added.id, start, end));
        assert(self.segments@ == sort_by_start(pre.segments@.push(new_segment(added.id, start, end))));
        self.pending_in_point = None;
        self.set_status(range_message("Segment added: ", lo, hi));
        self.push_save_effect(&mut fx);
        assert(fx@ =~= pre.save_fx());
        self.selected_segment = None;
        self.sync_auto_selection();
        fx
    }

    fn set_out_point(&mut self) -> (fx: Vec<Effect>)
        requires
            old(self).wf(),
        ensures
            final(self).wf(),
            out_point_step(*old(self), *final(self), fx@),
    {
        let mut fx: Vec<Effect> = Vec::new();
        let ghost pre = *self;
        match self.pending_in_point {
            Some(_) => {
                let id = new_segment_id();
                let ghost drawn = id;
                let fx = self.add_segment_with_id(id);
                assert(uuid_v4_text(drawn@) && segment_added_with(pre, drawn, *self, fx@));
                return fx;
            },
            None => {},
        }
        match last_started_index(&self.segments, self.current_time) {
            Some(idx) => {
                proof {
                    lemma_last_started_bound(self.segments@, self.current_time as int);
                }
                self.push_undo();
                let id = self.segments[idx].id.clone();
                let mut seg = self.segments[idx].clone();
                let t = self.current_time;
                if t < seg.start_ns {
                    seg.end_ns = seg.start_ns;
                    seg.start_ns = t;
                } else {
                    seg.end_ns = t;
                }
                let mut all = clone_segments(&self.segments);
                all.set(idx, seg);
                self.segments = sort_segments(&all);
                match index_of_id(&self.segments, &id) {
                    Some(p) => {
                        self.selected_segment = Some(p);
                        let a = self.segments[p].start_ns;
                        let b = self.segments[p].end_ns;
                        self.set_status(range_message("Segment updated: ", a, b));
                    },
                    None => {
                        proof {
                            lemma_sort_ordered(all@);
                        }
                    },
                }
                self.push_save_effect(&mut fx);
                assert(fx@ =~= pre.save_fx());
            },
            None => {
                self.set_status(String::from_str("Set in-point first (Press 'a')"));
            },
        }
        fx
    }
}

/// Probing a file starts: it becomes the source, any found session is
/// forgotten, and the program is asked to probe it.
pub open spec fn probing_started(pre: AppState, path: String, post: AppState, fx: Seq<Effect>) -> bool {
    &&& post.says("Probing metadata/keyframes for "@ + path@ + "..."@)
    &&& post == (AppState {
        is_probing: true,
        pending_session: None,
        source_path: Some(path),
        status_message: post.status_message,
        ..pre
    })
    &&& fx == seq![Effect::StartProbe(path)]
}

pub open spec fn msg_no_source() -> Seq<char> {
    "No source media file known for export. Run a local player or pass media via CLI arg."@
}

/// Starting an export of every segment (`merged` for one merged file).
pub open spec fn export_started(pre: AppState, merged: bool, post: AppState, fx: Seq<Effect>) -> bool {
    if pre.segments@.len() == 0 {
        only_says(pre, "Create at least one segment to export"@, post) && fx.len() == 0
    } else {
        match pre.source_path {
            Some(p) => {
                &&& post.says(
                    if merged {
                        "Exporting merged clip..."@
                    } else {
                        "Exporting separate clips..."@
                    },
                )
                &&& post == (AppState {
                    mode: AppMode::Export,
                    is_exporting: true,
                    status_message: post.status_message,
                    ..pre
                })
                &&& fx == seq![
                    if merged {
                        Effect::ExportMerged(p)
                    } else {
                        Effect::ExportSeparate(p)
                    },
                ]
            },
            None => only_says(pre, msg_no_source(), post) && fx.len() == 0,
        }
    }
}

/// Starting an export of the selected segment.
pub open spec fn selected_export_started(pre: AppState, post: AppState, fx: Seq<Effect>) -> bool {
    match pre.selected_segment {
        Some(idx) => match pre.source_path {
            Some(p) => {
                &&& post.says("Exporting segment "@ + decimal((idx + 1) as nat) + "..."@)
                &&& post == (AppState {
                    mode: AppMode::Export,
                    is_exporting: true,
                    status_message: post.status_message,
                    ..pre
                })
                &&& fx == seq![Effect::ExportSegment(p, idx)]
            },
            None => only_says(pre, "No source media file known for export."@, post) && fx.len()
                == 0,
        },
        None => only_says(pre, "Select a segment first to export it individually"@, post)
            && fx.len() == 0,
    }
}

/// Undo or redo as an action: the history step, then the session is stored
/// and the selection follows the playhead.
pub open spec fn history_step(pre: AppState, redo: bool, post: AppState, fx: Seq<Effect>) -> bool {
    exists|mid: AppState, fx1: Seq<Effect>|
        #![trigger undone(pre, mid, fx1)]
        #![trigger redone(pre, mid, fx1)]
        (if redo {
            redone(pre, mid, fx1)
        } else {
            undone(pre, mid, fx1)
        }) && post == (AppState {
            selected_segment: covering(mid.segments@, mid.current_time as int),
            ..mid
        }) && fx == fx1 + pre.save_fx()
}

impl AppState {
    fn delete_segment(&mut self) -> (fx: Vec<Effect>)
        requires
            old(self).wf(),
        ensures
            final(self).wf(),
            segment_deleted(*old(self), *final(self), fx@),
    {
        let mut fx: Vec<Effect> = Vec::new();
        let ghost pre = *self;
        match self.selected_segment {
            Some(idx) => {
                if idx < self.segments.len() {
                    self.push_undo();
                    self.segments.remove(idx);
                    self.selected_segment = None;
                    self.set_status(String::from_str("Segment deleted"));
                    self.push_save_effect(&mut fx);
                    assert(fx@ =~= pre.save_fx());
                    self.sync_auto_selection();
                }
            },
            None => {},
        }
        fx
    }

    fn start_label_edit(&mut self)
        requires
            old(self).wf(),
        ensures
            final(self).wf(),
            label_edit_started(*old(self), *final(self)),
    {
        match self.selected_segment {
            Some(idx) => {
                self.mode = AppMode::EditLabel;
                let text: String = if idx < self.segments.len() {
                    match &self.segments[idx].label {
                        Some(l) => l.clone(),
                        None => String::new(),
                    }
                } else {
                    String::new()
                };
                self.label_input = text;
            },
            None => {
                self.set_status(String::from_str("Select a segment to label"));
            },
        }
    }

    /// Makes `path` the source and asks for it to be probed.
    pub fn start_probing(&mut self, path: String) -> (fx: Vec<Effect>)
        requires
            old(self).wf(),
        ensures
            final(self).wf(),
            probing_started(*old(self), path, *final(self), fx@),
    {
        self.is_probing = true;
        self.pending_session = None;
        self.source_path = Some(path.clone());
        let mut v = chars_of("Probing metadata/keyframes for ");
        push_str(&mut v, path.as_str());
        push_str(&mut v, "...");
        self.set_status(string_from_chars(&v));
        let mut fx: Vec<Effect> = Vec::new();
        fx.push(Effect::StartProbe(path));
        assert(fx@ =~= seq![Effect::StartProbe(path)]);
        fx
    }

    fn start_export(&mut self, merged: bool) -> (fx: Vec<Effect>)
        requires
            old(self).wf(),
        ensures
            final(self).wf(),
            export_started(*old(self), merged, *final(self), fx@),
    {
        let mut fx: Vec<Effect> = Vec::new();
        if self.segments.len() == 0 {
            self.set_status(String::from_str("Create at least one segment to export"));
            return fx;
        }
        match &self.source_path {
            Some(p) => {
                let path = p.clone();
                self.mode = AppMode::Export;
                self.is_exporting = true;
                if merged {
                    fx.push(Effect::ExportMerged(path));
                    self.set_status(String::from_str("Exporting merged clip..."));
                } else {
                    fx.push(Effect::ExportSeparate(path));
                    self.set_status(String::from_str("Exporting separate clips..."));
                }
            },
            None => {
                self.set_status(
                    String::from_str(
                        "No source media file known for export. Run a local player or pass media via CLI arg.",
                    ),
                );
            },
        }
        fx
    }

    fn start_selected_export(&mut self) -> (fx: Vec<Effect>)
        requires
            old(self).wf(),
        ensures
            final(self).wf(),
            selected_export_started(*old(self), *final(self), fx@),
    {
        let mut fx: Vec<Effect> = Vec::new();
        match self.selected_segment {
            Some(idx) => {
                match &self.source_path {
                    Some(p) => {
                        let path = p.clone();
                        self.mode = AppMode::Export;
                        self.is_exporting = true;
                        fx.push(Effect::ExportSegment(path, idx));
                        let n = self.segments.len();
                        assert(idx < n);
                        let mut v = chars_of("Exporting segment ");
                        push_decimal(&mut v, idx as u64 + 1);
                        push_str(&mut v, "...");
                        self.set_status(string_from_chars(&v));
                    },
                    None => {
                        self.set_status(String::from_str("No source media file known for export."));
                    },
                }
            },
            None => {
                self.set_status(
                    String::from_str("Select a segment first to export it individually"),
                );
            },
        }
        fx
    }

    fn history(&mut self, redo: bool) -> (fx: Vec<Effect>)
        requires
            old(self).wf(),
        ensures
            final(self).wf(),
            history_step(*old(self), redo, *final(self), fx@),
    {
        let ghost pre = *self;
        let mut fx = if redo {
            self.redo()
        } else {
            self.undo()
        };
        let ghost mid = *self;
        let ghost fx1 = fx@;
        self.push_save_effect(&mut fx);
        self.sync_auto_selection();
        assert(if redo {
            redone(pre, mid, fx1)
        } else {
            undone(pre, mid, fx1)
        });
        fx
    }
}

/// A cell inside a rectangle `(x, y, width, height)`.
pub open spec fn inside(rect: (u16, u16, u16, u16), row: u16, col: u16) -> bool {
    rect.1 <= row < rect.1 + rect.3 && rect.0 <= col < rect.0 + rect.2
}

/// `a - b`, or zero when `b` is larger.
pub open spec fn sat_sub(a: u16, b: u16) -> u16 {
    if a > b {
        (a - b) as u16
    } else {
        0
    }
}

/// An integer wrapped into `i16` the way two's complement arithmetic does.
pub open spec fn wrap16(x: int) -> i16 {
    ((x + 32768) % 65536 - 32768) as i16
}

fn wrap_i16(x: i32) -> (r: i16)
    requires
        -200_000 <= x <= 200_000,
    ensures
        r == wrap16(x as int),
{
    let y: i32 = (x + 32768 + 262144) % 65536 - 32768;
    assert((x + 32768 + 262144) % 65536 == (x + 32768) % 65536) by (nonlinear_arith)
        requires
            -200_000 <= x <= 200_000,
    ;
    y as i16
}

/// The time under a column of the timeline area.
pub open spec fn timeline_time(pre: AppState, col: u16) -> i64 {
    pre.timeline_state.time_at(
        sat_sub(col, pre.timeline_rect.0) as int,
        pre.timeline_rect.2 as int,
    ) as i64
}

/// A time limited to the media.
pub open spec fn within_media(pre: AppState, t: i64) -> i64 {
    clamp_int(t as int, 0, pre.timeline_state.duration as int) as i64
}

/// A mouse button pressed at a cell: on the timeline a left press seeks and
/// starts scrubbing (pausing playback meanwhile), a right press starts
/// panning; on the segment list a left press selects a segment and seeks to it.
pub open spec fn mouse_pressed(
    pre: AppState,
    button: MouseButton,
    row: u16,
    col: u16,
    now: u64,
    post: AppState,
    fx: Seq<Effect>,
) -> bool {
    if inside(pre.timeline_rect, row, col) {
        let target = timeline_time(pre, col);
        let t = within_media(pre, target);
        match button {
            MouseButton::Left => {
                &&& post == (AppState {
                    is_dragging_timeline: true,
                    drag_last_col: col,
                    drag_was_playing: pre.player_playing,
                    current_time: t,
                    last_seek_time: now,
                    selected_segment: covering(pre.segments@, t as int),
                    ..pre
                })
                &&& fx == (if pre.player_playing {
                    pre.player_fx(Effect::PlayerPause)
                } else {
                    Seq::<Effect>::empty()
                }) + pre.player_fx(Effect::PlayerSeekAbsolute(target))
            },
            MouseButton::Right => {
                &&& post == (AppState { is_panning_timeline: true, drag_last_col: col, ..pre })
                &&& fx.len() == 0
            },
            MouseButton::Middle => post == pre && fx.len() == 0,
        }
    } else if inside(pre.segments_rect, row, col) && button == MouseButton::Left {
        let idx = sat_sub(row, pre.segments_rect.1);
        if idx < pre.segments@.len() {
            let start = pre.segments@[idx as int].start_ns;
            &&& post == (AppState {
                selected_segment: Some(idx as usize),
                current_time: start,
                last_seek_time: now,
                ..pre
            })
            &&& fx == pre.player_fx(Effect::PlayerSeekAbsolute(start))
        } else {
            post == pre && fx.len() == 0
        }
    } else {
        post == pre && fx.len() == 0
    }
}

/// The mouse dragged to a column: scrubbing follows it (telling the player at
/// most every 50 ms), panning shifts the view by the columns moved.
pub open spec fn mouse_dragged(pre: AppState, col: u16, now: u64, post: AppState, fx: Seq<Effect>) -> bool {
    if pre.is_dragging_timeline {
        let target = timeline_time(pre, col);
        let t = within_media(pre, target);
        let tell = now >= pre.last_seek_time + 50;
        &&& post == (AppState {
            current_time: t,
            last_seek_time: if tell {
                now
            } else {
                pre.last_seek_time
            },
            selected_segment: covering(pre.segments@, t as int),
            ..pre
        })
        &&& fx == if tell {
            pre.player_fx(Effect::PlayerSeekAbsolute(target))
        } else {
            Seq::<Effect>::empty()
        }
    } else if pre.is_panning_timeline {
        let delta = wrap16(wrap16(col as int) - wrap16(pre.drag_last_col as int));
        &&& post == (AppState {
            timeline_state: pan_result(
                pre.timeline_state,
                wrap16(-delta),
                pre.timeline_rect.2,
            ),
            drag_last_col: col,
            ..pre
        })
        &&& fx.len() == 0
    } else {
        post == pre && fx.len() == 0
    }
}

/// The mouse released at a column: scrubbing ends at that time and playback
/// resumes if it was on; panning ends.
pub open spec fn mouse_released(pre: AppState, col: u16, now: u64, post: AppState, fx: Seq<Effect>) -> bool {
    if pre.is_dragging_timeline {
        let target = timeline_time(pre, col);
        let t = within_media(pre, target);
        &&& post == (AppState {
            is_dragging_timeline: false,
            current_time: t,
            last_seek_time: now,
            selected_segment: covering(pre.segments@, t as int),
            ..pre
        })
        &&& fx == pre.player_fx(Effect::PlayerSeekAbsolute(target)) + (if pre.drag_was_playing {
            pre.player_fx(Effect::PlayerPlay)
        } else {
            Seq::<Effect>::empty()
        })
    } else if pre.is_panning_timeline {
        post == (AppState { is_panning_timeline: false, ..pre }) && fx.len() == 0
    } else {
        post == pre && fx.len() == 0
    }
}

/// The wheel turned over a column: zoom by 1.2 around the time under it.
pub open spec fn mouse_scrolled(pre: AppState, up: bool, col: u16, post: AppState) -> bool {
    let anchor = timeline_time(pre, col);
    post == (AppState {
        timeline_state: if up {
            zoom_in_result(pre.timeline_state, 1_200_000_000, anchor)
        } else {
            zoom_out_result(pre.timeline_state, 1_200_000_000, anchor)
        },
        ..pre
    })
}

impl AppState {
    fn timeline_target(&self, col: u16) -> (t: i64)
        requires
            self.wf(),
        ensures
            t == timeline_time(*self, col),
    {
        let px = col.saturating_sub(self.timeline_rect.0);
        self.timeline_state.pixel_to_time(px, self.timeline_rect.2)
    }

    fn clamp_to_media(&self, t: i64) -> (r: i64)
        requires
            self.wf(),
        ensures
            r == within_media(*self, t),
    {
        if t < 0 {
            0
        } else if t > self.timeline_state.duration {
            self.timeline_state.duration
        } else {
            t
        }
    }

    fn is_inside_timeline(&self, row: u16, col: u16) -> (b: bool)
        ensures
            b == inside(self.timeline_rect, row, col),
    {
        let (tx, ty, tw, th) = self.timeline_rect;
        row >= ty && (row as u32) < ty as u32 + th as u32 && col >= tx && (col as u32) < tx as u32
            + tw as u32
    }

    fn is_inside_segments(&self, row: u16, col: u16) -> (b: bool)
        ensures
            b == inside(self.segments_rect, row, col),
    {
        let (sx, sy, sw, sh) = self.segments_rect;
        row >= sy && (row as u32) < sy as u32 + sh as u32 && col >= sx && (col as u32) < sx as u32
            + sw as u32
    }

    fn mouse_press(&mut self, button: MouseButton, row: u16, col: u16, now: u64) -> (fx: Vec<
        Effect,
    >)
        requires
            old(self).wf(),
        ensures
            final(self).wf(),
            mouse_pressed(*old(self), button, row, col, now, *final(self), fx@),
    {
        let mut fx: Vec<Effect> = Vec::new();
        let ghost pre = *self;
        if self.is_inside_timeline(row, col) {
            let target = self.timeline_target(col);
            match button {
                MouseButton::Left => {
                    self.is_dragging_timeline = true;
                    self.drag_last_col = col;
                    self.drag_was_playing = self.player_playing;
                    if self.player_playing {
                        self.push_player_effect(&mut fx, Effect::PlayerPause);
                    }
                    self.push_player_effect(&mut fx, Effect::PlayerSeekAbsolute(target));
                    let t = self.clamp_to_media(target);
                    self.current_time = t;
                    self.last_seek_time = now;
                    self.sync_auto_selection();
                    assert(fx@ =~= (if pre.player_playing {
                        pre.player_fx(Effect::PlayerPause)
                    } else {
                        Seq::<Effect>::empty()
                    }) + pre.player_fx(Effect::PlayerSeekAbsolute(target)));
                },
                MouseButton::Right => {
                    self.is_panning_timeline = true;
                    self.drag_last_col = col;
                },
                MouseButton::Middle => {},
            }
        } else if self.is_inside_segments(row, col) {
            if button == MouseButton::Left {
                let click_row = row.saturating_sub(self.segments_rect.1);
                let idx = click_row as usize;
                if idx < self.segments.len() {
                    self.selected_segment = Some(idx);
                    let start = self.segments[idx].start_ns;
                    self.push_player_effect(&mut fx, Effect::PlayerSeekAbsolute(start));
                    assert(fx@ =~= pre.player_fx(Effect::PlayerSeekAbsolute(start)));
                    self.current_time = start;
                    self.last_seek_time = now;
                }
            }
        }
        fx
    }

    fn mouse_drag(&mut self, col: u16, now: u64) -> (fx: Vec<Effect>)
        requires
            old(self).wf(),
        ensures
            final(self).wf(),
            mouse_dragged(*old(self), col, now, *final(self), fx@),
    {
        let mut fx: Vec<Effect> = Vec::new();
        let ghost pre = *self;
        if self.is_dragging_timeline {
            let target = self.timeline_target(col);
            self.current_time = self.clamp_to_media(target);
            if now >= self.last_seek_time && now - self.last_seek_time >= 50 {
                self.push_player_effect(&mut fx, Effect::PlayerSeekAbsolute(target));
                assert(fx@ =~= pre.player_fx(Effect::PlayerSeekAbsolute(target)));
                self.last_seek_time = now;
            }
            self.sync_auto_selection();
        } else if self.is_panning_timeline {
            let c = wrap_i16(col as i32);
            let last = wrap_i16(self.drag_last_col as i32);
            let delta = wrap_i16(c as i32 - last as i32);
            let back = wrap_i16(-(delta as i32));
            let width = self.timeline_rect.2;
            self.timeline_state.pan(back, width);
            self.drag_last_col = col;
        }
        fx
    }

    fn mouse_release(&mut self, col: u16, now: u64) -> (fx: Vec<Effect>)
        requires
            old(self).wf(),
        ensures
            final(self).wf(),
            mouse_released(*old(self), col, now, *final(self), fx@),
    {
        let mut fx: Vec<Effect> = Vec::new();
        let ghost pre = *self;
        if self.is_dragging_timeline {
            self.is_dragging_timeline = false;
            let target = self.timeline_target(col);
            self.push_player_effect(&mut fx, Effect::PlayerSeekAbsolute(target));
            if self.drag_was_playing {
                self.push_player_effect(&mut fx, Effect::PlayerPlay);
            }
            assert(fx@ =~= pre.player_fx(Effect::PlayerSeekAbsolute(target)) + (if pre.drag_was_playing {
                pre.player_fx(Effect::PlayerPlay)
            } else {
                Seq::<Effect>::empty()
            }));
            self.current_time = self.clamp_to_media(target);
            self.last_seek_time = now;
            self.sync_auto_selection();
        } else if self.is_panning_timeline {
            self.is_panning_timeline = false;
        }
        fx
    }

    fn mouse_scroll(&mut self, up: bool, col: u16)
        requires
            old(self).wf(),
        ensures
            final(self).wf(),
            mouse_scrolled(*old(self), up, col, *final(self)),
    {
        let anchor = self.timeline_target(col);
        if up {
            self.timeline_state.zoom_in(1_200_000_000, anchor);
        } else {
            self.timeline_state.zoom_out(1_200_000_000, anchor);
        }
    }
}

/// What an action does in the normal, help and export modes, at clock reading `now`.
pub open spec fn normal_step(
    pre: AppState,
    action: AppAction,
    now: u64,
    post: AppState,
    fx: Seq<Effect>,
) -> bool {
    let dur = pre.timeline_state.duration;
    match action {
        AppAction::Quit => post == (AppState { should_quit: true, ..pre }) && fx.len() == 0,
        AppAction::Cancel => {
            &&& post.says("Cancelled"@)
            &&& post == (AppState {
                mode: AppMode::Normal,
                pending_in_point: None,
                selected_segment: if pre.pending_in_point is Some {
                    pre.selected_segment
                } else {
                    None
                },
                status_message: post.status_message,
                ..pre
            })
            &&& fx.len() == 0
        },
        AppAction::ToggleHelp => {
            &&& post == (AppState {
                mode: if pre.mode == AppMode::Help {
                    AppMode::Normal
                } else {
                    AppMode::Help
                },
                ..pre
            })
            &&& fx.len() == 0
        },
        AppAction::TogglePlay => post == pre && fx == pre.player_fx(Effect::PlayerTogglePlay),
        AppAction::SeekForward(n) => {
            &&& seeked(
                pre,
                saturate_i64(
                    if pre.current_time + n < dur {
                        pre.current_time + n
                    } else {
                        dur as int
                    },
                ),
                now,
                post,
            )
            &&& fx == pre.player_fx(Effect::PlayerSeekForward(n))
        },
        AppAction::SeekBackward(n) => {
            &&& seeked(
                pre,
                saturate_i64(
                    if pre.current_time - n > 0 {
                        pre.current_time - n
                    } else {
                        0
                    },
                ),
                now,
                post,
            )
            &&& fx == pre.player_fx(Effect::PlayerSeekBackward(n))
        },
        AppAction::SeekToStart => seeked(pre, 0, now, post) && fx == pre.player_fx(
            Effect::PlayerSeekAbsolute(0),
        ),
        AppAction::SeekToEnd => seeked(pre, dur, now, post) && fx == pre.player_fx(
            Effect::PlayerSeekAbsolute(dur),
        ),
        AppAction::SetInPoint => {
            &&& post.says("In-point set at "@ + timecode_text(pre.current_time as int))
            &&& post == (AppState {
                pending_in_point: Some(pre.current_time),
                status_message: post.status_message,
                ..pre
            })
            &&& fx.len() == 0
        },
        AppAction::SetOutPoint | AppAction::ConfirmSegment => out_point_step(pre, post, fx),
        AppAction::DeleteSegment => segment_deleted(pre, post, fx),
        AppAction::SelectPrevSegment => {
            &&& post == (AppState {
                selected_segment: prev_selection(pre.selected_segment, pre.segments@.len()),
                ..pre
            })
            &&& fx.len() == 0
        },
        AppAction::SelectNextSegment => {
            &&& post == (AppState {
                selected_segment: next_selection(pre.selected_segment, pre.segments@.len()),
                ..pre
            })
            &&& fx.len() == 0
        },
        AppAction::SeekToSegmentStart => seeked_to_segment(pre, false, now, post, fx),
        AppAction::SeekToSegmentEnd => seeked_to_segment(pre, true, now, post, fx),
        AppAction::ZoomIn => {
            &&& post == (AppState {
                timeline_state: zoom_in_result(pre.timeline_state, 1_500_000_000, pre.current_time),
                ..pre
            })
            &&& fx.len() == 0
        },
        AppAction::ZoomOut => {
            &&& post == (AppState {
                timeline_state: zoom_out_result(pre.timeline_state, 1_500_000_000, pre.current_time),
                ..pre
            })
            &&& fx.len() == 0
        },
        AppAction::PanLeft => {
            &&& post == (AppState {
                timeline_state: pan_result(pre.timeline_state, -10i16, pre.timeline_rect.2),
                ..pre
            })
            &&& fx.len() == 0
        },
        AppAction::PanRight => {
            &&& post == (AppState {
                timeline_state: pan_result(pre.timeline_state, 10i16, pre.timeline_rect.2),
                ..pre
            })
            &&& fx.len() == 0
        },
        AppAction::Undo => history_step(pre, false, post, fx),
        AppAction::Redo => history_step(pre, true, post, fx),
        AppAction::EditLabel => label_edit_started(pre, post) && fx.len() == 0,
        AppAction::SnapToKeyframe => snapped_to_keyframe(pre, now, post, fx),
        AppAction::OpenFile(path) => probing_started(pre, path, post, fx),
        AppAction::Export => export_started(pre, false, post, fx),
        AppAction::ExportMerged => export_started(pre, true, post, fx),
        AppAction::ExportSelected => selected_export_started(pre, post, fx),
        AppAction::SwitchPlayer => post == pre && fx == seq![Effect::SwitchPlayer],
        AppAction::MousePress { button, row, col } => mouse_pressed(
            pre,
            button,
            row,
            col,
            now,
            post,
            fx,
        ),
        AppAction::MouseDrag { row: _, col } => mouse_dragged(pre, col, now, post, fx),
        AppAction::MouseRelease { row: _, col } => mouse_released(pre, col, now, post, fx),
        AppAction::MouseScroll { up, row: _, col } => mouse_scrolled(pre, up, col, post) && fx.len()
            == 0,
        _ => post == pre && fx.len() == 0,
    }
}

/// What an action does, depending on the mode.
pub open spec fn action_step(
    pre: AppState,
    action: AppAction,
    now: u64,
    post: AppState,
    fx: Seq<Effect>,
) -> bool {
    if pre.mode == AppMode::EditLabel {
        edit_label_step(pre, action, post, fx)
    } else if pre.mode == AppMode::SessionRestore {
        restore_step(pre, action, post, fx)
    } else {
        normal_step(pre, action, now, post, fx)
    }
}

impl AppState {
    fn cancel(&mut self)
        requires
            old(self).wf(),
        ensures
            final(self).wf(),
            normal_step(*old(self), AppAction::Cancel, 0, *final(self), Seq::<Effect>::empty()),
    {
        let had_in_point = self.pending_in_point.is_some();
        self.mode = AppMode::Normal;
        self.pending_in_point = None;
        if !had_in_point {
            self.selected_segment = None;
        }
        self.set_status(String::from_str("Cancelled"));
    }

    /// Answers an action at clock reading `now_ms` (milliseconds): the state
    /// changes as [`action_step`] describes, and the effects returned are for
    /// the program to carry out, in order.
    pub fn apply_action(&mut self, action: AppAction, now_ms: u64) -> (fx: Vec<Effect>)
        requires
            old(self).wf(),
        ensures
            final(self).wf(),
            action_step(*old(self), action, now_ms, *final(self), fx@),
    {
        if self.mode == AppMode::EditLabel {
            return self.apply_in_edit_label(action);
        }
        if self.mode == AppMode::SessionRestore {
            return self.apply_in_session_restore(action);
        }
        let ghost pre = *self;
        let duration = self.timeline_state.duration;
        match action {
            AppAction::Quit => {
                self.should_quit = true;
                Vec::new()
            },
            AppAction::Cancel => {
                self.cancel();
                Vec::new()
            },
            AppAction::ToggleHelp => {
                self.mode = if self.mode == AppMode::Help {
                    AppMode::Normal
                } else {
                    AppMode::Help
                };
                Vec::new()
            },
            AppAction::TogglePlay => {
                let mut fx: Vec<Effect> = Vec::new();
                self.push_player_effect(&mut fx, Effect::PlayerTogglePlay);
                assert(fx@ =~= pre.player_fx(Effect::PlayerTogglePlay));
                fx
            },
            AppAction::SeekForward(n) => self.seek_forward(n, now_ms),
            AppAction::SeekBackward(n) => self.seek_backward(n, now_ms),
            AppAction::SeekToStart => self.seek_absolute(0, now_ms),
            AppAction::SeekToEnd => self.seek_absolute(duration, now_ms),
            AppAction::SetInPoint => {
                self.set_in_point();
                Vec::new()
            },
            AppAction::SetOutPoint | AppAction::ConfirmSegment => self.set_out_point(),
            AppAction::DeleteSegment => self.delete_segment(),
            AppAction::SelectPrevSegment => {
                self.select_prev();
                Vec::new()
            },
            AppAction::SelectNextSegment => {
                self.select_next();
                Vec::new()
            },
            AppAction::SeekToSegmentStart => self.seek_to_segment(false, now_ms),
            AppAction::SeekToSegmentEnd => self.seek_to_segment(true, now_ms),
            AppAction::ZoomIn => {
                let t = self.current_time;
                self.timeline_state.zoom_in(1_500_000_000, t);
                Vec::new()
            },
            AppAction::ZoomOut => {
                let t = self.current_time;
                self.timeline_state.zoom_out(1_500_000_000, t);
                Vec::new()
            },
            AppAction::PanLeft => {
                let w = self.timeline_rect.2;
                self.timeline_state.pan(-10, w);
                Vec::new()
            },
            AppAction::PanRight => {
                let w = self.timeline_rect.2;
                self.timeline_state.pan(10, w);
                Vec::new()
            },
            AppAction::Undo => self.history(false),
            AppAction::Redo => self.history(true),
            AppAction::EditLabel => {
                self.start_label_edit();
                Vec::new()
            },
            AppAction::SnapToKeyframe => self.snap_to_keyframe(now_ms),
            AppAction::OpenFile(path) => self.start_probing(path),
            AppAction::Export => self.start_export(false),
            AppAction::ExportMerged => self.start_export(true),
            AppAction::ExportSelected => self.start_selected_export(),
            AppAction::SwitchPlayer => {
                let mut fx: Vec<Effect> = Vec::new();
                fx.push(Effect::SwitchPlayer);
                assert(fx@ =~= seq![Effect::SwitchPlayer]);
                fx
            },
            AppAction::MousePress { button, row, col } => self.mouse_press(button, row, col, now_ms),
            AppAction::MouseDrag { row: _, col } => self.mouse_drag(col, now_ms),
            AppAction::MouseRelease { row: _, col } => self.mouse_release(col, now_ms),
            AppAction::MouseScroll { up, row: _, col } => {
                self.mouse_scroll(up, col);
                Vec::new()
            },
            _ => Vec::new(),
        }
    }
}

/// Probing finished: the metadata and a whole-media timeline on success, with
/// the stored session looked up; the failure on the status line otherwise.
pub open spec fn probe_finished(
    pre: AppState,
    res: Result<MediaMetadata, String>,
    post: AppState,
    fx: Seq<Effect>,
) -> bool {
    match res {
        Ok(m) => {
            &&& post.says("Keyframe probing complete."@)
            &&& post == (AppState {
                is_probing: false,
                metadata: Some(m),
                timeline_state: TimelineState::new_spec(m.duration_ns),
                status_message: post.status_message,
                ..pre
            })
            &&& fx == match pre.source_path {
                Some(p) => seq![Effect::LoadSession(p)],
                None => Seq::<Effect>::empty(),
            }
        },
        Err(e) => {
            &&& post.says("Probing failed: "@ + e@)
            &&& post == (AppState {
                is_probing: false,
                status_message: post.status_message,
                ..pre
            })
            &&& fx.len() == 0
        },
    }
}

/// The question put when a session is found for the source.
pub open spec fn session_question(count: nat, unchanged: bool) -> Seq<char> {
    if unchanged {
        "Session found: "@ + decimal(count) + " segments from previous session. Restore? [Y/n]"@
    } else {
        "Session found: "@ + decimal(count)
            + " segments. Warning: Source file may have changed, keyframe positions could differ. Restore? [Y/n]"@
    }
}

/// What a message from the export does; the `bool` says whether the export is over.
pub open spec fn export_polled(pre: AppState, poll: ExportPoll, post: AppState, done: bool) -> bool {
    match poll {
        ExportPoll::Message(ExportMsg::Progress(msg)) => {
            post == (AppState { status_message: Some(msg), ..pre }) && !done
        },
        ExportPoll::Message(ExportMsg::Done(outputs)) => finished_export(
            pre,
            "Exported "@ + decimal(outputs@.len()) + " clips successfully."@,
            post,
        ) && done,
        ExportPoll::Message(ExportMsg::MergedDone(output)) => finished_export(
            pre,
            "Merged clip exported to: "@ + output@,
            post,
        ) && done,
        ExportPoll::Message(ExportMsg::Failed(e)) => finished_export(
            pre,
            "Export failed: "@ + e@,
            post,
        ) && done,
        ExportPoll::Empty => post == pre && !done,
        ExportPoll::Disconnected => {
            post == (AppState { mode: AppMode::Normal, is_exporting: false, ..pre }) && done
        },
    }
}

/// The export is over with `msg` on the status line.
pub open spec fn finished_export(pre: AppState, msg: Seq<char>, post: AppState) -> bool {
    &&& post.says(msg)
    &&& post == (AppState {
        mode: AppMode::Normal,
        is_exporting: false,
        status_message: post.status_message,
        ..pre
    })
}

/// The first position at which a text occurs in a list.
pub open spec fn first_text_from(ids: Seq<String>, id: Seq<char>, i: int) -> Option<int>
    decreases ids.len() - i,
{
    if i < 0 || i >= ids.len() {
        None
    } else if ids[i]@ == id {
        Some(i)
    } else {
        first_text_from(ids, id, i + 1)
    }
}

proof fn lemma_first_text_bound(ids: Seq<String>, id: Seq<char>, i: int)
    ensures
        first_text_from(ids, id, i) matches Some(k) ==> 0 <= i <= k < ids.len(),
    decreases ids.len() - i,
{
    if 0 <= i < ids.len() && ids[i]@ != id {
        lemma_first_text_bound(ids, id, i + 1);
    }
}

/// Player `index` becomes the active one: the old metadata and timeline are
/// dropped and the player's file (else the command line's) is probed.
pub open spec fn player_selected(
    pre: AppState,
    index: usize,
    player_source: Option<String>,
    post: AppState,
    fx: Seq<Effect>,
) -> bool {
    if index < pre.available_players@.len() {
        let base = player_base(pre, index);
        &&& post.says("Switched to player: "@ + pre.available_players@[index as int]@)
        &&& match probe_choice(pre, player_source) {
            Some(p) => exists|mid: AppState|
                #![trigger probing_started(player_base(pre, index), p, mid, fx)]
                probing_started(player_base(pre, index), p, mid, fx) && post == (AppState {
                    status_message: post.status_message,
                    ..mid
                }),
            None => post == (AppState { status_message: post.status_message, ..base }) && fx.len()
                == 0,
        }
    } else {
        post == pre && fx.len() == 0
    }
}

/// The state once player `index` is active, before anything is probed.
pub open spec fn player_base(pre: AppState, index: usize) -> AppState {
    AppState {
        active_player_index: Some(index),
        metadata: None,
        timeline_state: TimelineState::new_spec(0),
        ..pre
    }
}

/// The file to probe for a newly active player: the one it reports, else the
/// command line's.
pub open spec fn probe_choice(pre: AppState, player_source: Option<String>) -> Option<String> {
    match player_source {
        Some(p) => Some(p),
        None => pre.cli_source_path,
    }
}

/// The first position at which `id` occurs.
fn position_of_text(ids: &Vec<String>, id: &String) -> (r: Option<usize>)
    ensures
        r matches Some(i) ==> first_text_from(ids@, id@, 0) == Some(i as int) && i < ids@.len(),
        r is None ==> first_text_from(ids@, id@, 0) is None,
{
    let mut i: usize = 0;
    while i < ids.len()
        invariant
            i <= ids@.len(),
            first_text_from(ids@, id@, 0) == first_text_from(ids@, id@, i as int),
        decreases ids.len() - i,
    {
        if ids[i] == *id {
            return Some(i);
        }
        i = i + 1;
    }
    None
}

impl AppState {
    /// The index of the active player, if one is active.
    pub fn active_player(&self) -> (r: Option<usize>)
        requires
            self.wf(),
        ensures
            r == self.active_player_index,
            r matches Some(i) ==> i < self.available_players@.len(),
    {
        self.active_player_index
    }

    /// Counts a poll; every tenth asks for the player list to be refreshed.
    pub fn tick_poll(&mut self) -> (refresh: bool)
        ensures
            *final(self) == (AppState { poll_count: old(self).poll_count.wrapping_add(1), ..*old(self) }),
            refresh == (final(self).poll_count % 10 == 0),
    {
        self.poll_count = self.poll_count.wrapping_add(1);
        self.poll_count % 10 == 0
    }

    /// Takes in the result of probing the source.
    pub fn on_probe_result(&mut self, res: Result<MediaMetadata, String>) -> (fx: Vec<Effect>)
        requires
            old(self).wf(),
            res matches Ok(m) ==> m.duration_ns >= 0,
        ensures
            final(self).wf(),
            probe_finished(*old(self), res, *final(self), fx@),
    {
        self.is_probing = false;
        let mut fx: Vec<Effect> = Vec::new();
        match res {
            Ok(metadata) => {
                let d = metadata.duration_ns;
                self.metadata = Some(metadata);
                self.timeline_state = TimelineState::new(d);
                self.set_status(String::from_str("Keyframe probing complete."));
                match &self.source_path {
                    Some(p) => {
                        fx.push(Effect::LoadSession(p.clone()));
                    },
                    None => {},
                }
            },
            Err(e) => {
                let mut v = chars_of("Probing failed: ");
                push_str(&mut v, e.as_str());
                self.set_status(string_from_chars(&v));
            },
        }
        fx
    }

    /// Takes in the session stored for the source and how it compares with
    /// the source on disk: when the source exists, the user is asked whether
    /// to restore it.
    pub fn on_session_loaded(&mut self, session: SessionData, validation: SessionValidation)
        requires
            old(self).wf(),
        ensures
            final(self).wf(),
            !validation.source_exists ==> *final(self) == *old(self),
            validation.source_exists ==> {
                &&& final(self).says(
                    session_question(session.segments@.len(), validation.modified_match),
                )
                &&& *final(self) == (AppState {
                    pending_session: Some(session),
                    mode: AppMode::SessionRestore,
                    status_message: final(self).status_message,
                    ..*old(self)
                })
            },
    {
        if validation.source_exists {
            let count = session.segments.len();
            self.pending_session = Some(session);
            self.mode = AppMode::SessionRestore;
            let mut v = chars_of("Session found: ");
            push_decimal(&mut v, count as u64);
            if validation.modified_match {
                push_str(&mut v, " segments from previous session. Restore? [Y/n]");
            } else {
                push_str(
                    &mut v,
                    " segments. Warning: Source file may have changed, keyframe positions could differ. Restore? [Y/n]",
                );
            }
            self.set_status(string_from_chars(&v));
        }
    }

    /// Takes in what polling the export channel found; `true` when the export
    /// is over and the channel can be dropped.
    pub fn poll_export(&mut self, poll: ExportPoll) -> (done: bool)
        requires
            old(self).wf(),
        ensures
            final(self).wf(),
            export_polled(*old(self), poll, *final(self), done),
    {
        match poll {
            ExportPoll::Message(msg) => match msg {
                ExportMsg::Progress(m) => {
                    self.set_status(m);
                    false
                },
                ExportMsg::Done(outputs) => {
                    let mut v = chars_of("Exported ");
                    push_decimal(&mut v, outputs.len() as u64);
                    push_str(&mut v, " clips successfully.");
                    self.finish_export(string_from_chars(&v));
                    true
                },
                ExportMsg::MergedDone(output) => {
                    let mut v = chars_of("Merged clip exported to: ");
                    push_str(&mut v, output.as_str());
                    self.finish_export(string_from_chars(&v));
                    true
                },
                ExportMsg::Failed(e) => {
                    let mut v = chars_of("Export failed: ");
                    push_str(&mut v, e.as_str());
                    self.finish_export(string_from_chars(&v));
                    true
                },
            },
            ExportPoll::Empty => false,
            ExportPoll::Disconnected => {
                self.is_exporting = false;
                self.mode = AppMode::Normal;
                true
            },
        }
    }

    fn finish_export(&mut self, msg: String)
        ensures
            *final(self) == (AppState {
                mode: AppMode::Normal,
                is_exporting: false,
                status_message: Some(msg),
                ..*old(self)
            }),
    {
        self.status_message = Some(msg);
        self.mode = AppMode::Normal;
        self.is_exporting = false;
    }

    /// Makes player `index` the active one (nothing happens for an unknown
    /// index); `player_source` is the file that player reports playing.
    pub fn select_player(&mut self, index: usize, player_source: Option<String>) -> (fx: Vec<
        Effect,
    >)
        requires
            old(self).wf(),
        ensures
            final(self).wf(),
            player_selected(*old(self), index, player_source, *final(self), fx@),
    {
        if index >= self.available_players.len() {
            return Vec::new();
        }
        let ghost pre0 = *self;
        self.active_player_index = Some(index);
        self.metadata = None;
        self.timeline_state = TimelineState::new(0);
        let ghost base = *self;
        let probe: Option<String> = match player_source {
            Some(p) => Some(p),
            None => match &self.cli_source_path {
                Some(c) => Some(c.clone()),
                None => None,
            },
        };
        let fx = match probe {
            Some(p) => self.start_probing(p),
            None => Vec::new(),
        };
        let ghost mid = *self;
        let mut v = chars_of("Switched to player: ");
        assert(base == player_base(pre0, index));
        push_str(&mut v, self.available_players[index].as_str());
        self.set_status(string_from_chars(&v));
        fx
    }

    /// The player a switch moves to: the one after the active one, round
    /// the list, or the first.
    pub fn next_player_index(&self) -> (r: Option<usize>)
        requires
            self.wf(),
        ensures
            self.available_players@.len() == 0 ==> r is None,
            self.available_players@.len() > 0 ==> r == Some(
                match self.active_player_index {
                    Some(i) => ((i + 1) % (self.available_players@.len() as int)) as usize,
                    None => 0usize,
                },
            ),
    {
        let n = self.available_players.len();
        if n == 0 {
            return None;
        }
        match self.active_player_index {
            Some(i) => Some((i + 1) % n),
            None => Some(0),
        }
    }

    /// Takes in the players found now (`first_source` is the file the first
    /// of them reports playing): the active player stays active where it
    /// still is; otherwise the first player is selected.
    pub fn refresh_players(&mut self, identities: Vec<String>, first_source: Option<String>) -> (fx:
        Vec<Effect>)
        requires
            old(self).wf(),
        ensures
            final(self).wf(),
            ({
                let kept = match old(self).active_player_index {
                    Some(i) => first_text_from(identities@, old(self).available_players@[i as int]@, 0),
                    None => None,
                };
                let listed = AppState { available_players: identities, ..*old(self) };
                match kept {
                    Some(k) => *final(self) == (AppState { active_player_index: Some(k as usize), ..listed }) && fx@.len() == 0,
                    None => if identities@.len() > 0 {
                        player_selected(
                            AppState { active_player_index: None, ..listed },
                            0,
                            first_source,
                            *final(self),
                            fx@,
                        )
                    } else {
                        *final(self) == (AppState { active_player_index: None, ..listed }) && fx@.len() == 0
                    },
                }
            }),
    {
        let new_index: Option<usize> = match self.active_player_index {
            Some(idx) => position_of_text(&identities, &self.available_players[idx]),
            None => None,
        };
        self.available_players = identities;
        match new_index {
            Some(k) => {
                self.active_player_index = Some(k);
                Vec::new()
            },
            None => {
                self.active_player_index = None;
                if self.available_players.len() > 0 {
                    self.select_player(0, first_source)
                } else {
                    Vec::new()
                }
            },
        }
    }
}

/// The player's position and playing state taken in (the position is ignored
/// while scrubbing and for 150 ms after a seek).
pub open spec fn position_taken(pre: AppState, pos: i64, playing: bool, now: u64) -> AppState {
    AppState {
        current_time: if !pre.is_dragging_timeline && now > pre.last_seek_time + 150 {
            pos
        } else {
            pre.current_time
        },
        player_playing: playing,
        ..pre
    }
}

/// The first positive duration a player reports gives the timeline its length;
/// the player's file (else the command line's) is then probed, or, with no file
/// known, metadata with just that duration is assumed.
/// Taking in a player's status: the playhead and playing state, then the
/// media's length, then the file it plays.
pub open spec fn player_status_step(
    pre: AppState,
    position: i64,
    duration: i64,
    playing: bool,
    source: Option<String>,
    now: u64,
    post: AppState,
    fx: Seq<Effect>,
) -> bool {
    exists|mid: AppState, fx1: Seq<Effect>, fx2: Seq<Effect>|
        #![trigger duration_learned(position_taken(pre, position, playing, now), duration, source, mid, fx1), source_followed(mid, source, post, fx2)]
        duration_learned(position_taken(pre, position, playing, now), duration, source, mid, fx1)
            && source_followed(mid, source, post, fx2) && fx == fx1 + fx2
}

pub open spec fn duration_learned(
    pre: AppState,
    duration: i64,
    source: Option<String>,
    post: AppState,
    fx: Seq<Effect>,
) -> bool {
    if duration > 0 && pre.timeline_state.duration <= 0 {
        let base = AppState { timeline_state: TimelineState::new_spec(duration), ..pre };
        match probe_choice(pre, source) {
            Some(p) => probing_started(base, p, post, fx),
            None => {
                &&& post.metadata matches Some(m) && m.source_path@.len() == 0 && m.duration_ns
                    == duration && m.format_name is None && m.keyframes_ns@.len() == 0
                &&& post == (AppState { metadata: post.metadata, ..base })
                &&& fx.len() == 0
            },
        }
    } else {
        post == pre && fx.len() == 0
    }
}

/// A player reporting a file other than the source, while nothing is being
/// probed, has that file probed.
pub open spec fn source_followed(pre: AppState, source: Option<String>, post: AppState, fx: Seq<Effect>) -> bool {
    match source {
        Some(path) => {
            let current = match pre.source_path {
                Some(c) => c@,
                None => Seq::<char>::empty(),
            };
            if path@.len() > 0 && path@ != current && !pre.is_probing {
                probing_started(pre, path, post, fx)
            } else {
                post == pre && fx.len() == 0
            }
        },
        None => post == pre && fx.len() == 0,
    }
}

impl AppState {
    fn learn_duration(&mut self, duration: i64, source: Option<String>) -> (fx: Vec<Effect>)
        requires
            old(self).wf(),
        ensures
            final(self).wf(),
            duration_learned(*old(self), duration, source, *final(self), fx@),
    {
        if duration > 0 && self.timeline_state.duration <= 0 {
            self.timeline_state = TimelineState::new(duration);
            let probe: Option<String> = match source {
                Some(p) => Some(p),
                None => match &self.cli_source_path {
                    Some(c) => Some(c.clone()),
                    None => None,
                },
            };
            match probe {
                Some(p) => self.start_probing(p),
                None => {
                    self.metadata = Some(
                        MediaMetadata {
                            source_path: String::new(),
                            duration_ns: duration,
                            format_name: None,
                            keyframes_ns: Vec::new(),
                        },
                    );
                    Vec::new()
                },
            }
        } else {
            Vec::new()
        }
    }

    fn follow_source(&mut self, source: Option<String>) -> (fx: Vec<Effect>)
        requires
            old(self).wf(),
        ensures
            final(self).wf(),
            source_followed(*old(self), source, *final(self), fx@),
    {
        match source {
            Some(path) => {
                let differs = match &self.source_path {
                    Some(c) => path != *c,
                    None => path.as_str().unicode_len() != 0,
                };
                if path.as_str().unicode_len() > 0 && differs && !self.is_probing {
                    self.start_probing(path)
                } else {
                    Vec::new()
                }
            },
            None => Vec::new(),
        }
    }

    /// Takes in what the active player reports at clock reading `now_ms`: its
    /// position and length (nanoseconds), whether it plays, and its file.
    pub fn on_player_status(
        &mut self,
        position: i64,
        duration: i64,
        playing: bool,
        source: Option<String>,
        now_ms: u64,
    ) -> (fx: Vec<Effect>)
        requires
            old(self).wf(),
        ensures
            final(self).wf(),
            player_status_step(*old(self), position, duration, playing, source, now_ms, *final(self), fx@),
    {
        if !self.is_dragging_timeline && now_ms > self.last_seek_time && now_ms - self.last_seek_time
            > 150 {
            self.current_time = position;
        }
        self.player_playing = playing;
        let second = match &source {
            Some(p) => Some(p.clone()),
            None => None,
        };
        let mut fx = self.learn_duration(duration, source);
        let ghost mid = *self;
        let ghost fx1 = fx@;
        let mut more = self.follow_source(second);
        let ghost fx2 = more@;
        fx.append(&mut more);
        fx
    }
}

impl AppState {
    /// Switches to the next player round the list (see [`AppState::next_player_index`]);
    /// `next_source` is the file that player reports playing. Nothing happens
    /// without players.
    pub fn cycle_player(&mut self, next_source: Option<String>) -> (fx: Vec<Effect>)
        requires
            old(self).wf(),
        ensures
            final(self).wf(),
            old(self).available_players@.len() == 0 ==> *final(self) == *old(self) && fx@.len()
                == 0,
            old(self).available_players@.len() > 0 ==> player_selected(
                *old(self),
                match old(self).active_player_index {
                    Some(i) => ((i + 1) % (old(self).available_players@.len() as int)) as usize,
                    None => 0usize,
                },
                next_source,
                *final(self),
                fx@,
            ),
    {
        match self.next_player_index() {
            Some(i) => self.select_player(i, next_source),
            None => Vec::new(),
        }
    }
}

} // verus!
