//! The data the controller works on: segments of the source video, probed
//! media metadata, the application mode and undo snapshots.
//!
//! All instants and durations are integers in nanoseconds.

use vstd::prelude::*;
use crate::text::{padded, push_padded, string_from_chars};

verus! {

/// A marked segment of the source video.
pub struct Segment {
    pub id: String,
    /// Start of the segment, in nanoseconds from the beginning of the media.
    pub start_ns: i64,
    /// End of the segment, in nanoseconds from the beginning of the media.
    pub end_ns: i64,
    pub label: Option<String>,
}

impl Clone for Segment {
    fn clone(&self) -> (r: Self)
        ensures
            r == *self,
    {
        let label = match &self.label {
            Some(l) => Some(l.clone()),
            None => None,
        };
        Segment { id: self.id.clone(), start_ns: self.start_ns, end_ns: self.end_ns, label }
    }
}

/// `r` is an error whose message reads `m`.
pub open spec fn fails_with<T>(r: Result<T, String>, m: Seq<char>) -> bool {
    match r {
        Ok(_) => false,
        Err(e) => e@ == m,
    }
}

pub open spec fn msg_start_negative() -> Seq<char> {
    "Segment start must be greater than or equal to 0"@
}

pub open spec fn msg_end_not_after_start() -> Seq<char> {
    "Segment end must be greater than start"@
}

pub open spec fn msg_duration_not_positive() -> Seq<char> {
    "Media duration must be a positive finite number"@
}

pub open spec fn msg_keyframes_unsorted() -> Seq<char> {
    "Keyframes must be sorted in ascending order"@
}

impl Segment {
    /// Length of this segment in nanoseconds (`end - start`; negative for a reversed segment).
    pub fn duration_seconds(&self) -> (d: i128)
        ensures
            d == self.end_ns - self.start_ns,
    {
        self.end_ns as i128 - self.start_ns as i128
    }

    /// Checks that the segment starts at or after zero and ends after it starts.
    pub fn validate_bounds(&self) -> (r: Result<(), String>)
        ensures
            self.start_ns < 0 ==> fails_with(r, msg_start_negative()),
            0 <= self.start_ns && self.end_ns <= self.start_ns ==> fails_with(r, msg_end_not_after_start()),
            0 <= self.start_ns < self.end_ns ==> r is Ok,
    {
        if self.start_ns < 0 {
            return Err(String::from_str("Segment start must be greater than or equal to 0"));
        }
        if self.end_ns <= self.start_ns {
            return Err(String::from_str("Segment end must be greater than start"));
        }
        Ok(())
    }
}

/// Keyframe times never decrease from one to the next.
pub open spec fn nondecreasing(s: Seq<i64>) -> bool {
    forall|i: int, j: int| 0 <= i <= j < s.len() ==> s[i] <= s[j]
}

/// Probed metadata of a source media file.
pub struct MediaMetadata {
    pub source_path: String,
    /// Length of the media in nanoseconds.
    pub duration_ns: i64,
    pub format_name: Option<String>,
    /// Keyframe times in nanoseconds.
    pub keyframes_ns: Vec<i64>,
}

impl Clone for MediaMetadata {
    fn clone(&self) -> (r: Self)
        ensures
            r.source_path == self.source_path,
            r.duration_ns == self.duration_ns,
            r.format_name == self.format_name,
            r.keyframes_ns@ == self.keyframes_ns@,
    {
        let format_name = match &self.format_name {
            Some(f) => Some(f.clone()),
            None => None,
        };
        MediaMetadata {
            source_path: self.source_path.clone(),
            duration_ns: self.duration_ns,
            format_name,
            keyframes_ns: self.keyframes_ns.clone(),
        }
    }
}

impl MediaMetadata {
    /// Checks that the duration is positive and the keyframes ascend.
    pub fn validate(&self) -> (r: Result<(), String>)
        ensures
            self.duration_ns <= 0 ==> fails_with(r, msg_duration_not_positive()),
            self.duration_ns > 0 && !nondecreasing(self.keyframes_ns@) ==> fails_with(
                r, msg_keyframes_unsorted()),
            self.duration_ns > 0 && nondecreasing(self.keyframes_ns@) ==> r is Ok,
    {
        if self.duration_ns <= 0 {
            return Err(String::from_str("Media duration must be a positive finite number"));
        }
        let n = self.keyframes_ns.len();
        let mut i: usize = 1;
        while i < n
            invariant
                n == self.keyframes_ns@.len(),
                self.duration_ns > 0,
                1 <= i <= n || n == 0,
                forall|a: int| 0 < a < i && a < n ==> self.keyframes_ns@[a - 1]
                    <= #[trigger] self.keyframes_ns@[a],
            decreases n - i,
        {
            if self.keyframes_ns[i - 1] > self.keyframes_ns[i] {
                return Err(String::from_str("Keyframes must be sorted in ascending order"));
            }
            i = i + 1;
        }
        proof {
            lemma_adjacent_sorted(self.keyframes_ns@);
        }
        Ok(())
    }
}

/// Sortedness of neighbours gives sortedness of every pair.
pub proof fn lemma_adjacent_sorted(s: Seq<i64>)
    requires
        forall|a: int| 0 < a < s.len() ==> s[a - 1] <= #[trigger] s[a],
    ensures
        nondecreasing(s),
{
    assert forall|i: int, j: int| 0 <= i <= j < s.len() implies s[i] <= s[j] by {
        lemma_adjacent_sorted_range(s, i, j);
    }
}

proof fn lemma_adjacent_sorted_range(s: Seq<i64>, i: int, j: int)
    requires
        forall|a: int| 0 < a < s.len() ==> s[a - 1] <= #[trigger] s[a],
        0 <= i <= j < s.len(),
    ensures
        s[i] <= s[j],
    decreases j - i,
{
    if i < j {
        lemma_adjacent_sorted_range(s, i, j - 1);
        assert(s[j - 1] <= s[j]);
    }
}

/// Active mode of the application.
#[derive(PartialEq, Eq, Structural, Clone, Copy, Debug)]
pub enum AppMode {
    Normal,
    EditLabel,
    Export,
    Help,
    SessionRestore,
}

/// What undo and redo bring back: the segments, the selection and the playhead.
pub struct AppStateSnapshot {
    pub segments: Vec<Segment>,
    pub selected_segment: Option<usize>,
    pub current_time: i64,
}

/// `MM:SS.mmm` text with the minutes unbounded and the milliseconds truncated.
pub open spec fn clock_text(ns: int) -> Seq<char> {
    if ns < 0 {
        "00:00.000"@
    } else {
        padded((ns / 60_000_000_000) as nat, 2) + seq![':'] + padded(((ns / 1_000_000_000) % 60) as nat, 2)
            + seq!['.'] + padded(((ns % 1_000_000_000) / 1_000_000) as nat, 3)
    }
}

/// Formats a time as `MM:SS.mmm` (minutes not wrapped into hours, milliseconds
/// truncated); a negative time reads `00:00.000`.
pub fn format_time(ns: i64) -> (s: String)
    ensures
        s@ == clock_text(ns as int),
{
    if ns < 0 {
        return String::from_str("00:00.000");
    }
    let u = ns as u64;
    let mut v: Vec<char> = Vec::new();
    push_padded(&mut v, u / 60_000_000_000, 2);
    v.push(':');
    push_padded(&mut v, (u / 1_000_000_000) % 60, 2);
    v.push('.');
    push_padded(&mut v, (u % 1_000_000_000) / 1_000_000, 3);
    assert(v@ =~= clock_text(ns as int));
    string_from_chars(&v)
}

} // verus!
