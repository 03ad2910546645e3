//! The decisions of an export: which requests are refused before any work,
//! which bounds each clip is cut at, and how its progress is reported.

use vstd::prelude::*;
use crate::ffmpeg::cut::{snap_bounds_to_keyframes, snap_outcome};
use crate::model::{fails_with, msg_end_not_after_start, msg_start_negative, MediaMetadata, Segment};
use crate::text::{chars_of, decimal, push_decimal, push_str, string_from_chars};

verus! {

pub open spec fn msg_no_segments() -> Seq<char> {
    "No segments to export"@
}

pub open spec fn msg_no_merge_segments() -> Seq<char> {
    "No segments were provided for merge"@
}

/// Checks an export request before any work, given whether the source is on
/// disk: there must be segments, and then the source must exist.
pub fn export_preflight(source_path: &str, segment_count: usize, source_exists: bool) -> (r: Result<
    (),
    String,
>)
    ensures
        segment_count == 0 ==> fails_with(r, msg_no_segments()),
        segment_count > 0 && !source_exists ==> fails_with(
            r,
            "Source file not found: "@ + source_path@,
        ),
        segment_count > 0 && source_exists ==> r is Ok,
{
    if segment_count == 0 {
        return Err(String::from_str("No segments to export"));
    }
    if !source_exists {
        let mut v = chars_of("Source file not found: ");
        push_str(&mut v, source_path);
        return Err(string_from_chars(&v));
    }
    Ok(())
}

/// Checks a merge request before any work, given whether the source is on
/// disk: there must be segments, and then the source must exist.
pub fn merge_preflight(source_path: &str, segment_count: usize, source_exists: bool) -> (r: Result<
    (),
    String,
>)
    ensures
        segment_count == 0 ==> fails_with(r, msg_no_merge_segments()),
        segment_count > 0 && !source_exists ==> fails_with(
            r,
            "Source file does not exist: "@ + source_path@,
        ),
        segment_count > 0 && source_exists ==> r is Ok,
{
    if segment_count == 0 {
        return Err(String::from_str("No segments were provided for merge"));
    }
    if !source_exists {
        let mut v = chars_of("Source file does not exist: ");
        push_str(&mut v, source_path);
        return Err(string_from_chars(&v));
    }
    Ok(())
}

/// The bounds a segment is cut at: refused when the segment itself is
/// malformed, otherwise its bounds snapped to the media's keyframes.
pub fn clip_bounds(segment: &Segment, metadata: &MediaMetadata) -> (r: Result<(i64, i64), String>)
    ensures
        segment.start_ns < 0 ==> fails_with(r, msg_start_negative()),
        0 <= segment.start_ns && segment.end_ns <= segment.start_ns ==> fails_with(
            r,
            msg_end_not_after_start(),
        ),
        0 <= segment.start_ns < segment.end_ns ==> snap_outcome(
            segment.start_ns,
            segment.end_ns,
            metadata.keyframes_ns@,
            metadata.duration_ns,
            r,
        ),
{
    match segment.validate_bounds() {
        Ok(()) => {},
        Err(e) => {
            return Err(e);
        },
    }
    snap_bounds_to_keyframes(
        segment.start_ns,
        segment.end_ns,
        &metadata.keyframes_ns,
        metadata.duration_ns,
    )
}

/// `label number/total`, as in `Exporting clip 2/5`.
pub open spec fn counted_text(label: Seq<char>, number: nat, total: nat) -> Seq<char> {
    label + " "@ + decimal(number) + "/"@ + decimal(total)
}

pub fn counted_label(label: &str, number: u64, total: u64) -> (s: String)
    ensures
        s@ == counted_text(label@, number as nat, total as nat),
{
    let mut v = chars_of(label);
    push_str(&mut v, " ");
    push_decimal(&mut v, number);
    push_str(&mut v, "/");
    push_decimal(&mut v, total);
    string_from_chars(&v)
}

/// Progress in tenths of a percent: the time over the total, limited to
/// `[0, 100]` percent and rounded to the nearest tenth.
pub open spec fn percent_tenths(time_ns: int, total_ns: int) -> int {
    if time_ns <= 0 {
        0
    } else if time_ns >= total_ns {
        1000
    } else {
        (2000 * time_ns + total_ns) / (2 * total_ns)
    }
}

/// `label: P.p%`.
pub open spec fn progress_text(label: Seq<char>, tenths: int) -> Seq<char> {
    label + ": "@ + decimal((tenths / 10) as nat) + "."@ + decimal((tenths % 10) as nat) + "%"@
}

/// The progress line for a cut that has reached `time_ns` of `total_ns`;
/// nothing for a total that is not positive.
pub fn progress_message(label: &str, time_ns: i64, total_ns: i64) -> (r: Option<String>)
    ensures
        total_ns <= 0 ==> r is None,
        total_ns > 0 ==> (r matches Some(s) && s@ == progress_text(
            label@,
            percent_tenths(time_ns as int, total_ns as int),
        )),
{
    if total_ns <= 0 {
        return None;
    }
    let tenths: i128 = if time_ns <= 0 {
        0
    } else if time_ns >= total_ns {
        1000
    } else {
        let t = (2000 * time_ns as i128 + total_ns as i128) / (2 * total_ns as i128);
        assert(0 <= t <= 1000) by (nonlinear_arith)
            requires
                t == (2000 * time_ns + total_ns) / (2 * total_ns),
                0 < time_ns < total_ns,
        ;
        t
    };
    let mut v = chars_of(label);
    push_str(&mut v, ": ");
    push_decimal(&mut v, (tenths / 10) as u64);
    push_str(&mut v, ".");
    push_decimal(&mut v, (tenths % 10) as u64);
    push_str(&mut v, "%");
    Some(string_from_chars(&v))
}

} // verus!
