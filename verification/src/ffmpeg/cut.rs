//! Lossless cutting: snapping segment bounds to keyframes, the ffmpeg
//! arguments of a stream-copy cut and the names of the clips it writes.

use vstd::prelude::*;
use crate::model::{fails_with, msg_duration_not_positive, msg_end_not_after_start};
use crate::paths::{
    path_exists, path_extension, path_extension_of, path_file_stem, path_file_stem_of, path_join,
    path_join_of, path_parent, path_parent_of,
};
use crate::text::{chars_of, decimal, padded, push_decimal, push_padded, push_str, string_from_chars};

verus! {

/// A time at which a cut may start or end: a probed keyframe inside the
/// media, or one of the media's two ends.
pub open spec fn cut_point(keyframes: Seq<i64>, duration: int, k: int) -> bool {
    ||| k == 0
    ||| k == duration
    ||| (0 <= k <= duration && exists|i: int| 0 <= i < keyframes.len() && keyframes[i] == k)
}

/// `r` is the latest cut point at or before `x`.
pub open spec fn is_floor_point(keyframes: Seq<i64>, duration: int, x: int, r: int) -> bool {
    &&& cut_point(keyframes, duration, r)
    &&& r <= x
    &&& forall|k: int| cut_point(keyframes, duration, k) && k <= x ==> k <= r
}

/// `r` is the earliest cut point at or after `x`.
pub open spec fn is_ceil_point(keyframes: Seq<i64>, duration: int, x: int, r: int) -> bool {
    &&& cut_point(keyframes, duration, r)
    &&& x <= r
    &&& forall|k: int| cut_point(keyframes, duration, k) && x <= k ==> r <= k
}

/// `r` is the earliest cut point strictly after `x`.
pub open spec fn is_next_point(keyframes: Seq<i64>, duration: int, x: int, r: int) -> bool {
    &&& cut_point(keyframes, duration, r)
    &&& x < r
    &&& forall|k: int| cut_point(keyframes, duration, k) && x < k ==> r <= k
}

/// `x` limited to `[0, duration]`.
pub open spec fn clamp_time(x: int, duration: int) -> int {
    if x < 0 {
        0
    } else if x > duration {
        duration
    } else {
        x
    }
}

pub open spec fn msg_empty_after_clamp() -> Seq<char> {
    "Segment has no positive duration after clamping"@
}

pub open spec fn msg_no_aligned_end() -> Seq<char> {
    "Unable to find a keyframe-aligned end after snapped start"@
}

/// What snapping `[start, end)` to the keyframes gives: the latest cut point
/// at or before the start, and the earliest at or after the end, or, when that
/// does not lie after the start, the first cut point after the start.
pub open spec fn snapped(
    keyframes: Seq<i64>,
    duration: int,
    start: int,
    end: int,
    r: (i64, i64),
) -> bool {
    let s = clamp_time(start, duration);
    let e = clamp_time(end, duration);
    &&& is_floor_point(keyframes, duration, s, r.0 as int)
    &&& ({
        ||| (is_ceil_point(keyframes, duration, e, r.1 as int) && r.0 < r.1)
        ||| (exists|c: int| is_ceil_point(keyframes, duration, e, c) && c <= r.0)
            && is_next_point(keyframes, duration, r.0 as int, r.1 as int)
    })
}

/// What snapping a requested segment gives (see [`snap_bounds_to_keyframes`]).
pub open spec fn snap_outcome(
    requested_start: i64,
    requested_end: i64,
    keyframes: Seq<i64>,
    duration_ns: i64,
    r: Result<(i64, i64), String>,
) -> bool {
    &&& duration_ns <= 0 ==> fails_with(r, msg_duration_not_positive())
    &&& duration_ns > 0 && requested_end <= requested_start ==> fails_with(
        r,
        msg_end_not_after_start(),
    )
    &&& duration_ns > 0 && requested_start < requested_end && keyframes.len() == 0 ==> {
        let s = clamp_time(requested_start as int, duration_ns as int);
        let e = clamp_time(requested_end as int, duration_ns as int);
        &&& s < e ==> r == Ok::<(i64, i64), String>((s as i64, e as i64))
        &&& e <= s ==> fails_with(r, msg_empty_after_clamp())
    }
    &&& duration_ns > 0 && requested_start < requested_end && keyframes.len() > 0 ==> {
        let s = clamp_time(requested_start as int, duration_ns as int);
        &&& r matches Ok(p) ==> snapped(
            keyframes,
            duration_ns as int,
            requested_start as int,
            requested_end as int,
            p,
        )
        &&& r is Err ==> fails_with(r, msg_no_aligned_end()) && forall|k: int|
            #![trigger cut_point(keyframes, duration_ns as int, k)]
            cut_point(keyframes, duration_ns as int, k) ==> k <= s
        &&& r is Err <==> s == duration_ns
    }
}

/// Moves the bounds of a requested segment onto keyframes so that a stream
/// copy starts on a keyframe: the start moves back to the nearest cut point,
/// the end forward to the nearest one. Without keyframes the bounds are only
/// limited to the media.
pub fn snap_bounds_to_keyframes(
    requested_start: i64,
    requested_end: i64,
    keyframes: &Vec<i64>,
    duration_ns: i64,
) -> (r: Result<(i64, i64), String>)
    ensures
        snap_outcome(requested_start, requested_end, keyframes@, duration_ns, r),
{
    if duration_ns <= 0 {
        return Err(String::from_str("Media duration must be a positive finite number"));
    }
    if requested_end <= requested_start {
        return Err(String::from_str("Segment end must be greater than start"));
    }
    let start = if requested_start < 0 {
        0
    } else if requested_start > duration_ns {
        duration_ns
    } else {
        requested_start
    };
    let end = if requested_end < 0 {
        0
    } else if requested_end > duration_ns {
        duration_ns
    } else {
        requested_end
    };
    if keyframes.len() == 0 {
        if end <= start {
            return Err(String::from_str("Segment has no positive duration after clamping"));
        }
        return Ok((start, end));
    }
    let ghost kf = keyframes@;
    let ghost dur = duration_ns as int;
    let snapped_start = floor_point(keyframes, duration_ns, start);
    let snapped_end = ceil_point(keyframes, duration_ns, end);
    if snapped_end <= snapped_start {
        match next_point(keyframes, duration_ns, snapped_start) {
            Some(n) => {
                assert(is_ceil_point(kf, dur, end as int, snapped_end as int));
                Ok((snapped_start, n))
            },
            None => {
                assert(cut_point(kf, dur, dur));
                Err(String::from_str("Unable to find a keyframe-aligned end after snapped start"))
            },
        }
    } else {
        proof {
            if snapped_start == duration_ns {
                assert(cut_point(kf, dur, snapped_end as int));
            }
        }
        Ok((snapped_start, snapped_end))
    }
}

/// The latest cut point at or before `x`.
fn floor_point(keyframes: &Vec<i64>, duration_ns: i64, x: i64) -> (r: i64)
    requires
        0 <= x <= duration_ns,
    ensures
        is_floor_point(keyframes@, duration_ns as int, x as int, r as int),
{
    let ghost kf = keyframes@;
    let ghost dur = duration_ns as int;
    let mut best: i64 = if duration_ns <= x {
        duration_ns
    } else {
        0
    };
    let mut i: usize = 0;
    while i < keyframes.len()
        invariant
            kf == keyframes@,
            dur == duration_ns,
            0 <= x <= duration_ns,
            i <= kf.len(),
            cut_point(kf, dur, best as int),
            best <= x,
            dur <= x ==> best == dur,
            forall|j: int| 0 <= j < i && 0 <= kf[j] <= dur && kf[j] <= x ==> kf[j] <= best,
        decreases keyframes.len() - i,
    {
        let k = keyframes[i];
        if 0 <= k && k <= duration_ns && k <= x && k > best {
            best = k;
        }
        i = i + 1;
    }
    assert forall|k: int| cut_point(kf, dur, k) && k <= x implies k <= best by {
        if k != 0 && k != dur {
            let j = choose|j: int| 0 <= j < kf.len() && kf[j] == k;
            assert(kf[j] <= best);
        }
    }
    best
}

/// The earliest cut point at or after `x`.
fn ceil_point(keyframes: &Vec<i64>, duration_ns: i64, x: i64) -> (r: i64)
    requires
        0 <= x <= duration_ns,
    ensures
        is_ceil_point(keyframes@, duration_ns as int, x as int, r as int),
{
    let ghost kf = keyframes@;
    let ghost dur = duration_ns as int;
    let mut best: i64 = if x <= 0 {
        0
    } else {
        duration_ns
    };
    let mut i: usize = 0;
    while i < keyframes.len()
        invariant
            kf == keyframes@,
            dur == duration_ns,
            0 <= x <= duration_ns,
            i <= kf.len(),
            cut_point(kf, dur, best as int),
            x <= best,
            x <= 0 ==> best == 0,
            forall|j: int| 0 <= j < i && 0 <= kf[j] <= dur && x <= kf[j] ==> best <= kf[j],
        decreases keyframes.len() - i,
    {
        let k = keyframes[i];
        if 0 <= k && k <= duration_ns && x <= k && k < best {
            best = k;
        }
        i = i + 1;
    }
    assert forall|k: int| cut_point(kf, dur, k) && x <= k implies best <= k by {
        if k != 0 && k != dur {
            let j = choose|j: int| 0 <= j < kf.len() && kf[j] == k;
            assert(best <= kf[j]);
        }
    }
    best
}

/// The earliest cut point strictly after `x`, if there is one.
fn next_point(keyframes: &Vec<i64>, duration_ns: i64, x: i64) -> (r: Option<i64>)
    requires
        0 <= x <= duration_ns,
    ensures
        r matches Some(n) ==> is_next_point(keyframes@, duration_ns as int, x as int, n as int),
        r is None ==> forall|k: int| cut_point(keyframes@, duration_ns as int, k) ==> k <= x,
{
    let ghost kf = keyframes@;
    let ghost dur = duration_ns as int;
    let mut best: Option<i64> = if x < duration_ns {
        Some(duration_ns)
    } else {
        None
    };
    let mut i: usize = 0;
    while i < keyframes.len()
        invariant
            kf == keyframes@,
            dur == duration_ns,
            0 <= x <= duration_ns,
            i <= kf.len(),
            best matches Some(b) ==> cut_point(kf, dur, b as int) && x < b && b <= dur,
            best is None ==> x == dur,
            forall|j: int|
                0 <= j < i && 0 <= kf[j] <= dur && x < kf[j] ==> (best matches Some(b) && b
                    <= kf[j]),
        decreases keyframes.len() - i,
    {
        let k = keyframes[i];
        if 0 <= k && k <= duration_ns && x < k {
            match best {
                Some(b) => {
                    if k < b {
                        best = Some(k);
                    }
                },
                None => {
                    best = Some(k);
                },
            }
        }
        i = i + 1;
    }
    assert forall|k: int| cut_point(kf, dur, k) && x < k implies (best matches Some(b) && b
        <= k) by {
        if k != 0 && k != dur {
            let j = choose|j: int| 0 <= j < kf.len() && kf[j] == k;
            assert(0 <= kf[j] <= dur && x < kf[j]);
        }
    }
    best
}

} // verus!

verus! {

/// A number of nanoseconds written as seconds with six decimals (`{:.6}`):
/// the magnitude rounded to the nearest microsecond, halves up.
pub open spec fn fixed6(v: int) -> Seq<char> {
    let m = if v < 0 {
        -v
    } else {
        v
    };
    let r = (m + 500) / 1000;
    (if v < 0 {
        "-"@
    } else {
        Seq::<char>::empty()
    }) + decimal((r / 1_000_000) as nat) + seq!['.'] + padded((r % 1_000_000) as nat, 6)
}

/// Writes a number of nanoseconds as seconds with six decimals.
pub fn format_fixed6(v: i128) -> (s: String)
    requires
        -18_446_744_073_709_551_615 <= v <= 18_446_744_073_709_551_615,
    ensures
        s@ == fixed6(v as int),
{
    let mut out: Vec<char> = Vec::new();
    let m: u64 = if v < 0 {
        out.push('-');
        (-v) as u64
    } else {
        v as u64
    };
    proof {
        reveal_strlit("-");
    }
    let r: u64 = ((m as u128 + 500) / 1000) as u64;
    push_decimal(&mut out, r / 1_000_000);
    out.push('.');
    push_padded(&mut out, r % 1_000_000, 6);
    assert(out@ =~= fixed6(v as int));
    string_from_chars(&out)
}

/// The arguments of an ffmpeg stream-copy cut of `[start, end)` from `input` into `output`.
pub open spec fn copy_cut_args(input: Seq<char>, start: int, end: int, output: Seq<char>) -> Seq<
    Seq<char>,
> {
    seq![
        "-hide_banner"@,
        "-y"@,
        "-ss"@,
        fixed6(start),
        "-i"@,
        input,
        "-t"@,
        fixed6(end - start),
        "-map"@,
        "0"@,
        "-c"@,
        "copy"@,
        "-avoid_negative_ts"@,
        "make_zero"@,
        output,
    ]
}

/// The ffmpeg arguments that copy `[start, end)` of `input` into `output`
/// without re-encoding: seek to the start, read for the duration, map every
/// stream, copy codecs, shift timestamps to zero.
pub fn build_copy_cut_args(input: &str, start_ns: i64, end_ns: i64, output: &str) -> (r: Vec<
    String,
>)
    ensures
        r@.len() == 15,
        forall|i: int|
            0 <= i < 15 ==> #[trigger] r@[i]@ == copy_cut_args(
                input@,
                start_ns as int,
                end_ns as int,
                output@,
            )[i],
{
    let duration = end_ns as i128 - start_ns as i128;
    let mut r: Vec<String> = Vec::new();
    r.push(String::from_str("-hide_banner"));
    r.push(String::from_str("-y"));
    r.push(String::from_str("-ss"));
    r.push(format_fixed6(start_ns as i128));
    r.push(String::from_str("-i"));
    r.push(String::from_str(input));
    r.push(String::from_str("-t"));
    r.push(format_fixed6(duration));
    r.push(String::from_str("-map"));
    r.push(String::from_str("0"));
    r.push(String::from_str("-c"));
    r.push(String::from_str("copy"));
    r.push(String::from_str("-avoid_negative_ts"));
    r.push(String::from_str("make_zero"));
    r.push(String::from_str(output));
    r
}

pub open spec fn msg_no_parent() -> Seq<char> {
    "Source path has no parent directory"@
}

pub open spec fn msg_no_stem() -> Seq<char> {
    "Source path has no file stem"@
}

pub open spec fn msg_no_clip_name() -> Seq<char> {
    "Unable to allocate a unique output file name"@
}

/// The source's extension, `mp4` when it has none.
pub open spec fn extension_or_mp4(source: Seq<char>) -> Seq<char> {
    match path_extension_of(source) {
        Some(e) => e,
        None => "mp4"@,
    }
}

/// The extension of `source`, `mp4` when it has none.
pub fn source_extension(source: &str) -> (e: String)
    ensures
        e@ == extension_or_mp4(source@),
{
    match path_extension(source) {
        Some(e) => e,
        None => String::from_str("mp4"),
    }
}

/// `stem-clip-NNN.ext`, the index zero-padded to three digits.
pub open spec fn clip_file_name(stem: Seq<char>, index: nat, ext: Seq<char>) -> Seq<char> {
    stem + "-clip-"@ + padded(index, 3) + "."@ + ext
}

/// The `index`-th clip name beside the source: `<dir>/<stem>-clip-NNN.<ext>`.
pub fn clip_output_candidate(parent: &str, stem: &str, index: u32, ext: &str) -> (p: String)
    ensures
        p@ == path_join_of(parent@, clip_file_name(stem@, index as nat, ext@)),
{
    let mut name = chars_of(stem);
    push_str(&mut name, "-clip-");
    push_padded(&mut name, index as u64, 3);
    push_str(&mut name, ".");
    push_str(&mut name, ext);
    let n = string_from_chars(&name);
    path_join(parent, n.as_str())
}

/// The first candidate from `k` on, below `m`, that `taken` reports free.
pub open spec fn first_free_below(taken: Seq<bool>, k: int, m: int) -> Option<int>
    decreases m - k,
{
    if k >= m || k < 0 || k >= taken.len() {
        None
    } else if !taken[k] {
        Some(k)
    } else {
        first_free_below(taken, k + 1, m)
    }
}

/// Skipping candidates reported taken does not change the first free one.
pub proof fn lemma_first_free_skip(taken: Seq<bool>, i: int, k: int, m: int)
    requires
        0 <= i <= k,
        k <= m,
        k <= taken.len(),
        forall|j: int| i <= j < k ==> taken[j],
    ensures
        first_free_below(taken, i, m) == first_free_below(taken, k, m),
    decreases k - i,
{
    if i < k {
        lemma_first_free_skip(taken, i + 1, k, m);
    }
}

/// A result that is the picked name, or the given error when none was picked.
pub open spec fn picked(r: Result<String, String>, pick: Option<Seq<char>>, err: Seq<char>) -> bool {
    match pick {
        Some(p) => r matches Ok(s) && s@ == p,
        None => fails_with(r, err),
    }
}

/// How many clip names are tried from `start`: up to index 999999, or only
/// `start` itself when it lies beyond.
pub open spec fn clip_tries(start: int) -> int {
    if start <= 999_999 {
        1_000_000 - start
    } else {
        1
    }
}

/// The clip name chosen from the answers `taken[k]` (whether something is on
/// disk under the name with index `start + k`): the first one reported free.
pub open spec fn clip_pick(source: Seq<char>, start: int, taken: Seq<bool>) -> Option<Seq<char>> {
    match first_free_below(taken, 0, clip_tries(start)) {
        Some(k) => Some(
            path_join_of(
                path_parent_of(source)->0,
                clip_file_name(path_file_stem_of(source)->0, (start + k) as nat, extension_or_mp4(source)),
            ),
        ),
        None => None,
    }
}

/// The clip name to write, from the answers `taken` to whether something is
/// on disk under each name, in order from index `start_index`: the first one
/// reported free among the names tried, otherwise an error.
pub fn pick_clip_output_path(source: &str, start_index: u32, taken: &Vec<bool>) -> (r: Result<
    String,
    String,
>)
    ensures
        path_parent_of(source@) is None ==> fails_with(r, msg_no_parent()),
        path_parent_of(source@) is Some && path_file_stem_of(source@) is None ==> fails_with(
            r,
            msg_no_stem(),
        ),
        path_parent_of(source@) is Some && path_file_stem_of(source@) is Some ==> picked(
            r,
            clip_pick(source@, start_index as int, taken@),
            msg_no_clip_name(),
        ),
{
    let parent = match path_parent(source) {
        Some(p) => p,
        None => {
            return Err(String::from_str("Source path has no parent directory"));
        },
    };
    let stem = match path_file_stem(source) {
        Some(s) => s,
        None => {
            return Err(String::from_str("Source path has no file stem"));
        },
    };
    let ext = source_extension(source);
    let tries: u64 = if start_index <= 999_999 {
        1_000_000 - start_index as u64
    } else {
        1
    };
    let mut k: usize = 0;
    while k < taken.len() && (k as u64) < tries
        invariant
            k <= taken@.len(),
            k <= tries,
            tries == clip_tries(start_index as int),
            forall|j: int| 0 <= j < k ==> taken@[j],
            parent@ == path_parent_of(source@)->0,
            stem@ == path_file_stem_of(source@)->0,
            ext@ == extension_or_mp4(source@),
            path_parent_of(source@) is Some,
            path_file_stem_of(source@) is Some,
        decreases taken.len() - k,
    {
        if !taken[k] {
            proof {
                lemma_first_free_skip(taken@, 0, k as int, tries as int);
            }
            let index = (start_index as u64 + k as u64) as u32;
            return Ok(clip_output_candidate(parent.as_str(), stem.as_str(), index, ext.as_str()));
        }
        k = k + 1;
    }
    proof {
        lemma_first_free_skip(taken@, 0, k as int, tries as int);
    }
    Err(String::from_str("Unable to allocate a unique output file name"))
}

/// The first clip name, counting from `start_index`, under which nothing is
/// on disk yet. Names are tried up to index 999999 (or only `start_index` when
/// it is beyond that). What the disk answers cannot be stated; the result is
/// what [`pick_clip_output_path`] gives on the answers received, and those
/// answers run until the first free name or through every name tried.
pub fn next_clip_output_path(source: &str, start_index: u32) -> (r: Result<String, String>)
    ensures
        path_parent_of(source@) is None ==> fails_with(r, msg_no_parent()),
        path_parent_of(source@) is Some && path_file_stem_of(source@) is None ==> fails_with(
            r,
            msg_no_stem(),
        ),
        path_parent_of(source@) is Some && path_file_stem_of(source@) is Some ==> exists|
            taken: Seq<bool>,
        |
            {
                &&& 0 < taken.len() <= clip_tries(start_index as int)
                &&& (taken.len() == clip_tries(start_index as int) || !taken.last())
                &&& forall|j: int| 0 <= j < taken.len() - 1 ==> taken[j]
                &&& picked(r, #[trigger] clip_pick(source@, start_index as int, taken), msg_no_clip_name())
            },
{
    let parent = match path_parent(source) {
        Some(p) => p,
        None => {
            return Err(String::from_str("Source path has no parent directory"));
        },
    };
    let stem = match path_file_stem(source) {
        Some(s) => s,
        None => {
            return Err(String::from_str("Source path has no file stem"));
        },
    };
    let ext = source_extension(source);
    let tries: u64 = if start_index <= 999_999 {
        1_000_000 - start_index as u64
    } else {
        1
    };
    let mut taken: Vec<bool> = Vec::new();
    let mut k: u64 = 0;
    loop
        invariant_except_break
            k == taken@.len(),
            forall|j: int| 0 <= j < k ==> taken@[j],
        invariant
            k < tries,
            tries == clip_tries(start_index as int),
            parent@ == path_parent_of(source@)->0,
            stem@ == path_file_stem_of(source@)->0,
            ext@ == extension_or_mp4(source@),
        ensures
            0 < taken@.len() <= tries,
            taken@.len() == tries || !taken@.last(),
            forall|j: int| 0 <= j < taken@.len() - 1 ==> taken@[j],
        decreases tries - k,
    {
        let index = (start_index as u64 + k) as u32;
        let candidate = clip_output_candidate(parent.as_str(), stem.as_str(), index, ext.as_str());
        let found = path_exists(candidate.as_str());
        taken.push(found);
        if !found || k + 1 == tries {
            break;
        }
        k = k + 1;
    }
    pick_clip_output_path(source, start_index, &taken)
}

/// One list entry escaped for ffmpeg's concat demuxer: backslashes doubled,
/// single quotes preceded by a backslash.
pub open spec fn escape_concat(s: Seq<char>) -> Seq<char>
    decreases s.len(),
{
    if s.len() == 0 {
        Seq::<char>::empty()
    } else {
        escape_concat(s.drop_last()) + (if s.last() == '\\' {
            seq!['\\', '\\']
        } else if s.last() == '\'' {
            seq!['\\', '\'']
        } else {
            seq![s.last()]
        })
    }
}

/// The concat demuxer's list: one `file '<escaped path>'` line per file.
pub open spec fn concat_list(files: Seq<String>) -> Seq<char>
    decreases files.len(),
{
    if files.len() == 0 {
        Seq::<char>::empty()
    } else {
        concat_list(files.drop_last()) + "file '"@ + escape_concat(files.last()@) + "'\n"@
    }
}

fn push_escaped(out: &mut Vec<char>, s: &str)
    ensures
        final(out)@ == old(out)@ + escape_concat(s@),
{
    let cs = chars_of(s);
    let ghost start = out@;
    let mut i: usize = 0;
    while i < cs.len()
        invariant
            i <= cs@.len(),
            cs@ == s@,
            out@ == start + escape_concat(cs@.take(i as int)),
        decreases cs.len() - i,
    {
        let c = cs[i];
        proof {
            assert(cs@.take(i + 1).drop_last() =~= cs@.take(i as int));
        }
        if c == '\\' {
            out.push('\\');
            out.push('\\');
        } else if c == '\'' {
            out.push('\\');
            out.push('\'');
        } else {
            out.push(c);
        }
        assert(out@ =~= start + escape_concat(cs@.take(i + 1)));
        i = i + 1;
    }
    assert(cs@.take(cs@.len() as int) =~= cs@);
}

/// The text of the list file that ffmpeg's concat demuxer reads.
pub fn concat_list_text(files: &Vec<String>) -> (t: String)
    ensures
        t@ == concat_list(files@),
{
    let mut out: Vec<char> = Vec::new();
    let mut i: usize = 0;
    proof {
        reveal_strlit("file '");
        reveal_strlit("'\n");
    }
    while i < files.len()
        invariant
            i <= files@.len(),
            out@ == concat_list(files@.take(i as int)),
        decreases files.len() - i,
    {
        proof {
            assert(files@.take(i + 1).drop_last() =~= files@.take(i as int));
        }
        push_str(&mut out, "file '");
        push_escaped(&mut out, files[i].as_str());
        push_str(&mut out, "'\n");
        assert(out@ =~= concat_list(files@.take(i + 1)));
        i = i + 1;
    }
    assert(files@.take(files@.len() as int) =~= files@);
    string_from_chars(&out)
}

} // verus!
