//! Turning what ffprobe reports into media metadata: the duration, the
//! keyframe times, and the keyframe list cleaned up for boundary search.

use vstd::prelude::*;
use crate::ffmpeg::cut::cut_point;
use crate::ffmpeg::progress::{parsed_seconds, parse_seconds};
use crate::model::{fails_with, MediaMetadata};
use crate::text::chars_of;

verus! {

/// Each time is later than the one before it.
pub open spec fn strictly_increasing(s: Seq<i64>) -> bool {
    forall|i: int, j: int| 0 <= i < j < s.len() ==> s[i] < s[j]
}

pub open spec fn msg_no_duration() -> Seq<char> {
    "ffprobe did not provide a valid duration"@
}

/// The duration ffprobe reported, when present, a number, and positive.
pub open spec fn probed_duration(text: Option<String>) -> Option<i64> {
    match text {
        Some(t) => match parsed_seconds(t@) {
            Some(d) => if d > 0 {
                Some(d)
            } else {
                None
            },
            None => None,
        },
        None => None,
    }
}

/// Reads the media duration from ffprobe's `format.duration` field.
pub fn probe_duration(text: &Option<String>) -> (r: Result<i64, String>)
    ensures
        probed_duration(*text) matches Some(d) ==> r == Ok::<i64, String>(d),
        probed_duration(*text) is None ==> fails_with(r, msg_no_duration()),
{
    let parsed = match text {
        Some(t) => {
            let cs = chars_of(t.as_str());
            parse_seconds(&cs)
        },
        None => None,
    };
    match parsed {
        Some(d) => {
            if d > 0 {
                return Ok(d);
            }
        },
        None => {},
    }
    Err(String::from_str("ffprobe did not provide a valid duration"))
}

/// The keyframe times among ffprobe's frame entries: those whose `pts_time`
/// is present and a number, in the order given.
pub open spec fn frame_times(ts: Seq<Option<String>>) -> Seq<i64>
    decreases ts.len(),
{
    if ts.len() == 0 {
        Seq::<i64>::empty()
    } else {
        let prev = frame_times(ts.drop_last());
        match ts.last() {
            Some(t) => match parsed_seconds(t@) {
                Some(v) => prev.push(v),
                None => prev,
            },
            None => prev,
        }
    }
}

/// Reads the `pts_time` of each keyframe entry, skipping absent or unreadable ones.
pub fn keyframe_times(pts_times: &Vec<Option<String>>) -> (r: Vec<i64>)
    ensures
        r@ == frame_times(pts_times@),
{
    let mut out: Vec<i64> = Vec::new();
    let mut i: usize = 0;
    while i < pts_times.len()
        invariant
            i <= pts_times@.len(),
            out@ == frame_times(pts_times@.take(i as int)),
        decreases pts_times.len() - i,
    {
        proof {
            assert(pts_times@.take(i + 1).drop_last() =~= pts_times@.take(i as int));
        }
        match &pts_times[i] {
            Some(t) => {
                let cs = chars_of(t.as_str());
                match parse_seconds(&cs) {
                    Some(v) => out.push(v),
                    None => {},
                }
            },
            None => {},
        }
        i = i + 1;
    }
    assert(pts_times@.take(pts_times@.len() as int) =~= pts_times@);
    out
}

/// Inserts `x` into an increasing list unless it is already there.
fn insert_sorted_unique(v: Vec<i64>, x: i64) -> (r: Vec<i64>)
    requires
        strictly_increasing(v@),
    ensures
        strictly_increasing(r@),
        forall|k: i64| r@.contains(k) <==> (v@.contains(k) || k == x),
{
    let mut p: usize = 0;
    while p < v.len() && v[p] < x
        invariant
            strictly_increasing(v@),
            p <= v@.len(),
            forall|i: int| 0 <= i < p ==> v@[i] < x,
        decreases v.len() - p,
    {
        p = p + 1;
    }
    if p < v.len() && v[p] == x {
        assert forall|k: i64| v@.contains(k) <==> (v@.contains(k) || k == x) by {
            if k == x {
                assert(v@[p as int] == k);
            }
        }
        return v;
    }
    assert(p < v@.len() ==> x < v@[p as int]);
    proof {
        lemma_insert_keeps_contents(v@, p as int, x);
        lemma_insert_keeps_order(v@, p as int, x);
    }
    let ghost before = v@;
    let mut r = v;
    r.insert(p, x);
    assert(r@ == before.insert(p as int, x));
    assert(forall|k: i64| r@.contains(k) <==> (v@.contains(k) || k == x));
    r
}

proof fn lemma_insert_keeps_contents(before: Seq<i64>, p: int, x: i64)
    requires
        0 <= p <= before.len(),
    ensures
        forall|k: i64| before.insert(p, x).contains(k) <==> (before.contains(k) || k == x),
{
    let after = before.insert(p, x);
    assert forall|k: i64| after.contains(k) <==> (before.contains(k) || k == x) by {
        if after.contains(k) {
            let i = choose|i: int| 0 <= i < after.len() && after[i] == k;
            if i < p {
                assert(before[i] == k);
            } else if i > p {
                assert(before[i - 1] == k);
            }
        }
        if before.contains(k) {
            let i = choose|i: int| 0 <= i < before.len() && before[i] == k;
            if i < p {
                assert(after[i] == k);
            } else {
                assert(after[i + 1] == k);
            }
        }
        if k == x {
            assert(after[p] == x);
        }
    }
}

proof fn lemma_insert_keeps_order(before: Seq<i64>, p: int, x: i64)
    requires
        0 <= p <= before.len(),
        strictly_increasing(before),
        forall|i: int| 0 <= i < p ==> before[i] < x,
        p < before.len() ==> x < before[p],
    ensures
        strictly_increasing(before.insert(p, x)),
{
    let after = before.insert(p, x);
    assert forall|i: int, j: int| 0 <= i < j < after.len() implies after[i] < after[j] by {
        if j < p {
            assert(before[i] < before[j]);
        } else if j == p {
            assert(before[i] < x);
        } else if i < p {
            assert(before[i] < x);
            assert(x < before[p]);
            assert(before[p] <= before[j - 1]);
        } else if i == p {
            assert(x < before[p]);
            assert(before[p] <= before[j - 1]);
        } else {
            assert(before[i - 1] < before[j - 1]);
        }
    }
}

/// The keyframe list used for boundary search: the probed keyframes inside
/// the media together with its two ends, ascending, each once.
pub fn normalize_keyframes(raw: &Vec<i64>, duration_ns: i64) -> (r: Vec<i64>)
    requires
        duration_ns > 0,
    ensures
        strictly_increasing(r@),
        forall|k: i64| r@.contains(k) <==> cut_point(raw@, duration_ns as int, k as int),
{
    let mut out: Vec<i64> = Vec::new();
    out.push(0);
    out.push(duration_ns);
    assert forall|k: i64| out@.contains(k) <==> (k == 0 || k == duration_ns) by {
        if k == 0 {
            assert(out@[0] == k);
        }
        if k == duration_ns {
            assert(out@[1] == k);
        }
    }
    let mut i: usize = 0;
    while i < raw.len()
        invariant
            duration_ns > 0,
            i <= raw@.len(),
            strictly_increasing(out@),
            forall|k: i64|
                out@.contains(k) <==> (k == 0 || k == duration_ns || (0 <= k <= duration_ns
                    && exists|j: int| 0 <= j < i && raw@[j] == k)),
        decreases raw.len() - i,
    {
        let k = raw[i];
        let ghost before = out@;
        if 0 <= k && k <= duration_ns {
            out = insert_sorted_unique(out, k);
        }
        assert forall|m: i64|
            out@.contains(m) <==> (m == 0 || m == duration_ns || (0 <= m <= duration_ns
                && exists|j: int| 0 <= j < i + 1 && raw@[j] == m)) by {
            if 0 <= m <= duration_ns && exists|j: int| 0 <= j < i + 1 && raw@[j] == m {
                let j = choose|j: int| 0 <= j < i + 1 && raw@[j] == m;
                if j < i {
                    assert(before.contains(m));
                }
            }
        }
        i = i + 1;
    }
    assert forall|k: i64| out@.contains(k) <==> cut_point(raw@, duration_ns as int, k as int) by {
        if cut_point(raw@, duration_ns as int, k as int) && k != 0 && k != duration_ns {
            let j = choose|j: int| 0 <= j < raw@.len() && raw@[j] == k;
            assert(0 <= j < i && raw@[j] == k);
        }
    }
    out
}

/// Assembles probed metadata; the keyframes are normalized as
/// [`normalize_keyframes`] describes.
pub fn finish_metadata(
    source_path: String,
    duration_ns: i64,
    format_name: Option<String>,
    raw_keyframes: &Vec<i64>,
) -> (m: MediaMetadata)
    requires
        duration_ns > 0,
    ensures
        m.source_path == source_path,
        m.duration_ns == duration_ns,
        m.format_name == format_name,
        strictly_increasing(m.keyframes_ns@),
        forall|k: i64|
            m.keyframes_ns@.contains(k) <==> cut_point(raw_keyframes@, duration_ns as int, k as int),
{
    let keyframes_ns = normalize_keyframes(raw_keyframes, duration_ns);
    MediaMetadata { source_path, duration_ns, format_name, keyframes_ns }
}

} // verus!
