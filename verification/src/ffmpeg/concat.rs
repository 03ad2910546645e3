//! Merging segments into one file: each segment is cut into a numbered part,
//! the parts are listed for ffmpeg's concat demuxer, and the merged file gets
//! a name that is not taken yet.

use vstd::prelude::*;
use crate::ffmpeg::cut::{
    extension_or_mp4, first_free_below, lemma_first_free_skip, msg_no_parent, msg_no_stem, picked,
    source_extension,
};
use crate::model::fails_with;
use crate::paths::{path_exists, path_file_stem, path_file_stem_of, path_join, path_join_of, path_parent, path_parent_of};
use crate::text::{chars_of, padded, push_padded, push_str, string_from_chars};

verus! {

/// `part-NNN.ext`, the name of the `index`-th cut part.
pub open spec fn part_file_name_of(index: nat, ext: Seq<char>) -> Seq<char> {
    "part-"@ + padded(index, 3) + "."@ + ext
}

/// The file name of the `index`-th part of a merge.
pub fn part_file_name(index: u64, ext: &str) -> (n: String)
    ensures
        n@ == part_file_name_of(index as nat, ext@),
{
    let mut v: Vec<char> = Vec::new();
    push_str(&mut v, "part-");
    push_padded(&mut v, index, 3);
    push_str(&mut v, ".");
    push_str(&mut v, ext);
    string_from_chars(&v)
}

/// `stem-merged.ext` for the first choice, `stem-merged-NNN.ext` after it.
pub open spec fn merged_file_name(stem: Seq<char>, index: nat, ext: Seq<char>) -> Seq<char> {
    if index == 0 {
        stem + "-merged."@ + ext
    } else {
        stem + "-merged-"@ + padded(index, 3) + "."@ + ext
    }
}

/// The `index`-th choice of merged-file name beside the source (0 for the plain one).
pub fn merged_candidate(parent: &str, stem: &str, index: u64, ext: &str) -> (p: String)
    ensures
        p@ == path_join_of(parent@, merged_file_name(stem@, index as nat, ext@)),
{
    let mut v = chars_of(stem);
    if index == 0 {
        push_str(&mut v, "-merged.");
    } else {
        push_str(&mut v, "-merged-");
        push_padded(&mut v, index, 3);
        push_str(&mut v, ".");
    }
    push_str(&mut v, ext);
    let n = string_from_chars(&v);
    path_join(parent, n.as_str())
}

pub open spec fn msg_no_merged_name() -> Seq<char> {
    "Unable to allocate merged output file name"@
}

/// The merged-file name chosen from the answers `taken[k]` (whether something
/// is on disk under the `k`-th choice, 0 being the unnumbered name): the first
/// one reported free among the first million.
pub open spec fn merged_pick(source: Seq<char>, taken: Seq<bool>) -> Option<Seq<char>> {
    match first_free_below(taken, 0, 1_000_000) {
        Some(k) => Some(
            path_join_of(
                path_parent_of(source)->0,
                merged_file_name(path_file_stem_of(source)->0, k as nat, extension_or_mp4(source)),
            ),
        ),
        None => None,
    }
}

/// The merged-file name to write, from the answers `taken` to whether
/// something is on disk under each choice in order (`<stem>-merged.<ext>`,
/// then `-001` up to `-999999`): the first one reported free, otherwise an error.
pub fn pick_merged_output_path(source: &str, taken: &Vec<bool>) -> (r: Result<String, String>)
    ensures
        path_parent_of(source@) is None ==> fails_with(r, msg_no_parent()),
        path_parent_of(source@) is Some && path_file_stem_of(source@) is None ==> fails_with(
            r,
            msg_no_stem(),
        ),
        path_parent_of(source@) is Some && path_file_stem_of(source@) is Some ==> picked(
            r,
            merged_pick(source@, taken@),
            msg_no_merged_name(),
        ),
{
    let parent = match path_parent(source) {
        Some(p) => p,
        None => {
            return Err(String::from_str("Source path has no parent directory"));
        },
    };
    let stem = match path_file_stem(source) {
        Some(s) => s,
        None => {
            return Err(String::from_str("Source path has no file stem"));
        },
    };
    let ext = source_extension(source);
    let mut k: usize = 0;
    while k < taken.len() && k < 1_000_000
        invariant
            k <= taken@.len(),
            k <= 1_000_000,
            forall|j: int| 0 <= j < k ==> taken@[j],
            parent@ == path_parent_of(source@)->0,
            stem@ == path_file_stem_of(source@)->0,
            ext@ == extension_or_mp4(source@),
            path_parent_of(source@) is Some,
            path_file_stem_of(source@) is Some,
        decreases taken.len() - k,
    {
        if !taken[k] {
            proof {
                lemma_first_free_skip(taken@, 0, k as int, 1_000_000);
            }
            return Ok(merged_candidate(parent.as_str(), stem.as_str(), k as u64, ext.as_str()));
        }
        k = k + 1;
    }
    proof {
        lemma_first_free_skip(taken@, 0, k as int, 1_000_000);
    }
    Err(String::from_str("Unable to allocate merged output file name"))
}

/// The name for a merged export: `<stem>-merged.<ext>` beside the source, or
/// the first of `<stem>-merged-001.<ext>` .. `-999999` that nothing is on disk
/// under. What the disk answers cannot be stated; the result is what
/// [`pick_merged_output_path`] gives on the answers received, and those
/// answers run until the first free name or through every choice.
pub fn merged_output_path(source: &str) -> (r: Result<String, String>)
    ensures
        path_parent_of(source@) is None ==> fails_with(r, msg_no_parent()),
        path_parent_of(source@) is Some && path_file_stem_of(source@) is None ==> fails_with(
            r,
            msg_no_stem(),
        ),
        path_parent_of(source@) is Some && path_file_stem_of(source@) is Some ==> exists|
            taken: Seq<bool>,
        |
            {
                &&& 0 < taken.len() <= 1_000_000
                &&& (taken.len() == 1_000_000 || !taken.last())
                &&& forall|j: int| 0 <= j < taken.len() - 1 ==> taken[j]
                &&& picked(r, #[trigger] merged_pick(source@, taken), msg_no_merged_name())
            },
{
    let parent = match path_parent(source) {
        Some(p) => p,
        None => {
            return Err(String::from_str("Source path has no parent directory"));
        },
    };
    let stem = match path_file_stem(source) {
        Some(s) => s,
        None => {
            return Err(String::from_str("Source path has no file stem"));
        },
    };
    let ext = source_extension(source);
    let mut taken: Vec<bool> = Vec::new();
    let mut k: u64 = 0;
    loop
        invariant_except_break
            k == taken@.len(),
            forall|j: int| 0 <= j < k ==> taken@[j],
        invariant
            k < 1_000_000,
            parent@ == path_parent_of(source@)->0,
            stem@ == path_file_stem_of(source@)->0,
            ext@ == extension_or_mp4(source@),
        ensures
            0 < taken@.len() <= 1_000_000,
            taken@.len() == 1_000_000 || !taken@.last(),
            forall|j: int| 0 <= j < taken@.len() - 1 ==> taken@[j],
        decreases 1_000_000 - k,
    {
        let candidate = merged_candidate(parent.as_str(), stem.as_str(), k, ext.as_str());
        let found = path_exists(candidate.as_str());
        taken.push(found);
        if !found || k + 1 == 1_000_000 {
            break;
        }
        k = k + 1;
    }
    pick_merged_output_path(source, &taken)
}

/// The ffmpeg arguments that join the files listed in `list_path` into `output`.
pub open spec fn concat_args_of(list_path: Seq<char>, output: Seq<char>) -> Seq<Seq<char>> {
    seq![
        "-hide_banner"@,
        "-y"@,
        "-f"@,
        "concat"@,
        "-safe"@,
        "0"@,
        "-i"@,
        list_path,
        "-map"@,
        "0"@,
        "-c"@,
        "copy"@,
        output,
    ]
}

/// The arguments of the ffmpeg run that joins the listed parts without re-encoding.
pub fn build_concat_args(list_path: &str, output: &str) -> (r: Vec<String>)
    ensures
        r@.len() == 13,
        forall|i: int| 0 <= i < 13 ==> #[trigger] r@[i]@ == concat_args_of(list_path@, output@)[i],
{
    let mut r: Vec<String> = Vec::new();
    r.push(String::from_str("-hide_banner"));
    r.push(String::from_str("-y"));
    r.push(String::from_str("-f"));
    r.push(String::from_str("concat"));
    r.push(String::from_str("-safe"));
    r.push(String::from_str("0"));
    r.push(String::from_str("-i"));
    r.push(String::from_str(list_path));
    r.push(String::from_str("-map"));
    r.push(String::from_str("0"));
    r.push(String::from_str("-c"));
    r.push(String::from_str("copy"));
    r.push(String::from_str(output));
    r
}

} // verus!
