//! Per-file sessions: the segments of a source file are kept beside it in
//! `<file name>.safclip.json`, with the source's path and modification time
//! so that a reload can tell whether the file changed.

use vstd::prelude::*;
use crate::model::Segment;
use crate::paths::{path_file_name, path_file_name_of, path_join, path_join_of, path_parent, path_parent_of};
use crate::text::{chars_of, push_str, string_from_chars};

verus! {

/// What a session file holds.
pub struct SessionData {
    pub version: u32,
    pub source_path: String,
    pub source_modified: u64,
    pub segments: Vec<Segment>,
}

/// How a stored session compares with its source file on disk.
#[derive(PartialEq, Eq, Structural, Clone, Copy, Debug)]
pub struct SessionValidation {
    pub path_match: bool,
    pub modified_match: bool,
    pub source_exists: bool,
}

impl SessionValidation {
    /// A session may be restored as-is only when every check passed.
    pub fn is_valid(&self) -> (r: bool)
        ensures
            r == (self.path_match && self.modified_match && self.source_exists),
    {
        self.path_match && self.modified_match && self.source_exists
    }
}

/// The suffix a session file adds to its source's file name.
pub open spec fn session_suffix() -> Seq<char> {
    ".safclip.json"@
}

/// The session file of a source: its file name with `.safclip.json` added,
/// in the source's directory.
pub open spec fn session_path_of(source: Seq<char>) -> Seq<char> {
    let name = match path_file_name_of(source) {
        Some(n) => n,
        None => Seq::<char>::empty(),
    } + session_suffix();
    match path_parent_of(source) {
        Some(parent) => path_join_of(parent, name),
        None => name,
    }
}

/// Where the session of `source` is stored.
pub fn session_path(source: &str) -> (r: String)
    ensures
        r@ == session_path_of(source@),
{
    let mut name: Vec<char> = match path_file_name(source) {
        Some(n) => chars_of(n.as_str()),
        None => Vec::new(),
    };
    push_str(&mut name, ".safclip.json");
    proof {
        reveal_strlit(".safclip.json");
    }
    let name_text = string_from_chars(&name);
    match path_parent(source) {
        Some(parent) => path_join(parent.as_str(), name_text.as_str()),
        None => name_text,
    }
}

/// The session to store for a source: format version 1, the source's
/// absolute path and modification time (seconds since the epoch), and its segments.
pub fn new_session_data(source_path: String, source_modified: u64, segments: Vec<Segment>) -> (d:
    SessionData)
    ensures
        d.version == 1,
        d.source_path == source_path,
        d.source_modified == source_modified,
        d.segments == segments,
{
    SessionData { version: 1, source_path, source_modified, segments }
}

/// Compares a stored session with what the file system says of its source:
/// the source's absolute path, whether it exists, and its modification time
/// when that could be read. The times are compared only for an existing source.
pub fn validate(
    session: &SessionData,
    source_path: &String,
    source_exists: bool,
    source_modified: Option<u64>,
) -> (v: SessionValidation)
    ensures
        v.source_exists == source_exists,
        v.path_match == (session.source_path@ == source_path@),
        v.modified_match == (source_exists && source_modified == Some(session.source_modified)),
{
    let path_match = session.source_path == *source_path;
    let modified_match = source_exists && match source_modified {
        Some(m) => m == session.source_modified,
        None => false,
    };
    SessionValidation { path_match, modified_match, source_exists }
}

} // verus!
