//! Checks on the export folder and on the files a render produces.

use vstd::prelude::*;
use crate::text::{has_substring, lowercase, lowercased, text_contains, text_eq, text_starts_with};

verus! {

/// The part of a name after its last '.', or the whole name when it has none.
pub open spec fn extension_of(s: Seq<char>) -> Seq<char>
    decreases s.len(),
{
    if s.len() == 0 {
        s
    } else if s.last() == '.' {
        seq![]
    } else {
        extension_of(s.drop_last()).push(s.last())
    }
}

/// The extensions of rendered videos.
pub open spec fn is_video_extension(e: Seq<char>) -> bool {
    e == "mp4"@ || e == "mov"@ || e == "avi"@ || e == "mkv"@ || e == "webm"@ || e == "m4v"@ || e == "wmv"@ || e == "flv"@
}

/// A file in the export folder that may be the rendered video: its lower-case name
/// is not hidden, not temporary and not a backup, and ends in a video extension.
pub open spec fn spec_video_candidate(name: Seq<char>) -> bool {
    let lower = lowercased(name);
    !((lower.len() > 0 && lower[0] == '.') || has_substring(lower, ".tmp"@) || has_substring(lower, "~"@))
        && is_video_extension(extension_of(lower))
}

/// The part of a name after its last '.'.
pub fn extension(s: &str) -> (r: String)
    ensures
        r@ == extension_of(s@),
{
    let n = s.unicode_len();
    let mut start: usize = n;
    while start > 0 && s.get_char(start - 1) != '.'
        invariant
            n == s@.len(),
            start <= n,
            forall|k: int| start <= k < n ==> s@[k] != '.',
        decreases start,
    {
        start = start - 1;
    }
    proof {
        lemma_extension_from(s@, start as int);
    }
    String::from_str(s.substring_char(start, n))
}

proof fn lemma_extension_from(s: Seq<char>, start: int)
    requires
        0 <= start <= s.len(),
        forall|k: int| start <= k < s.len() ==> s[k] != '.',
        start == 0 || s[start - 1] == '.',
    ensures
        extension_of(s) == s.subrange(start, s.len() as int),
    decreases s.len(),
{
    if s.len() == 0 {
        assert(s.subrange(start, 0) =~= s);
    } else if start == s.len() {
        assert(s.subrange(start, s.len() as int) =~= seq![]);
    } else {
        lemma_extension_from(s.drop_last(), start);
        assert(s.drop_last().subrange(start, s.len() - 1).push(s.last()) =~= s.subrange(start, s.len() as int));
    }
}

/// Whether a file in the export folder may be the rendered video.
pub fn is_video_candidate(name: &str) -> (r: bool)
    ensures
        r == spec_video_candidate(name@),
{
    let lower = lowercase(name);
    let l = lower.as_str();
    let hidden = text_starts_with(l, ".");
    proof {
        reveal_strlit(".");
        if hidden {
            assert(l@.subrange(0, 1)[0] == '.');
        }
    }
    if hidden || text_contains(l, ".tmp") || text_contains(l, "~") {
        return false;
    }
    proof {
        reveal_strlit(".");
        if l@.len() > 0 && l@[0] == '.' {
            assert(l@.subrange(0, 1) =~= "."@);
        }
        assert(!(l@.len() > 0 && l@[0] == '.'));
        reveal_strlit("mp4");
        reveal_strlit("mov");
        reveal_strlit("avi");
        reveal_strlit("mkv");
        reveal_strlit("webm");
        reveal_strlit("m4v");
        reveal_strlit("wmv");
        reveal_strlit("flv");
    }
    let e = extension(l);
    let es = e.as_str();
    text_eq(es, "mp4") || text_eq(es, "mov") || text_eq(es, "avi") || text_eq(es, "mkv") || text_eq(es, "webm")
        || text_eq(es, "m4v") || text_eq(es, "wmv") || text_eq(es, "flv")
}

/// A file is done being written when two readings of its size, two seconds apart,
/// agree and are not zero.
pub fn file_ready(size_before: u64, size_after: u64) -> (r: bool)
    ensures
        r == (size_before == size_after && size_before > 0),
{
    size_before == size_after && size_before > 0
}

/// The export folder must exist, be a folder, and be readable; the error says which
/// check failed.
pub open spec fn spec_export_check(path: Seq<char>, exists: bool, is_dir: bool, read_error: Option<Seq<char>>) -> Result<(), Seq<char>> {
    if !exists {
        Err("Export folder không tồn tại: "@ + path)
    } else if !is_dir {
        Err("Export path không phải thư mục: "@ + path)
    } else {
        match read_error {
            Some(e) => Err("Không có quyền đọc export folder: "@ + e),
            None => Ok(()),
        }
    }
}

/// Checks the export folder, given whether it exists, whether it is a folder, and the
/// error of listing it, if any.
pub fn validate_export_path(path: &str, exists: bool, is_dir: bool, read_error: &Option<String>) -> (r: Result<(), String>)
    ensures
        match r {
            Ok(()) => spec_export_check(path@, exists, is_dir, match read_error {
                Some(e) => Some(e@),
                None => None,
            }) == Ok::<(), Seq<char>>(()),
            Err(e) => spec_export_check(path@, exists, is_dir, match read_error {
                Some(e) => Some(e@),
                None => None,
            }) == Err::<(), Seq<char>>(e@),
        },
{
    if !exists {
        let mut m = String::from_str("Export folder không tồn tại: ");
        m.append(path);
        return Err(m);
    }
    if !is_dir {
        let mut m = String::from_str("Export path không phải thư mục: ");
        m.append(path);
        return Err(m);
    }
    match read_error {
        Some(e) => {
            let mut m = String::from_str("Không có quyền đọc export folder: ");
            m.append(e.as_str());
            Err(m)
        },
        None => Ok(()),
    }
}

/// The names of some files.
pub open spec fn file_names(v: Seq<String>) -> Seq<Seq<char>> {
    v.map_values(|s: String| s@)
}

/// A file of the export folder is the render's output when it may be a rendered video
/// and it was not in the folder before the export or was modified since the export
/// started.
pub open spec fn spec_render_output(name: Seq<char>, before: Seq<Seq<char>>, modified_since_start: bool) -> bool {
    spec_video_candidate(name) && (!before.contains(name) || modified_since_start)
}

/// Whether `name` is among `names`.
pub fn name_listed(names: &Vec<String>, name: &str) -> (r: bool)
    ensures
        r == file_names(names@).contains(name@),
{
    let ghost nv = file_names(names@);
    let mut i: usize = 0;
    while i < names.len()
        invariant
            nv == file_names(names@),
            i <= names@.len(),
            forall|k: int| 0 <= k < i ==> nv[k] != name@,
        decreases names@.len() - i,
    {
        if text_eq(names[i].as_str(), name) {
            assert(nv[i as int] == name@);
            return true;
        }
        i = i + 1;
    }
    false
}

/// Whether a file seen while polling the export folder is the render's output, given
/// the names that were there before the export and whether the file was modified
/// since the export started.
pub fn is_render_output(name: &str, before_files: &Vec<String>, modified_since_start: bool) -> (r: bool)
    ensures
        r == spec_render_output(name@, file_names(before_files@), modified_since_start),
{
    is_video_candidate(name) && (!name_listed(before_files, name) || modified_since_start)
}

/// What the render poll does at the top of a round.
#[derive(Clone, Copy, Debug, PartialEq, Eq, Structural)]
pub enum PollStep {
    /// A stop was requested: give up.
    Stopped,
    /// The render took too long: give up.
    TimedOut,
    /// Look at the folder again, first logging a heartbeat or not.
    Poll { heartbeat: bool },
}

/// A stop ends the poll first, then the timeout; a heartbeat is logged every 30
/// seconds.
pub open spec fn spec_poll_step(stop: bool, elapsed: u64, timeout: u64, last_heartbeat: u64) -> PollStep {
    if stop {
        PollStep::Stopped
    } else if elapsed >= timeout {
        PollStep::TimedOut
    } else {
        PollStep::Poll { heartbeat: elapsed >= last_heartbeat + 30 }
    }
}

/// Decides a round of the render poll, `elapsed` seconds after it began, with the
/// last heartbeat logged at `last_heartbeat`.
pub fn poll_step(stop: bool, elapsed: u64, timeout: u64, last_heartbeat: u64) -> (r: PollStep)
    ensures
        r == spec_poll_step(stop, elapsed, timeout, last_heartbeat),
{
    if stop {
        PollStep::Stopped
    } else if elapsed >= timeout {
        PollStep::TimedOut
    } else {
        PollStep::Poll { heartbeat: elapsed >= 30 && elapsed - 30 >= last_heartbeat }
    }
}

} // verus!
