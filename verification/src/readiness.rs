//! Readiness detection over the backend's console output: the process is
//! ready at the first line whose text contains the configured ready pattern.
//! Lines are handled as raw bytes; every line before the matching one is
//! echoed to the operator before callers are released.

use vstd::prelude::*;

verus! {

/// `pattern` occurs in `text` starting at position `i`.
pub open spec fn match_at(text: Seq<u8>, pattern: Seq<u8>, i: int) -> bool {
    0 <= i && i + pattern.len() <= text.len() && text.subrange(i, i + pattern.len()) == pattern
}

/// `pattern` occurs somewhere in `text`.
pub open spec fn spec_contains(text: Seq<u8>, pattern: Seq<u8>) -> bool {
    exists|i: int| match_at(text, pattern, i)
}

/// Whether the window of `text` starting at `start` equals `pattern`.
fn window_matches(text: &Vec<u8>, pattern: &Vec<u8>, start: usize) -> (r: bool)
    requires
        start + pattern@.len() <= text@.len(),
    ensures
        r == match_at(text@, pattern@, start as int),
{
    let text_len = text.len();
    let mut j: usize = 0;
    while j < pattern.len()
        invariant
            j <= pattern@.len(),
            start + pattern@.len() <= text@.len(),
            text@.len() == text_len,
            forall|k: int| 0 <= k < j ==> text@[start + k] == pattern@[k],
        decreases pattern@.len() - j,
    {
        if text[start + j] != pattern[j] {
            proof {
                assert(text@.subrange(start as int, start + pattern@.len())[j as int]
                    != pattern@[j as int]);
            }
            return false;
        }
        j += 1;
    }
    proof {
        assert(text@.subrange(start as int, start + pattern@.len()) =~= pattern@);
    }
    true
}

/// A console line signals readiness when it contains the ready pattern.
pub fn line_is_ready(line: &Vec<u8>, pattern: &Vec<u8>) -> (r: bool)
    ensures
        r == spec_contains(line@, pattern@),
{
    if pattern.len() > line.len() {
        return false;
    }
    if pattern.len() == 0 {
        proof {
            assert(line@.subrange(0, 0) =~= pattern@);
            assert(match_at(line@, pattern@, 0));
        }
        return true;
    }
    let last_start = line.len() - pattern.len();
    let mut i: usize = 0;
    while i <= last_start
        invariant
            i <= last_start + 1,
            last_start < usize::MAX,
            pattern@.len() >= 1,
            last_start == line@.len() - pattern@.len(),
            forall|k: int| 0 <= k < i ==> !match_at(line@, pattern@, k),
        decreases last_start + 1 - i,
    {
        if window_matches(line, pattern, i) {
            return true;
        }
        i += 1;
    }
    false
}

/// What a scan of the backend's startup output found.
#[derive(Debug, Clone, Copy, PartialEq, Eq, Structural)]
pub struct ReadyScan {
    /// How many leading lines carry no ready pattern; exactly these are
    /// echoed to the operator before callers are released.
    pub echoed: usize,
    /// Whether a line containing the ready pattern was found. When the
    /// output ends without one, readiness is signaled by end-of-stream
    /// instead and every line was echoed.
    pub found: bool,
}

/// Scans startup console lines in order for the first one containing the
/// ready pattern.
pub fn scan_for_ready(lines: &Vec<Vec<u8>>, pattern: &Vec<u8>) -> (r: ReadyScan)
    ensures
        r.found ==> r.echoed < lines@.len() && spec_contains(lines@[r.echoed as int]@, pattern@)
            && forall|j: int| 0 <= j < r.echoed ==> !spec_contains(lines@[j]@, pattern@),
        !r.found ==> r.echoed == lines@.len() && forall|j: int|
            0 <= j < lines@.len() ==> !spec_contains(lines@[j]@, pattern@),
{
    let n = lines.len();
    let mut i: usize = 0;
    while i < n
        invariant
            i <= n,
            n == lines@.len(),
            forall|j: int| 0 <= j < i ==> !spec_contains(lines@[j]@, pattern@),
        decreases n - i,
    {
        if line_is_ready(&lines[i], pattern) {
            return ReadyScan { echoed: i, found: true };
        }
        i += 1;
    }
    ReadyScan { echoed: n, found: false }
}

} // verus!
