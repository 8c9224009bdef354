//! Isolation of one balanced brace-delimited block.
//!
//! A completion routinely continues with explanatory prose after the
//! function body it was asked for.  The scanner below keeps the
//! shortest prefix of the text that ends on the character bringing an
//! open-brace counter back to zero after at least one `{` was seen.
//! When no such prefix exists the whole text is kept, and the result
//! is marked as not closed so that a caller can treat it as a
//! degenerate outcome.

use vstd::prelude::*;

use crate::escape::push_char;

verus! {

/// Where the scan stops when it stands at position `i` of `s` with
/// `depth` braces currently open and `entered` telling whether any
/// `{` was seen so far: the position right after the character that
/// brings the depth back to zero once a brace was seen, or the end of
/// `s` when that never happens.
pub open spec fn scan_stop(s: Seq<char>, i: int, depth: int, entered: bool) -> int
    decreases s.len() - i,
        when i <= s.len()
{
    if i >= s.len() {
        s.len() as int
    } else {
        let d = if s[i] == '{' {
            depth + 1
        } else if s[i] == '}' {
            depth - 1
        } else {
            depth
        };
        let e = entered || s[i] == '{';
        if d == 0 && e {
            i + 1
        } else {
            scan_stop(s, i + 1, d, e)
        }
    }
}

/// Whether the scan starting as in [`scan_stop`] ever reaches depth
/// zero after having seen a `{`.
pub open spec fn scan_closes(s: Seq<char>, i: int, depth: int, entered: bool) -> bool
    decreases s.len() - i,
        when i <= s.len()
{
    if i >= s.len() {
        false
    } else {
        let d = if s[i] == '{' {
            depth + 1
        } else if s[i] == '}' {
            depth - 1
        } else {
            depth
        };
        let e = entered || s[i] == '{';
        if d == 0 && e {
            true
        } else {
            scan_closes(s, i + 1, d, e)
        }
    }
}

/// The prefix of `s` that the extractor keeps.
pub open spec fn block_of(s: Seq<char>) -> Seq<char> {
    s.take(scan_stop(s, 0, 0, false))
}

/// Whether the kept prefix ends on a brace that closed the block; when
/// false the whole text was kept (the degenerate outcome).
pub open spec fn block_closes(s: Seq<char>) -> bool {
    scan_closes(s, 0, 0, false)
}

proof fn lemma_scan_stop_without_close(s: Seq<char>, i: int, depth: int, entered: bool)
    requires
        0 <= i <= s.len(),
        !scan_closes(s, i, depth, entered),
    ensures
        scan_stop(s, i, depth, entered) == s.len(),
    decreases s.len() - i,
{
    if i < s.len() {
        let d = if s[i] == '{' {
            depth + 1
        } else if s[i] == '}' {
            depth - 1
        } else {
            depth
        };
        let e = entered || s[i] == '{';
        lemma_scan_stop_without_close(s, i + 1, d, e);
    }
}

/// The degenerate outcome is permissive: when the scan never brings
/// the brace counter back to zero after a `{` — in particular when
/// the text holds no brace at all — the extractor keeps the whole
/// text.
pub proof fn lemma_degenerate_extraction_keeps_all(s: Seq<char>)
    requires
        !block_closes(s),
    ensures
        block_of(s) == s,
{
    lemma_scan_stop_without_close(s, 0, 0, false);
    assert(s.take(s.len() as int) =~= s);
}

/// The prefix of a completion text that forms one balanced block,
/// together with the mark telling whether a block was closed at all.
pub struct ExtractedBlock {
    pub text: String,
    pub closed: bool,
}

/// Returns the shortest prefix of `text` that ends the instant the
/// open-brace counter returns to zero after at least one `{`, or the
/// whole text (marked as not closed) when that never happens.
pub fn extract(text: &str) -> (r: ExtractedBlock)
    ensures
        r.text@ == block_of(text@),
        r.closed == block_closes(text@),
{
    let n = text.unicode_len();
    let mut out = String::new();
    let mut depth: i128 = 0;
    let mut entered = false;
    let mut i: usize = 0;
    proof {
        assert(text@.take(0) =~= out@);
    }
    while i < n
        invariant
            i <= n,
            n == text@.len(),
            out@ == text@.take(i as int),
            -(i as int) <= depth as int <= i as int,
            scan_stop(text@, 0, 0, false) == scan_stop(text@, i as int, depth as int, entered),
            scan_closes(text@, 0, 0, false) == scan_closes(
                text@,
                i as int,
                depth as int,
                entered,
            ),
        decreases n - i,
    {
        let c = text.get_char(i);
        if c == '{' {
            depth = depth + 1;
            entered = true;
        }
        if c == '}' {
            depth = depth - 1;
        }
        push_char(&mut out, c);
        proof {
            assert(out@ =~= text@.take(i as int + 1));
        }
        i = i + 1;
        if depth == 0 && entered {
            return ExtractedBlock { text: out, closed: true };
        }
    }
    proof {
        assert(text@.take(n as int) =~= text@);
    }
    ExtractedBlock { text: out, closed: false }
}

} // verus!
