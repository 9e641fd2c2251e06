use vstd::prelude::*;

use crate::text::{
    chars_of, decimal, lines_inclusive, push_all, push_right_aligned, right_align,
    split_lines_inclusive, string_of, views,
};

verus! {

/// Width of the right-aligned line-number column.
pub const NUMBER_WIDTH: usize = 6;

/// One line as `read_file` shows it: its 1-based number right-aligned in six
/// columns, a space, then the line itself (with its newline, if any).
pub open spec fn numbered_line(index: nat, line: Seq<char>) -> Seq<char> {
    right_align(decimal(index + 1), NUMBER_WIDTH as nat) + seq![' '] + line
}

/// The lines `l[lo..hi]`, each numbered as `numbered_line` states.
pub open spec fn numbered_lines(l: Seq<Seq<char>>, lo: int, hi: int) -> Seq<char>
    decreases hi - lo,
{
    if hi <= lo {
        Seq::empty()
    } else {
        numbered_lines(l, lo, hi - 1) + numbered_line((hi - 1) as nat, l[hi - 1])
    }
}

/// First line index shown: `offset - 1` (0 without offset), capped at the line count.
pub open spec fn window_start(n: nat, offset: Option<usize>) -> int {
    let o: int = match offset {
        Some(o) => o - 1,
        None => 0,
    };
    if o <= n {
        o
    } else {
        n as int
    }
}

/// One past the last line index shown: `limit` lines after the start (all without limit),
/// capped at the line count.
pub open spec fn window_end(n: nat, offset: Option<usize>, limit: Option<usize>) -> int {
    let lo = window_start(n, offset);
    match limit {
        Some(k) => if lo + k <= n {
            lo + k
        } else {
            n as int
        },
        None => n as int,
    }
}

/// What `read_file` returns for a text: the lines of the window, numbered.
pub open spec fn read_window(s: Seq<char>, offset: Option<usize>, limit: Option<usize>) -> Seq<char> {
    let l = lines_inclusive(s);
    numbered_lines(l, window_start(l.len(), offset), window_end(l.len(), offset, limit))
}

/// Reading arguments: `offset` is the 1-based first line, `limit` the most
/// lines returned; both are non-zero when given.
#[derive(Debug)]
pub struct FileReadTool {
    pub path: String,
    pub offset: Option<usize>,
    pub limit: Option<usize>,
}

impl FileReadTool {
    /// Neither `offset` nor `limit` is zero (they are non-zero by type in the request).
    pub open spec fn wf(&self) -> bool {
        &&& self.offset != Some(0usize)
        &&& self.limit != Some(0usize)
    }

    /// The requested lines of `contents`, numbered.
    pub fn numbered(&self, contents: &str) -> (r: String)
        requires
            self.wf(),
        ensures
            r@ == read_window(contents@, self.offset, self.limit),
    {
        let s = chars_of(contents);
        let lines = split_lines_inclusive(&s);
        let ghost l = lines_inclusive(s@);
        let n = lines.len();
        let o: usize = match self.offset {
            Some(o) => o - 1,
            None => 0,
        };
        let lo: usize = if o <= n { o } else { n };
        let hi: usize = match self.limit {
            Some(k) => if k <= n - lo { lo + k } else { n },
            None => n,
        };
        assert(lo == window_start(l.len(), self.offset));
        assert(hi == window_end(l.len(), self.offset, self.limit));
        let mut out: Vec<char> = Vec::new();
        let mut i: usize = lo;
        while i < hi
            invariant
                lo <= i <= hi <= n,
                n == l.len(),
                views(lines@) == l,
                out@ == numbered_lines(l, lo as int, i as int),
            decreases hi - i,
        {
            push_right_aligned(&mut out, (i + 1) as u64, NUMBER_WIDTH);
            out.push(' ');
            push_all(&mut out, &lines[i]);
            assert(lines@[i as int]@ == l[i as int]);
            assert(out@ =~= numbered_lines(l, lo as int, i as int) + numbered_line(i as nat, l[i as int]));
            i = i + 1;
        }
        string_of(&out)
    }
}

/// Reading a text in two consecutive windows, the first `k` lines and then
/// the rest from line `k + 1`, gives what one read of the whole text gives.
pub proof fn lemma_split_read_is_whole_read(s: Seq<char>, k: usize)
    requires
        1 <= k < usize::MAX,
    ensures
        read_window(s, None, Some(k)) + read_window(s, Some((k + 1) as usize), None)
            == read_window(s, None, None),
{
    let l = lines_inclusive(s);
    let n = l.len();
    let m: int = if k <= n { k as int } else { n as int };
    lemma_numbered_concat(l, 0, m, n as int);
}

/// Numbered ranges concatenate.
pub proof fn lemma_numbered_concat(l: Seq<Seq<char>>, a: int, b: int, c: int)
    requires
        a <= b <= c,
    ensures
        numbered_lines(l, a, b) + numbered_lines(l, b, c) == numbered_lines(l, a, c),
    decreases c - b,
{
    if b < c {
        lemma_numbered_concat(l, a, b, c - 1);
        assert(numbered_lines(l, a, b) + numbered_lines(l, b, c) =~= numbered_lines(l, a, b)
            + numbered_lines(l, b, c - 1) + numbered_line((c - 1) as nat, l[c - 1]));
    } else {
        assert(numbered_lines(l, a, b) + numbered_lines(l, b, c) =~= numbered_lines(l, a, b));
    }
}

} // verus!
