use vstd::prelude::*;

use crate::text::{chars_of, lines_inclusive, split_lines_inclusive, string_of};
use crate::tools::fs::file_edit::push_lines;

verus! {

/// Reading arguments of the plain variant: the 0-based first line (0 when
/// absent) and how many lines (all when absent; non-zero when given).
#[derive(Debug)]
pub struct FileReadTool {
    pub path: String,
    pub start_line: Option<usize>,
    pub line_count: Option<usize>,
}

/// The lines `[start, start + count)` of `s` (as many as there are), unnumbered.
pub open spec fn plain_window(s: Seq<char>, start: nat, count: Option<nat>) -> Seq<char> {
    let l = lines_inclusive(s);
    let lo: int = if start <= l.len() { start as int } else { l.len() as int };
    let hi: int = match count {
        Some(c) => if lo + c <= l.len() { lo + c } else { l.len() as int },
        None => l.len() as int,
    };
    l.subrange(lo, hi).flatten()
}

impl FileReadTool {
    /// `line_count` is not zero (it is non-zero by type in the request).
    pub open spec fn wf(&self) -> bool {
        self.line_count != Some(0usize)
    }

    /// The requested lines of `contents`, as `plain_window` states.
    pub fn read(&self, contents: &str) -> (r: String)
        requires
            self.wf(),
        ensures
            r@ == plain_window(
                contents@,
                match self.start_line {
                    Some(s) => s as nat,
                    None => 0,
                },
                match self.line_count {
                    Some(c) => Some(c as nat),
                    None => None,
                },
            ),
    {
        let s = chars_of(contents);
        let lines = split_lines_inclusive(&s);
        let n = lines.len();
        let start: usize = match self.start_line {
            Some(v) => v,
            None => 0,
        };
        let lo: usize = if start <= n { start } else { n };
        let hi: usize = match self.line_count {
            Some(c) => if c <= n - lo { lo + c } else { n },
            None => n,
        };
        let mut out: Vec<char> = Vec::new();
        push_lines(&mut out, &lines, lo, hi);
        assert(out@ =~= Seq::<char>::empty() + crate::text::views(lines@).subrange(lo as int, hi as int).flatten());
        string_of(&out)
    }
}

} // verus!
