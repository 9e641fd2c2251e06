use vstd::prelude::*;

use crate::tools::fs::file_edit::{replace_lines, replace_lines_exec};

verus! {

/// Editing arguments of the 0-based variant: `line_count` lines from line
/// `start_line` (0-based) are replaced by `new_text`; zero inserts.
#[derive(Debug)]
pub struct FileEditTool {
    pub path: String,
    pub start_line: usize,
    pub line_count: usize,
    pub new_text: String,
}

impl FileEditTool {
    /// The new contents: the first `start_line` lines kept, then `new_text`
    /// (newline-terminated when not empty), then the lines after the
    /// `line_count` replaced ones.
    pub fn edited(&self, contents: &str) -> (r: String)
        ensures
            r@ == replace_lines(
                contents@,
                self.start_line as nat,
                (self.start_line + self.line_count) as nat,
                self.new_text@,
            ),
    {
        replace_lines_exec(contents, self.start_line, self.line_count, self.new_text.as_str())
    }
}

} // verus!
