use vstd::prelude::*;

use crate::error::{ErrorKind, ToolError};
use crate::text::{decimal, decimal_chars, push_all, push_str, string_of};
use crate::tools::fs::file_write::byte_len;

verus! {

/// Write arguments of the unchecked variant: the file as given and its new contents.
#[derive(Debug)]
pub struct FileWriteTool {
    pub path: String,
    pub contents: String,
}

impl FileWriteTool {
    /// The answer once written: the size of the contents in bytes and the path as given.
    pub fn written(&self) -> (r: String)
        ensures
            r@ == "wrote "@ + decimal(byte_len(self.contents@)) + " bytes to "@ + self.path@,
    {
        let mut out: Vec<char> = Vec::new();
        push_str(&mut out, "wrote ");
        let n = self.contents.as_str().len();
        push_all(&mut out, &decimal_chars(n as u64));
        push_str(&mut out, " bytes to ");
        push_str(&mut out, self.path.as_str());
        string_of(&out)
    }

    /// The refusal when the file could not be written.
    pub fn failed(&self) -> (r: ToolError)
        ensures
            r.kind == ErrorKind::InvalidRequest,
            r.message@ == "failed to write a file: "@ + self.path@,
    {
        let mut out: Vec<char> = Vec::new();
        push_str(&mut out, "failed to write a file: ");
        push_str(&mut out, self.path.as_str());
        ToolError::invalid_request(string_of(&out))
    }
}

} // verus!
