use vstd::prelude::*;

use crate::error::{ErrorKind, ToolError};
use crate::text::{decimal, decimal_chars, push_all, push_str, string_of};

verus! {

/// Write arguments: the file and its new contents.
#[derive(Debug)]
pub struct FileWriteTool {
    pub path: String,
    pub contents: String,
}

/// The length of `s` in UTF-8 bytes, as `str::len` returns it.
pub open spec fn byte_len(s: Seq<char>) -> nat {
    (vstd::utf8::encode_utf8(s).len() as usize) as nat
}

impl FileWriteTool {
    /// The answer once written: the size of the contents in bytes and the resolved path.
    pub fn written(&self, resolved: &str) -> (r: String)
        ensures
            r@ == "wrote "@ + decimal(byte_len(self.contents@)) + " bytes to "@ + resolved@,
    {
        let mut out: Vec<char> = Vec::new();
        push_str(&mut out, "wrote ");
        let n = self.contents.as_str().len();
        push_all(&mut out, &decimal_chars(n as u64));
        push_str(&mut out, " bytes to ");
        push_str(&mut out, resolved);
        string_of(&out)
    }

    /// The refusal when the file could not be written.
    pub fn failed(resolved: &str) -> (r: ToolError)
        ensures
            r.kind == ErrorKind::InvalidRequest,
            r.message@ == "failed to write a file: "@ + resolved@,
    {
        let mut out: Vec<char> = Vec::new();
        push_str(&mut out, "failed to write a file: ");
        push_str(&mut out, resolved);
        ToolError::invalid_request(string_of(&out))
    }
}

} // verus!
