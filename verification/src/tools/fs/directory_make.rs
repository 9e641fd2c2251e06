use vstd::prelude::*;

use crate::error::{ErrorKind, ToolError};
use crate::text::{push_str, string_of};

verus! {

/// Directory creation arguments: the directory (parents are created too).
#[derive(Debug)]
pub struct DirectoryMakeTool {
    pub path: String,
}

impl DirectoryMakeTool {
    /// The answer once the directory exists; it names the path as requested.
    pub fn created(&self) -> (r: String)
        ensures
            r@ == "created directory "@ + self.path@,
    {
        let mut out: Vec<char> = Vec::new();
        push_str(&mut out, "created directory ");
        push_str(&mut out, self.path.as_str());
        string_of(&out)
    }

    /// The refusal when the directory could not be created.
    pub fn failed(&self) -> (r: ToolError)
        ensures
            r.kind == ErrorKind::InvalidRequest,
            r.message@ == "failed to create a directory: "@ + self.path@,
    {
        let mut out: Vec<char> = Vec::new();
        push_str(&mut out, "failed to create a directory: ");
        push_str(&mut out, self.path.as_str());
        ToolError::invalid_request(string_of(&out))
    }
}

} // verus!
