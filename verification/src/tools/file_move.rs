use vstd::prelude::*;

use crate::error::{ErrorKind, ToolError};
use crate::text::{push_str, string_of};

verus! {

/// Move arguments of the unchecked variant: the source and the destination as given.
#[derive(Debug)]
pub struct FileMoveTool {
    pub source: String,
    pub destination: String,
}

impl FileMoveTool {
    /// The refusal when the source cannot be canonicalized.
    pub fn missing_source(&self) -> (r: ToolError)
        ensures
            r.kind == ErrorKind::InvalidRequest,
            r.message@ == "failed to canonicalize path: "@ + self.source@,
    {
        let mut out: Vec<char> = Vec::new();
        push_str(&mut out, "failed to canonicalize path: ");
        push_str(&mut out, self.source.as_str());
        ToolError::invalid_request(string_of(&out))
    }

    /// The refusal when the move failed.
    pub fn failed(&self, canonical_source: &str) -> (r: ToolError)
        ensures
            r.kind == ErrorKind::InvalidRequest,
            r.message@ == "failed to move "@ + canonical_source@ + " to "@ + self.destination@,
    {
        let mut out: Vec<char> = Vec::new();
        push_str(&mut out, "failed to move ");
        push_str(&mut out, canonical_source);
        push_str(&mut out, " to ");
        push_str(&mut out, self.destination.as_str());
        ToolError::invalid_request(string_of(&out))
    }

    /// The answer once moved.
    pub fn moved(&self, canonical_source: &str) -> (r: String)
        ensures
            r@ == "moved "@ + canonical_source@ + " to "@ + self.destination@,
    {
        let mut out: Vec<char> = Vec::new();
        push_str(&mut out, "moved ");
        push_str(&mut out, canonical_source);
        push_str(&mut out, " to ");
        push_str(&mut out, self.destination.as_str());
        string_of(&out)
    }
}

} // verus!
