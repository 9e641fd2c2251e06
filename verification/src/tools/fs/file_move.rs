use vstd::prelude::*;

use crate::error::{ErrorKind, ToolError};
use crate::text::{path_debug_quoted, path_debug_text, push_str, string_of};

verus! {

/// Move arguments: the file or directory moved and where it goes.
#[derive(Debug)]
pub struct FileMoveTool {
    pub source: String,
    pub target: String,
}

/// `moved`, the quoted source, `to`, the quoted target.
pub open spec fn moved_text(source: Seq<char>, target: Seq<char>) -> Seq<char> {
    "moved "@ + path_debug_text(source) + " to "@ + path_debug_text(target)
}

impl FileMoveTool {
    /// The answer once moved, naming both resolved paths quoted.
    pub fn moved(resolved_source: &str, resolved_target: &str) -> (r: String)
        ensures
            r@ == moved_text(resolved_source@, resolved_target@),
    {
        let mut out: Vec<char> = Vec::new();
        push_str(&mut out, "moved ");
        push_str(&mut out, path_debug_quoted(resolved_source).as_str());
        push_str(&mut out, " to ");
        push_str(&mut out, path_debug_quoted(resolved_target).as_str());
        string_of(&out)
    }

    /// The refusal when the move failed, with the system's reason.
    pub fn failed(resolved_source: &str, resolved_target: &str, reason: &str) -> (r: ToolError)
        ensures
            r.kind == ErrorKind::InvalidRequest,
            r.message@ == "failed to move "@ + path_debug_text(resolved_source@) + " to "@ + path_debug_text(
                resolved_target@,
            ) + ": "@ + reason@,
    {
        let mut out: Vec<char> = Vec::new();
        push_str(&mut out, "failed to move ");
        push_str(&mut out, path_debug_quoted(resolved_source).as_str());
        push_str(&mut out, " to ");
        push_str(&mut out, path_debug_quoted(resolved_target).as_str());
        push_str(&mut out, ": ");
        push_str(&mut out, reason);
        ToolError::invalid_request(string_of(&out))
    }
}

} // verus!
