use vstd::prelude::*;

verus! {

/// How a tool failure is reported to the client.
#[derive(Debug, Clone, Copy, PartialEq, Eq, Structural)]
pub enum ErrorKind {
    /// The request cannot be served as asked (bad argument, missing file, denied access).
    InvalidRequest,
    /// The server failed on its side (a command could not run, output could not be built).
    Internal,
}

/// A failure of a tool, with the message shown to the client.
#[derive(Debug)]
pub struct ToolError {
    pub kind: ErrorKind,
    pub message: String,
}

impl ToolError {
    pub fn invalid_request(message: String) -> (r: ToolError)
        ensures
            r.kind == ErrorKind::InvalidRequest,
            r.message@ == message@,
    {
        ToolError { kind: ErrorKind::InvalidRequest, message }
    }

    pub fn internal(message: String) -> (r: ToolError)
        ensures
            r.kind == ErrorKind::Internal,
            r.message@ == message@,
    {
        ToolError { kind: ErrorKind::Internal, message }
    }
}

} // verus!
