use vstd::prelude::*;

use crate::error::{ErrorKind, ToolError};
use crate::helpers::steam_command::{copy_strings, SteamCommand};
use crate::text::{push_str, string_of};
use crate::tools::fs::grep::string_views;

verus! {

/// `cargo` arguments for the variant that reports only the two streams:
/// the project directory and the argument list.
#[derive(Debug)]
pub struct CargoRunTool {
    pub project_dir: String,
    pub arguments: Vec<String>,
}

impl CargoRunTool {
    /// The command run: `cargo` with the arguments, in the resolved project
    /// directory; its output is reported as `OutputCollector::render` states.
    pub fn command(&self, resolved_project_dir: &str) -> (r: SteamCommand)
        ensures
            r.program@ == "cargo"@,
            string_views(r.arguments@) == string_views(self.arguments@),
            r.current_dir matches Some(d) && d@ == resolved_project_dir@,
    {
        let c = SteamCommand::new("cargo");
        assert(string_views(c.arguments@) =~= Seq::<Seq<char>>::empty());
        c.args(copy_strings(&self.arguments)).current_dir(resolved_project_dir)
    }

    /// The error when `cargo` could not be started, with the system's reason.
    pub fn spawn_failure(reason: &str) -> (r: ToolError)
        ensures
            r.kind == ErrorKind::Internal,
            r.message@ == "failed to execute cargo: "@ + reason@,
    {
        let mut out: Vec<char> = Vec::new();
        push_str(&mut out, "failed to execute cargo: ");
        push_str(&mut out, reason);
        ToolError::internal(string_of(&out))
    }
}

} // verus!
