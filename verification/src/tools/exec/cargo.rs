use vstd::prelude::*;

use crate::helpers::steam_command::{copy_strings, SteamCommand};
use crate::tools::fs::grep::string_views;

verus! {

/// `cargo` arguments: the project directory and the full argument list
/// (subcommand first).
#[derive(Debug)]
pub struct CargoRunTool {
    pub project_dir: String,
    pub arguments: Vec<String>,
}

impl CargoRunTool {
    /// The command run: `cargo` with the arguments, in the resolved project directory.
    pub fn command(&self, resolved_project_dir: &str) -> (r: SteamCommand)
        ensures
            r.program@ == "cargo"@,
            string_views(r.arguments@) == string_views(self.arguments@),
            r.current_dir matches Some(d) && d@ == resolved_project_dir@,
    {
        let c = SteamCommand::new("cargo");
        assert(string_views(c.arguments@) =~= Seq::<Seq<char>>::empty());
        c.args(copy_strings(&self.arguments)).current_dir(resolved_project_dir)
    }
}

} // verus!
