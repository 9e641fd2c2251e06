use vstd::prelude::*;

use crate::helpers::steam_command::SteamCommand;
use crate::text::{push_str, string_of};
use crate::tools::fs::grep::string_views;
use crate::tools::other::BPI_R4_DESTINATION;

verus! {

/// Copy arguments: a local path and the path on the board.
#[derive(Debug)]
pub struct BpiR4ScpTool {
    pub local_path: String,
    pub remote_path: String,
}

impl BpiR4ScpTool {
    /// The command run: `scp -O` from the resolved local path to the board's
    /// destination and remote path, in the workspace.
    pub fn command(&self, workspace: &str, resolved_source: &str) -> (r: SteamCommand)
        ensures
            r.program@ == "scp"@,
            string_views(r.arguments@) == seq![
                "-O"@,
                resolved_source@,
                BPI_R4_DESTINATION@ + ":"@ + self.remote_path@,
            ],
            r.current_dir matches Some(d) && d@ == workspace@,
    {
        let mut target: Vec<char> = Vec::new();
        push_str(&mut target, BPI_R4_DESTINATION);
        push_str(&mut target, ":");
        push_str(&mut target, self.remote_path.as_str());
        let arguments = vec![String::from_str("-O"), String::from_str(resolved_source), string_of(&target)];
        let c = SteamCommand::new("scp");
        let r = c.args(arguments).current_dir(workspace);
        assert(string_views(r.arguments@) =~= seq![
            "-O"@,
            resolved_source@,
            BPI_R4_DESTINATION@ + ":"@ + self.remote_path@,
        ]);
        r
    }
}

} // verus!
