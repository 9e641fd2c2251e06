use vstd::prelude::*;

use crate::helpers::steam_command::SteamCommand;
use crate::tools::fs::grep::string_views;
use crate::tools::other::BPI_R4_DESTINATION;

verus! {

/// A shell command to run on the board.
#[derive(Debug)]
pub struct BpiR4SshTool {
    pub command: String,
}

impl BpiR4SshTool {
    /// The command run: `ssh` to the board's destination with the command, in the workspace.
    pub fn command(&self, workspace: &str) -> (r: SteamCommand)
        ensures
            r.program@ == "ssh"@,
            string_views(r.arguments@) == seq![BPI_R4_DESTINATION@, self.command@],
            r.current_dir matches Some(d) && d@ == workspace@,
    {
        let arguments = vec![String::from_str(BPI_R4_DESTINATION), self.command.clone()];
        let r = SteamCommand::new("ssh").args(arguments).current_dir(workspace);
        assert(string_views(r.arguments@) =~= seq![BPI_R4_DESTINATION@, self.command@]);
        r
    }
}

} // verus!
