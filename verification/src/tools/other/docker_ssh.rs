use vstd::prelude::*;

use crate::helpers::steam_command::SteamCommand;
use crate::tools::fs::grep::string_views;

verus! {

/// A shell command to run in the local build container.
#[derive(Debug)]
pub struct DockerSshTool {
    pub command: String,
}

impl DockerSshTool {
    /// The command run: `ssh builder@localhost -p 13020` with the command, in the workspace.
    pub fn command(&self, workspace: &str) -> (r: SteamCommand)
        ensures
            r.program@ == "ssh"@,
            string_views(r.arguments@) == seq!["builder@localhost"@, "-p"@, "13020"@, self.command@],
            r.current_dir matches Some(d) && d@ == workspace@,
    {
        let arguments = vec![
            String::from_str("builder@localhost"),
            String::from_str("-p"),
            String::from_str("13020"),
            self.command.clone(),
        ];
        let r = SteamCommand::new("ssh").args(arguments).current_dir(workspace);
        assert(string_views(r.arguments@) =~= seq!["builder@localhost"@, "-p"@, "13020"@, self.command@]);
        r
    }
}

} // verus!
