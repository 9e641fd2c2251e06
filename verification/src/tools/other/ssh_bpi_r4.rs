use vstd::prelude::*;

use crate::helpers::steam_command::SteamCommand;
use crate::tools::fs::grep::string_views;

verus! {

/// A shell command to run on the board, addressed by its fixed address.
#[derive(Debug)]
pub struct SshBpiR4Tool {
    pub command: String,
}

impl SshBpiR4Tool {
    /// The command run: `ssh root@10.0.0.1` with the command, in the workspace.
    pub fn command(&self, workspace: &str) -> (r: SteamCommand)
        ensures
            r.program@ == "ssh"@,
            string_views(r.arguments@) == seq!["root@10.0.0.1"@, self.command@],
            r.current_dir matches Some(d) && d@ == workspace@,
    {
        let arguments = vec![String::from_str("root@10.0.0.1"), self.command.clone()];
        let r = SteamCommand::new("ssh").args(arguments).current_dir(workspace);
        assert(string_views(r.arguments@) =~= seq!["root@10.0.0.1"@, self.command@]);
        r
    }
}

} // verus!
