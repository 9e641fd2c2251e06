use vstd::prelude::*;

use crate::helpers::steam_command::{copy_strings, SteamCommand};
use crate::tools::fs::grep::string_views;

verus! {

/// `git` arguments: a directory inside the repository and the arguments
/// appended after the subcommand.
#[derive(Debug)]
pub struct GitRunTool {
    pub folder: String,
    pub arguments: Vec<String>,
}

impl GitRunTool {
    /// The command run: `git`, the subcommand, then the arguments, in the
    /// resolved folder.
    pub fn command(&self, resolved_folder: &str, subcommand: &str) -> (r: SteamCommand)
        ensures
            r.program@ == "git"@,
            string_views(r.arguments@) == seq![subcommand@] + string_views(self.arguments@),
            r.current_dir matches Some(d) && d@ == resolved_folder@,
    {
        let c = SteamCommand::new("git");
        assert(string_views(c.arguments@) =~= Seq::<Seq<char>>::empty());
        let first = vec![String::from_str(subcommand)];
        assert(string_views(first@) =~= seq![subcommand@]);
        c.args(first).args(copy_strings(&self.arguments)).current_dir(resolved_folder)
    }
}

} // verus!
