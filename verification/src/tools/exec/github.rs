use vstd::prelude::*;

use crate::helpers::steam_command::{copy_strings, SteamCommand};
use crate::tools::fs::grep::string_views;

verus! {

/// `gh` arguments: a directory inside the repository and the arguments
/// appended after the subcommand words.
#[derive(Debug)]
pub struct GithubCliTool {
    pub folder: String,
    pub arguments: Vec<String>,
}

impl GithubCliTool {
    /// The command run: `gh`, the subcommand words, then the arguments, in the
    /// resolved folder.
    pub fn command(&self, resolved_folder: &str, subcommand: &Vec<String>) -> (r: SteamCommand)
        ensures
            r.program@ == "gh"@,
            string_views(r.arguments@) == string_views(subcommand@) + string_views(self.arguments@),
            r.current_dir matches Some(d) && d@ == resolved_folder@,
    {
        let c = SteamCommand::new("gh");
        assert(string_views(c.arguments@) =~= Seq::<Seq<char>>::empty());
        c.args(copy_strings(subcommand)).args(copy_strings(&self.arguments)).current_dir(resolved_folder)
    }
}

} // verus!
