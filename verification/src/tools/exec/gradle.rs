use vstd::prelude::*;

use crate::helpers::steam_command::{copy_strings, SteamCommand};
use crate::path::push_path;
use crate::text::{chars_of, string_of};
use crate::tools::fs::grep::string_views;

verus! {

/// `gradle` arguments: the project directory and the task arguments.
#[derive(Debug)]
pub struct GradleRunTool {
    pub project_dir: String,
    pub arguments: Vec<String>,
}

impl GradleRunTool {
    /// The command run: the project's `gradlew` wrapper with the arguments, in
    /// the resolved project directory.
    pub fn command(&self, resolved_project_dir: &str) -> (r: SteamCommand)
        ensures
            r.program@ == push_path(resolved_project_dir@, "gradlew"@),
            string_views(r.arguments@) == string_views(self.arguments@),
            r.current_dir matches Some(d) && d@ == resolved_project_dir@,
    {
        let mut p = chars_of(resolved_project_dir);
        let w = chars_of("gradlew");
        crate::path::push_text(&mut p, &w);
        let program = string_of(&p);
        let c = SteamCommand::new(program.as_str());
        assert(string_views(c.arguments@) =~= Seq::<Seq<char>>::empty());
        c.args(copy_strings(&self.arguments)).current_dir(resolved_project_dir)
    }
}

} // verus!
