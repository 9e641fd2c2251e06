use vstd::prelude::*;

use crate::helpers::steam_command::{copy_strings, SteamCommand};
use crate::text::{decimal, decimal_chars, push_all, push_str, string_of};
use crate::tools::fs::grep::string_views;

verus! {

/// `git diff` arguments: a directory inside the repository, how many commits
/// back the diff starts (0 when absent), and optional pathspecs.
#[derive(Debug)]
pub struct GitDiffTool {
    pub folder: String,
    pub commit_depth: Option<u32>,
    pub paths: Option<Vec<String>>,
}

/// The arguments `git` gets: `diff`, `HEAD~` and the depth, then `--` and
/// the pathspecs when there are some.
pub open spec fn diff_arguments(depth: nat, paths: Option<Seq<Seq<char>>>) -> Seq<Seq<char>> {
    let base = seq!["diff"@, "HEAD~"@ + decimal(depth)];
    match paths {
        Some(p) => if p.len() > 0 {
            base + seq!["--"@] + p
        } else {
            base
        },
        None => base,
    }
}

impl GitDiffTool {
    /// The command run: `git` with `diff_arguments`, in the resolved folder.
    pub fn command(&self, resolved_folder: &str) -> (r: SteamCommand)
        ensures
            r.program@ == "git"@,
            string_views(r.arguments@) == diff_arguments(
                match self.commit_depth {
                    Some(d) => d as nat,
                    None => 0,
                },
                match self.paths {
                    Some(p) => Some(string_views(p@)),
                    None => None,
                },
            ),
            r.current_dir matches Some(d) && d@ == resolved_folder@,
    {
        let depth: u32 = match self.commit_depth {
            Some(d) => d,
            None => 0,
        };
        let mut head: Vec<char> = Vec::new();
        push_str(&mut head, "HEAD~");
        let digits = decimal_chars(depth as u64);
        push_all(&mut head, &digits);
        let mut arguments = vec![String::from_str("diff"), string_of(&head)];
        assert(string_views(arguments@) =~= seq!["diff"@, "HEAD~"@ + decimal(depth as nat)]);
        match &self.paths {
            Some(p) => {
                if p.len() > 0 {
                    let ghost before = string_views(arguments@);
                    arguments.push(String::from_str("--"));
                    let mut more = copy_strings(p);
                    let ghost m = string_views(more@);
                    assert(string_views(arguments@) =~= before + seq!["--"@]);
                    arguments.append(&mut more);
                    assert(string_views(arguments@) =~= before + seq!["--"@] + m);
                }
            },
            None => {},
        }
        let c = SteamCommand::new("git");
        assert(string_views(c.arguments@) =~= Seq::<Seq<char>>::empty());
        let r = c.args(arguments).current_dir(resolved_folder);
        assert(Seq::<Seq<char>>::empty() + string_views(arguments@) =~= string_views(arguments@));
        r
    }
}

} // verus!
