use vstd::prelude::*;

use crate::error::{ErrorKind, ToolError};
use crate::glob_pattern::{glob_pattern_check, glob_pattern_error, glob_pattern_match, glob_pattern_matches, has_glob_metachar};
use crate::path::{strip_prefix_or_keep, strip_prefix_or_keep_exec};
use crate::permissions::{access, Access, Permissions, PermissionsGroup};
use crate::text::{debug_quoted, debug_text, push_str, string_of};
use crate::tools::fs::grep::{join_lines, join_lines_exec, string_views};

verus! {

/// Most paths a glob search lists.
pub const MAX_RESULTS: usize = 1000;

/// The files of `files` whose path relative to `root` matches `pattern`, in order.
pub open spec fn retained(root: Seq<char>, files: Seq<Seq<char>>, pattern: Seq<char>) -> Seq<Seq<char>>
    decreases files.len(),
{
    if files.len() == 0 {
        Seq::empty()
    } else {
        let r = retained(root, files.drop_last(), pattern);
        if glob_pattern_matches(pattern, strip_prefix_or_keep(files.last(), root)) {
            r.push(files.last())
        } else {
            r
        }
    }
}

proof fn lemma_retained_filter(
    root: Seq<char>,
    files: Seq<Seq<char>>,
    pattern: Seq<char>,
    keep: spec_fn(Seq<char>) -> bool,
)
    requires
        forall|j: int|
            0 <= j < files.len() ==> (glob_pattern_matches(pattern, strip_prefix_or_keep(#[trigger] files[j], root))
                <==> keep(files[j])),
    ensures
        retained(root, files, pattern) == files.filter(keep),
    decreases files.len(),
{
    reveal(Seq::filter);
    if files.len() > 0 {
        let pre = files.drop_last();
        assert forall|j: int| 0 <= j < pre.len() implies (glob_pattern_matches(
            pattern,
            strip_prefix_or_keep(#[trigger] pre[j], root),
        ) <==> keep(pre[j])) by {
            assert(pre[j] == files[j]);
        }
        lemma_retained_filter(root, pre, pattern, keep);
        assert(files.last() == files[files.len() - 1]);
    }
}

/// A search keeps exactly the files whose path relative to the searched
/// directory, as it stands, matches the pattern, and keeps them in the order
/// walked: the result is the walked files filtered by that match.
pub proof fn lemma_retained_keeps_exactly_the_matches(root: Seq<char>, files: Seq<Seq<char>>, pattern: Seq<char>)
    ensures
        retained(root, files, pattern) == files.filter(
            |f: Seq<char>| glob_pattern_matches(pattern, strip_prefix_or_keep(f, root)),
        ),
{
    lemma_retained_filter(
        root,
        files,
        pattern,
        |f: Seq<char>| glob_pattern_matches(pattern, strip_prefix_or_keep(f, root)),
    );
}

/// The paths shown for the files found: each relative to `workspace` when below it.
pub open spec fn shown_paths(workspace: Seq<char>, files: Seq<Seq<char>>) -> Seq<Seq<char>> {
    files.map_values(|f: Seq<char>| strip_prefix_or_keep(f, workspace))
}

/// What a glob search answers: with no file, `no files match pattern` and the
/// quoted pattern; otherwise the first `MAX_RESULTS` shown paths one per line,
/// and a last line saying so when there were more.
pub open spec fn glob_output(workspace: Seq<char>, files: Seq<Seq<char>>, pattern: Seq<char>) -> Seq<char> {
    let shown = shown_paths(workspace, files);
    if shown.len() == 0 {
        "no files match pattern "@ + debug_text(pattern)
    } else if shown.len() > MAX_RESULTS {
        join_lines(shown.take(MAX_RESULTS as int)) + "\n... results truncated at 1000"@
    } else {
        join_lines(shown)
    }
}

/// Glob search arguments: a pattern matched against paths relative to the
/// searched directory, and that directory (the workspace when absent).
#[derive(Debug)]
pub struct GlobTool {
    pub pattern: String,
    pub path: Option<String>,
}

impl GlobTool {
    /// Keeps the walked `files` under `path` whose path relative to `path`
    /// matches `pattern` (all of them without a pattern). A pattern that does
    /// not compile is refused with `invalid pattern: ` and the compiler's message.
    pub fn collect(path: &str, files: Vec<String>, pattern: Option<&str>) -> (r: Result<Vec<String>, ToolError>)
        ensures
            pattern is None ==> (r matches Ok(v) && string_views(v@) == string_views(files@)),
            pattern is Some ==> (r is Ok <==> glob_pattern_error(pattern->0@) is None),
            pattern is Some && r is Ok ==> string_views(r->Ok_0@) == retained(
                path@,
                string_views(files@),
                pattern->0@,
            ),
            r matches Err(e) ==> e.kind == ErrorKind::InvalidRequest && e.message@ == "invalid pattern: "@
                + glob_pattern_error(pattern->0@)->0,
            pattern is Some && !has_glob_metachar(pattern->0@) ==> (r matches Ok(v) && string_views(v@)
                == string_views(files@).filter(|f: Seq<char>| strip_prefix_or_keep(f, path@) == pattern->0@)),
    {
        let p = match pattern {
            None => return Ok(files),
            Some(p) => p,
        };
        match glob_pattern_check(p) {
            Some(m) => {
                let mut out: Vec<char> = Vec::new();
                push_str(&mut out, "invalid pattern: ");
                push_str(&mut out, m.as_str());
                return Err(ToolError::invalid_request(string_of(&out)));
            },
            None => {},
        }
        let ghost fv = string_views(files@);
        let mut kept: Vec<String> = Vec::new();
        let mut i: usize = 0;
        while i < files.len()
            invariant
                i <= files@.len(),
                fv == string_views(files@),
                glob_pattern_error(p@) is None,
                string_views(kept@) == retained(path@, fv.take(i as int), p@),
                !has_glob_metachar(p@) ==> forall|j: int|
                    0 <= j < i ==> (glob_pattern_matches(p@, strip_prefix_or_keep(#[trigger] fv[j], path@))
                        <==> strip_prefix_or_keep(fv[j], path@) == p@),
            decreases files@.len() - i,
        {
            let f = files[i].as_str();
            let rel = strip_prefix_or_keep_exec(f, path);
            let ghost w = fv.take(i + 1);
            assert(w.drop_last() =~= fv.take(i as int));
            assert(w.last() == f@);
            if glob_pattern_match(p, rel.as_str()) {
                let ghost before = string_views(kept@);
                kept.push(String::from_str(f));
                assert(string_views(kept@) =~= before.push(f@));
            }
            i = i + 1;
        }
        assert(fv.take(files@.len() as int) =~= fv);
        proof {
            if !has_glob_metachar(p@) {
                lemma_retained_filter(path@, fv, p@, |f: Seq<char>| strip_prefix_or_keep(f, path@) == p@);
            }
        }
        Ok(kept)
    }

    /// The search answer for the files found, as `glob_output` states.
    pub fn render(&self, workspace: &str, files: &Vec<String>) -> (r: String)
        ensures
            r@ == glob_output(workspace@, string_views(files@), self.pattern@),
    {
        let ghost fv = string_views(files@);
        let ghost shown = shown_paths(workspace@, fv);
        let mut results: Vec<String> = Vec::new();
        let mut i: usize = 0;
        while i < files.len()
            invariant
                i <= files@.len(),
                fv == string_views(files@),
                shown == shown_paths(workspace@, fv),
                string_views(results@) == shown.take(i as int),
            decreases files@.len() - i,
        {
            let d = strip_prefix_or_keep_exec(files[i].as_str(), workspace);
            let ghost before = string_views(results@);
            results.push(d);
            assert(string_views(results@) =~= before.push(d@));
            assert(shown.take(i + 1) =~= shown.take(i as int).push(shown[i as int]));
            i = i + 1;
        }
        assert(shown.take(files@.len() as int) =~= shown);
        if results.len() == 0 {
            let mut m: Vec<char> = Vec::new();
            push_str(&mut m, "no files match pattern ");
            let q = debug_quoted(self.pattern.as_str());
            push_str(&mut m, q.as_str());
            return string_of(&m);
        }
        let truncated = results.len() > MAX_RESULTS;
        if truncated {
            results.truncate(MAX_RESULTS);
        }
        let mut out = join_lines_exec(&results);
        if truncated {
            push_str(&mut out, "\n... results truncated at 1000");
            assert(string_views(results@) =~= shown.take(MAX_RESULTS as int));
        }
        string_of(&out)
    }
}


/// Whether a directory entry is hidden: its name starts with `.` (such
/// entries are skipped by a walk).
pub fn is_hidden(name: &str) -> (r: bool)
    ensures
        r == (name@.len() > 0 && name@[0] == '.'),
{
    let v = crate::text::chars_of(name);
    v.len() > 0 && v[0] == '.'
}

/// Whether a walk takes a (resolved) path: anything the deny rules for
/// reading refuse is skipped.
pub fn admitted(permissions: &Permissions, path: &str) -> (r: bool)
    ensures
        r == (access(permissions.rules(), PermissionsGroup::FsRead, path@) != Access::Denied),
{
    match permissions.check(PermissionsGroup::FsRead, path) {
        Ok(()) => true,
        Err(e) => match e.access {
            Access::Denied => false,
            _ => true,
        },
    }
}

} // verus!
