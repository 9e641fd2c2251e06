use vstd::prelude::*;

use crate::error::{ErrorKind, ToolError};
use crate::path_resolver::PathResolver;
use crate::glob_pattern::{has_glob_metachar, has_prefix, is_subtree_pattern, subtree_base};
use crate::permissions::{access, any_rule_matches, pattern_matches, Access, Permissions, PermissionsGroup, PermissionsKind, Rule};
use crate::text::{chars_of, path_debug_text, push_str, string_of};
use crate::tools::fs::grep::string_views;

verus! {

/// The request header a client names its workspace root in.
pub const HEADER_WORKSPACE_ROOT: &'static str = "x-mcp-workspace-root";

/// A default permission rule: a group, a kind, and the path it covers
/// (resolved against the workspace, wildcards allowed).
#[derive(Debug)]
pub struct PermissionRule {
    pub group: PermissionsGroup,
    pub kind: PermissionsKind,
    pub path: &'static str,
}

/// The rules every workspace starts with: `.git` and everything in it may be
/// neither read nor written; the workspace and everything in it may be read
/// and written; the cargo home and everything in it may be read.
pub open spec fn default_rules() -> Seq<(PermissionsGroup, PermissionsKind, Seq<char>)> {
    seq![
        (PermissionsGroup::FsRead, PermissionsKind::Deny, ".git/"@),
        (PermissionsGroup::FsRead, PermissionsKind::Deny, ".git/**"@),
        (PermissionsGroup::FsRead, PermissionsKind::Allow, "./"@),
        (PermissionsGroup::FsRead, PermissionsKind::Allow, "./**"@),
        (PermissionsGroup::FsRead, PermissionsKind::Allow, "/Users/matrixdev/.cargo/"@),
        (PermissionsGroup::FsRead, PermissionsKind::Allow, "/Users/matrixdev/.cargo/**"@),
        (PermissionsGroup::FsWrite, PermissionsKind::Deny, ".git/"@),
        (PermissionsGroup::FsWrite, PermissionsKind::Deny, ".git/**"@),
        (PermissionsGroup::FsWrite, PermissionsKind::Allow, "./"@),
        (PermissionsGroup::FsWrite, PermissionsKind::Allow, "./**"@),
    ]
}

/// The views of permission rules.
pub open spec fn rule_views(v: Seq<PermissionRule>) -> Seq<(PermissionsGroup, PermissionsKind, Seq<char>)> {
    v.map_values(|r: PermissionRule| (r.group, r.kind, r.path@))
}

/// The default rules, as `default_rules` states, in registration order.
pub fn default_permission_rules() -> (r: Vec<PermissionRule>)
    ensures
        rule_views(r@) == default_rules(),
{
    let r = vec![
        PermissionRule { group: PermissionsGroup::FsRead, kind: PermissionsKind::Deny, path: ".git/" },
        PermissionRule { group: PermissionsGroup::FsRead, kind: PermissionsKind::Deny, path: ".git/**" },
        PermissionRule { group: PermissionsGroup::FsRead, kind: PermissionsKind::Allow, path: "./" },
        PermissionRule { group: PermissionsGroup::FsRead, kind: PermissionsKind::Allow, path: "./**" },
        PermissionRule {
            group: PermissionsGroup::FsRead,
            kind: PermissionsKind::Allow,
            path: "/Users/matrixdev/.cargo/",
        },
        PermissionRule {
            group: PermissionsGroup::FsRead,
            kind: PermissionsKind::Allow,
            path: "/Users/matrixdev/.cargo/**",
        },
        PermissionRule { group: PermissionsGroup::FsWrite, kind: PermissionsKind::Deny, path: ".git/" },
        PermissionRule { group: PermissionsGroup::FsWrite, kind: PermissionsKind::Deny, path: ".git/**" },
        PermissionRule { group: PermissionsGroup::FsWrite, kind: PermissionsKind::Allow, path: "./" },
        PermissionRule { group: PermissionsGroup::FsWrite, kind: PermissionsKind::Allow, path: "./**" },
    ];
    assert(rule_views(r@) =~= default_rules());
    r
}

/// `p` is the directory `dir` itself or lies below it.
pub open spec fn within(p: Seq<char>, dir: Seq<char>) -> bool {
    p == dir || has_prefix(p, dir.push('/'))
}

/// The rules the default rules register when their paths resolve plainly:
/// `.` to the workspace `ws`, `.git` to `ws/.git`, the cargo home to `cargo`.
pub open spec fn resolved_default_rules(ws: Seq<char>, cargo: Seq<char>) -> Seq<Rule> {
    let git = ws + "/.git"@;
    seq![
        (PermissionsGroup::FsRead, PermissionsKind::Deny, git),
        (PermissionsGroup::FsRead, PermissionsKind::Deny, git + "/**"@),
        (PermissionsGroup::FsRead, PermissionsKind::Allow, ws),
        (PermissionsGroup::FsRead, PermissionsKind::Allow, ws + "/**"@),
        (PermissionsGroup::FsRead, PermissionsKind::Allow, cargo),
        (PermissionsGroup::FsRead, PermissionsKind::Allow, cargo + "/**"@),
        (PermissionsGroup::FsWrite, PermissionsKind::Deny, git),
        (PermissionsGroup::FsWrite, PermissionsKind::Deny, git + "/**"@),
        (PermissionsGroup::FsWrite, PermissionsKind::Allow, ws),
        (PermissionsGroup::FsWrite, PermissionsKind::Allow, ws + "/**"@),
    ]
}

/// A directory path the default rules are resolved against: not empty, not
/// ending with `/`, and free of `*`, `?` and `[`.
pub open spec fn plain_dir(d: Seq<char>) -> bool {
    d.len() > 0 && d.last() != '/' && !has_glob_metachar(d)
}

/// How a path fares against a rule `dir` or `dir/**` of a plain directory: it
/// matches the first exactly when it is `dir`, the second exactly when it lies below.
proof fn lemma_dir_rules(dir: Seq<char>, p: Seq<char>)
    requires
        plain_dir(dir),
    ensures
        pattern_matches(dir, p) <==> p == dir,
        pattern_matches(dir + "/**"@, p) <==> has_prefix(p, dir.push('/')),
        pattern_matches(dir, p) || pattern_matches(dir + "/**"@, p) <==> within(p, dir),
{
    reveal_strlit("/**");
    let t = dir + "/**"@;
    assert(t.len() == dir.len() + 3);
    assert(t[t.len() - 1] == '*');
    assert(t[t.len() - 2] == '*');
    assert(t[t.len() - 3] == '/');
    assert(t.take(t.len() - 2) =~= dir.push('/'));
    assert(!has_glob_metachar(dir.push('/'))) by {
        if has_glob_metachar(dir.push('/')) {
            let i = choose|i: int|
                0 <= i < dir.push('/').len() && (dir.push('/')[i] == '*' || dir.push('/')[i] == '?' || dir.push(
                    '/',
                )[i] == '[');
            assert(i < dir.len());
            assert(dir[i] == dir.push('/')[i]);
        }
    }
    assert(is_subtree_pattern(t));
    assert(has_glob_metachar(t)) by {
        assert(t[t.len() - 1] == '*');
    }
    assert(subtree_base(t) =~= dir.push('/'));
}

/// What lies within `ws/.git` lies within `ws`.
proof fn lemma_git_within_workspace(ws: Seq<char>, p: Seq<char>)
    requires
        within(p, ws + "/.git"@),
    ensures
        within(p, ws),
{
    reveal_strlit("/.git");
    let g = ws + "/.git"@;
    assert(has_prefix(g, ws.push('/'))) by {
        assert(g.take(ws.len() as int + 1) =~= ws.push('/'));
    }
    if p == g {
    } else {
        assert(p.take(g.len() as int + 1) == g.push('/'));
        assert(p.take(ws.len() as int + 1) =~= g.push('/').take(ws.len() as int + 1));
        assert(g.push('/').take(ws.len() as int + 1) =~= ws.push('/'));
    }
}

/// The default rules confine access to the workspace: `.git` and everything
/// in it are refused for reading and writing; everything else in the workspace
/// may be read and written; nothing outside the workspace may be written, and
/// nothing outside the workspace and the cargo home may be read; what lies in
/// the cargo home (outside `.git`) may be read.
pub proof fn lemma_default_rules_confine_to_workspace(ws: Seq<char>, cargo: Seq<char>, p: Seq<char>)
    requires
        plain_dir(ws),
        plain_dir(cargo),
    ensures
        within(p, ws + "/.git"@) ==> access(resolved_default_rules(ws, cargo), PermissionsGroup::FsRead, p)
            == Access::Denied && access(resolved_default_rules(ws, cargo), PermissionsGroup::FsWrite, p)
            == Access::Denied,
        within(p, ws) && !within(p, ws + "/.git"@) ==> access(
            resolved_default_rules(ws, cargo),
            PermissionsGroup::FsRead,
            p,
        ) == Access::Granted && access(resolved_default_rules(ws, cargo), PermissionsGroup::FsWrite, p)
            == Access::Granted,
        !within(p, ws) ==> access(resolved_default_rules(ws, cargo), PermissionsGroup::FsWrite, p)
            == Access::NotGranted,
        !within(p, ws) && !within(p, cargo) ==> access(
            resolved_default_rules(ws, cargo),
            PermissionsGroup::FsRead,
            p,
        ) == Access::NotGranted,
        within(p, cargo) && !within(p, ws + "/.git"@) ==> access(
            resolved_default_rules(ws, cargo),
            PermissionsGroup::FsRead,
            p,
        ) == Access::Granted,
{
    reveal_strlit("/.git");
    let git = ws + "/.git"@;
    let r = resolved_default_rules(ws, cargo);
    assert(plain_dir(git)) by {
        assert(git.last() == 't');
        if has_glob_metachar(git) {
            let i = choose|i: int| 0 <= i < git.len() && (git[i] == '*' || git[i] == '?' || git[i] == '[');
            if i < ws.len() {
                assert(git[i] == ws[i]);
            }
        }
    }
    lemma_dir_rules(ws, p);
    lemma_dir_rules(cargo, p);
    lemma_dir_rules(git, p);
    if within(p, git) {
        lemma_git_within_workspace(ws, p);
    }
    let read = PermissionsGroup::FsRead;
    let write = PermissionsGroup::FsWrite;
    let deny = PermissionsKind::Deny;
    let allow = PermissionsKind::Allow;
    assert(r[0] == (read, deny, git) && r[1] == (read, deny, git + "/**"@));
    assert(r[2] == (read, allow, ws) && r[3] == (read, allow, ws + "/**"@));
    assert(r[4] == (read, allow, cargo) && r[5] == (read, allow, cargo + "/**"@));
    assert(r[6] == (write, deny, git) && r[7] == (write, deny, git + "/**"@));
    assert(r[8] == (write, allow, ws) && r[9] == (write, allow, ws + "/**"@));
    assert(any_rule_matches(r, read, deny, p) <==> within(p, git)) by {
        if within(p, git) {
            if pattern_matches(r[0].2, p) {
            } else {
                assert(pattern_matches(r[1].2, p));
            }
        }
    }
    assert(any_rule_matches(r, write, deny, p) <==> within(p, git)) by {
        if within(p, git) {
            if pattern_matches(r[6].2, p) {
            } else {
                assert(pattern_matches(r[7].2, p));
            }
        }
    }
    assert(any_rule_matches(r, read, allow, p) <==> within(p, ws) || within(p, cargo)) by {
        if within(p, ws) {
            if pattern_matches(r[2].2, p) {
            } else {
                assert(pattern_matches(r[3].2, p));
            }
        } else if within(p, cargo) {
            if pattern_matches(r[4].2, p) {
            } else {
                assert(pattern_matches(r[5].2, p));
            }
        }
    }
    assert(any_rule_matches(r, write, allow, p) <==> within(p, ws)) by {
        if within(p, ws) {
            if pattern_matches(r[8].2, p) {
            } else {
                assert(pattern_matches(r[9].2, p));
            }
        }
    }
}

/// What every tool works with: the resolver of the client's workspace and
/// the permission rules registered for it.
#[derive(Debug)]
pub struct McpAgentContext {
    pub path_resolver: PathResolver,
    pub permissions: Permissions,
}

impl McpAgentContext {
    pub fn new(path_resolver: PathResolver, permissions: Permissions) -> (r: McpAgentContext)
        ensures
            r.path_resolver == path_resolver,
            r.permissions == permissions,
    {
        McpAgentContext { path_resolver, permissions }
    }

    /// Checks an access to an already resolved path; a refusal becomes an
    /// invalid-request error `permissions denied: ` followed by its message.
    pub fn check_permissions(&self, group: PermissionsGroup, resolved_path: &str) -> (r: Result<(), ToolError>)
        ensures
            r is Ok <==> access(self.permissions.rules(), group, resolved_path@) == Access::Granted,
            r matches Err(e) ==> e.kind == ErrorKind::InvalidRequest && e.message@ == "permissions denied: "@
                + "permission to file "@ + path_debug_text(resolved_path@) + if access(
                self.permissions.rules(),
                group,
                resolved_path@,
            ) == Access::Denied {
                " is denied"@
            } else {
                " was not granted"@
            },
    {
        match self.permissions.check(group, resolved_path) {
            Ok(()) => Ok(()),
            Err(e) => {
                let mut out: Vec<char> = Vec::new();
                push_str(&mut out, "permissions denied: ");
                let m = e.message();
                push_str(&mut out, m.as_str());
                Err(ToolError::invalid_request(string_of(&out)))
            },
        }
    }

    /// The error when the resolver could not be set up.
    pub fn resolver_failure(reason: &str) -> (r: ToolError)
        ensures
            r.kind == ErrorKind::Internal,
            r.message@ == "failed to initialize path resolver: "@ + reason@,
    {
        let mut out: Vec<char> = Vec::new();
        push_str(&mut out, "failed to initialize path resolver: ");
        push_str(&mut out, reason);
        ToolError::internal(string_of(&out))
    }

    /// The error when the permission rules could not be set up.
    pub fn permissions_failure(reason: &str) -> (r: ToolError)
        ensures
            r.kind == ErrorKind::Internal,
            r.message@ == "failed to initialize permissions provider: "@ + reason@,
    {
        let mut out: Vec<char> = Vec::new();
        push_str(&mut out, "failed to initialize permissions provider: ");
        push_str(&mut out, reason);
        ToolError::internal(string_of(&out))
    }
}

/// The path a `file://` root URI names (the text after the scheme), or none
/// for a root of another scheme.
pub open spec fn file_root_path(uri: Seq<char>) -> Option<Seq<char>> {
    if uri.len() >= 7 && uri.take(7) == "file://"@ {
        Some(uri.skip(7))
    } else {
        None
    }
}

/// The path of the first `file://` root among the roots a client advertises.
pub open spec fn first_file_root(uris: Seq<Seq<char>>) -> Option<Seq<char>>
    decreases uris.len(),
{
    if uris.len() == 0 {
        None
    } else {
        match file_root_path(uris[0]) {
            Some(p) => Some(p),
            None => first_file_root(uris.drop_first()),
        }
    }
}

proof fn lemma_first_file_root_skip(uris: Seq<Seq<char>>, i: int)
    requires
        0 <= i < uris.len(),
        file_root_path(uris[i]) is None,
    ensures
        first_file_root(uris.skip(i)) == first_file_root(uris.skip(i + 1)),
{
    let s = uris.skip(i);
    assert(s[0] == uris[i]);
    assert(s.drop_first() =~= uris.skip(i + 1));
}

/// The workspace root taken from a client's advertised roots when its request
/// named none: the path of the first `file://` root, as `first_file_root` states.
pub fn workspace_root_from_roots(uris: &Vec<String>) -> (r: Option<String>)
    ensures
        match r {
            Some(p) => first_file_root(string_views(uris@)) == Some(p@),
            None => first_file_root(string_views(uris@)) is None,
        },
{
    let ghost u = string_views(uris@);
    proof {
        reveal_strlit("file://");
        assert(u.skip(0) =~= u);
    }
    let mut i: usize = 0;
    while i < uris.len()
        invariant
            i <= uris@.len(),
            u == string_views(uris@),
            first_file_root(u) == first_file_root(u.skip(i as int)),
        decreases uris@.len() - i,
    {
        let c = chars_of(uris[i].as_str());
        let ghost ui = u[i as int];
        assert(c@ == ui);
        let scheme = chars_of("file://");
        proof {
            reveal_strlit("file://");
        }
        assert(scheme@.len() == 7);
        let mut is_file = c.len() >= 7;
        let mut k: usize = 0;
        while is_file && k < 7
            invariant
                k <= 7,
                scheme@ == "file://"@,
                scheme@.len() == 7,
                c@ == ui,
                is_file ==> c@.len() >= 7 && forall|j: int| 0 <= j < k ==> c@[j] == scheme@[j],
                !is_file ==> file_root_path(ui) is None,
            decreases 7 - k, (if is_file { 1int } else { 0int }),
        {
            if c[k] != scheme[k] {
                is_file = false;
                assert(ui.take(7)[k as int] != "file://"@[k as int]);
            } else {
                k = k + 1;
            }
        }
        if is_file {
            assert(c@.take(7) =~= scheme@);
            let mut rest: Vec<char> = Vec::new();
            let mut j: usize = 7;
            while j < c.len()
                invariant
                    7 <= j <= c@.len(),
                    rest@ == c@.subrange(7, j as int),
                decreases c@.len() - j,
            {
                rest.push(c[j]);
                j = j + 1;
            }
            assert(rest@ =~= ui.skip(7));
            let ghost s = u.skip(i as int);
            assert(s[0] == ui);
            return Some(string_of(&rest));
        }
        proof {
            lemma_first_file_root_skip(u, i as int);
        }
        i = i + 1;
    }
    assert(u.skip(uris@.len() as int) =~= Seq::<Seq<char>>::empty());
    None
}

} // verus!
