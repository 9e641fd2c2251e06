use mcp_server::context::{default_permission_rules, workspace_root_from_roots, McpAgentContext};
use mcp_server::error::ErrorKind;
use mcp_server::path_resolver::{PathResolver, ResolveAction};
use mcp_server::permissions::{Access, Permissions, PermissionsGroup, PermissionsKind};

fn resolver() -> PathResolver {
    PathResolver::new("/ws", Some("/home/me".to_string())).unwrap()
}

fn workspace_rules() -> Permissions {
    let mut p = Permissions::new(resolver());
    p.register_fs_entry(PermissionsGroup::FsRead, PermissionsKind::Deny, "/ws/.git", "**").unwrap();
    p.register_fs_entry(PermissionsGroup::FsRead, PermissionsKind::Allow, "/ws", "**").unwrap();
    p.register_fs_entry(PermissionsGroup::FsWrite, PermissionsKind::Allow, "/ws/out.txt", "").unwrap();
    p
}

#[test]
fn split_keeps_wildcard_suffix() {
    assert_eq!(
        Permissions::split_on_first_wildcard("/ws/src/**/*.rs"),
        ("/ws/src".to_string(), "**/*.rs".to_string())
    );
    assert_eq!(Permissions::split_on_first_wildcard("./a/b"), ("./a/b".to_string(), "".to_string()));
    assert_eq!(Permissions::split_on_first_wildcard("a?/b"), ("".to_string(), "a?/b".to_string()));
    assert_eq!(Permissions::split_on_first_wildcard("/x/[ab]/c/"), ("/x".to_string(), "[ab]/c".to_string()));
}

#[test]
fn allow_rule_grants_matching_paths() {
    let p = workspace_rules();
    assert!(p.check(PermissionsGroup::FsRead, "/ws/src/main.rs").is_ok());
    assert!(p.check(PermissionsGroup::FsRead, "/ws/a/b/c").is_ok());
}

#[test]
fn deny_rule_wins_over_allow() {
    let p = workspace_rules();
    let e = p.check(PermissionsGroup::FsRead, "/ws/.git/config").unwrap_err();
    assert_eq!(e.access, Access::Denied);
    assert_eq!(e.path, "/ws/.git/config");
    assert_eq!(e.message(), "permission to file \"/ws/.git/config\" is denied");
}

#[test]
fn unmatched_path_is_not_granted() {
    let p = workspace_rules();
    let e = p.check(PermissionsGroup::FsRead, "/etc/passwd").unwrap_err();
    assert_eq!(e.access, Access::NotGranted);
    assert_eq!(e.message(), "permission to file \"/etc/passwd\" was not granted");
}

#[test]
fn literal_rule_matches_only_its_path() {
    let p = workspace_rules();
    assert!(p.check(PermissionsGroup::FsWrite, "/ws/out.txt").is_ok());
    assert_eq!(p.check(PermissionsGroup::FsWrite, "/ws/out.txt2").unwrap_err().access, Access::NotGranted);
    assert_eq!(p.check(PermissionsGroup::FsWrite, "/ws/src/a.rs").unwrap_err().access, Access::NotGranted);
}

#[test]
fn rules_of_other_group_do_not_count() {
    let p = workspace_rules();
    assert_eq!(p.check(PermissionsGroup::FsWrite, "/ws/.git/config").unwrap_err().access, Access::NotGranted);
}

#[test]
fn bad_pattern_is_refused_and_not_registered() {
    let mut p = Permissions::new(resolver());
    let r = p.register_fs_entry(PermissionsGroup::FsRead, PermissionsKind::Allow, "/ws", "[");
    assert!(r.is_err());
    assert!(!r.unwrap_err().is_empty());
    assert_eq!(p.check(PermissionsGroup::FsRead, "/ws/[").unwrap_err().access, Access::NotGranted);
}

#[test]
fn rule_pattern_is_prefix_pushed_with_suffix() {
    let mut p = Permissions::new(resolver());
    p.register_fs_entry(PermissionsGroup::FsRead, PermissionsKind::Allow, "/ws/", "*.md").unwrap();
    assert!(p.check(PermissionsGroup::FsRead, "/ws/README.md").is_ok());
    assert!(p.check(PermissionsGroup::FsRead, "/ws/docs/a.md").is_err());
}

#[test]
fn default_rules_deny_git_and_allow_workspace() {
    let rules = default_permission_rules();
    let described: Vec<(PermissionsGroup, PermissionsKind, &str)> =
        rules.iter().map(|r| (r.group, r.kind, r.path)).collect();
    assert_eq!(
        described,
        vec![
            (PermissionsGroup::FsRead, PermissionsKind::Deny, ".git/"),
            (PermissionsGroup::FsRead, PermissionsKind::Deny, ".git/**"),
            (PermissionsGroup::FsRead, PermissionsKind::Allow, "./"),
            (PermissionsGroup::FsRead, PermissionsKind::Allow, "./**"),
            (PermissionsGroup::FsRead, PermissionsKind::Allow, "/Users/matrixdev/.cargo/"),
            (PermissionsGroup::FsRead, PermissionsKind::Allow, "/Users/matrixdev/.cargo/**"),
            (PermissionsGroup::FsWrite, PermissionsKind::Deny, ".git/"),
            (PermissionsGroup::FsWrite, PermissionsKind::Deny, ".git/**"),
            (PermissionsGroup::FsWrite, PermissionsKind::Allow, "./"),
            (PermissionsGroup::FsWrite, PermissionsKind::Allow, "./**"),
        ]
    );
}

/// Resolves `path` as the server does when nothing on disk is a symbolic link.
fn resolve_plainly(r: &PathResolver, path: &str) -> String {
    let mut res = r.resolution(path);
    loop {
        match res.step() {
            ResolveAction::Done(p) => return p,
            ResolveAction::Continue => {}
            ResolveAction::Canonicalize(_) => res.feed(None),
        }
    }
}

fn default_permissions() -> Permissions {
    let mut p = Permissions::new(resolver());
    for rule in default_permission_rules() {
        let (prefix, suffix) = Permissions::split_on_first_wildcard(rule.path);
        let resolved = resolve_plainly(p.path_resolver(), &prefix);
        p.register_fs_entry(rule.group, rule.kind, &resolved, &suffix).unwrap();
    }
    p
}

#[test]
fn default_rules_confine_access_to_workspace() {
    let p = default_permissions();
    for group in [PermissionsGroup::FsRead, PermissionsGroup::FsWrite] {
        assert!(p.check(group, "/ws").is_ok());
        assert!(p.check(group, "/ws/src/main.rs").is_ok());
        assert!(p.check(group, "/ws/.gitignore").is_ok());
        assert_eq!(p.check(group, "/ws/.git").unwrap_err().access, Access::Denied);
        assert_eq!(p.check(group, "/ws/.git/config").unwrap_err().access, Access::Denied);
        assert_eq!(p.check(group, "/wsx/a").unwrap_err().access, Access::NotGranted);
        assert_eq!(p.check(group, "/etc/passwd").unwrap_err().access, Access::NotGranted);
    }
    assert!(p.check(PermissionsGroup::FsRead, "/Users/matrixdev/.cargo/registry/x.rs").is_ok());
    assert_eq!(
        p.check(PermissionsGroup::FsWrite, "/Users/matrixdev/.cargo/registry/x.rs").unwrap_err().access,
        Access::NotGranted
    );
}

#[test]
fn context_reports_refusals_as_invalid_requests() {
    let ctx = McpAgentContext::new(resolver(), workspace_rules());
    assert!(ctx.check_permissions(PermissionsGroup::FsRead, "/ws/lib.rs").is_ok());
    let e = ctx.check_permissions(PermissionsGroup::FsRead, "/ws/.git/HEAD").unwrap_err();
    assert_eq!(e.kind, ErrorKind::InvalidRequest);
    assert_eq!(e.message, "permissions denied: permission to file \"/ws/.git/HEAD\" is denied");
    let e = ctx.check_permissions(PermissionsGroup::FsWrite, "/tmp/x").unwrap_err();
    assert_eq!(e.message, "permissions denied: permission to file \"/tmp/x\" was not granted");
}

#[test]
fn context_setup_failures_are_internal() {
    let e = McpAgentContext::resolver_failure("no home");
    assert_eq!(e.kind, ErrorKind::Internal);
    assert_eq!(e.message, "failed to initialize path resolver: no home");
    let e = McpAgentContext::permissions_failure("bad rule");
    assert_eq!(e.kind, ErrorKind::Internal);
    assert_eq!(e.message, "failed to initialize permissions provider: bad rule");
}

#[test]
fn first_file_root_is_the_workspace() {
    let roots = vec![
        "https://example.com/repo".to_string(),
        "file:/bad".to_string(),
        "file:///home/me/project".to_string(),
        "file:///home/me/other".to_string(),
    ];
    assert_eq!(workspace_root_from_roots(&roots), Some("/home/me/project".to_string()));
    assert_eq!(workspace_root_from_roots(&vec!["git://x".to_string()]), None);
    assert_eq!(workspace_root_from_roots(&Vec::new()), None);
    assert_eq!(workspace_root_from_roots(&vec!["file://".to_string()]), Some(String::new()));
}

#[test]
fn refusal_messages_quote_paths_as_paths() {
    let p = workspace_rules();
    let e = p.check(PermissionsGroup::FsRead, "/ws/.git/it's").unwrap_err();
    assert_eq!(
        e.message(),
        format!("permission to file {:?} is denied", std::path::Path::new("/ws/.git/it's"))
    );
    let ctx = McpAgentContext::new(resolver(), workspace_rules());
    let e = ctx.check_permissions(PermissionsGroup::FsWrite, "/tmp/it's").unwrap_err();
    assert_eq!(
        e.message,
        format!("permissions denied: permission to file {:?} was not granted", std::path::Path::new("/tmp/it's"))
    );
}

#[test]
fn unclosed_bracket_rule_is_refused_and_changes_nothing() {
    let mut p = workspace_rules();
    let before: Vec<bool> = ["/ws/a", "/ws/.git/x", "/ws/[", "/etc/x"]
        .iter()
        .map(|path| p.check(PermissionsGroup::FsRead, path).is_ok())
        .collect();
    assert!(p.register_fs_entry(PermissionsGroup::FsRead, PermissionsKind::Allow, "/ws/[", "").is_err());
    let after: Vec<bool> = ["/ws/a", "/ws/.git/x", "/ws/[", "/etc/x"]
        .iter()
        .map(|path| p.check(PermissionsGroup::FsRead, path).is_ok())
        .collect();
    assert_eq!(before, after);
}
