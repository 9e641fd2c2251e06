use mcp_server::path::{components_of, render_string, strip_prefix_or_keep_exec, PathComponent};
use mcp_server::path_order::{path_lt_exec, sort_paths};
use mcp_server::path_resolver::{PathResolver, ResolveAction, ResolverError};

fn texts(cs: &[PathComponent]) -> Vec<String> {
    cs.iter()
        .map(|c| match c {
            PathComponent::RootDir => "/".to_string(),
            PathComponent::CurDir => ".".to_string(),
            PathComponent::ParentDir => "..".to_string(),
            PathComponent::Normal(n) => n.iter().collect(),
        })
        .collect()
}

fn resolver() -> PathResolver {
    PathResolver::new("/ws/project", Some("/home/me".to_string())).unwrap()
}

/// Runs a resolution where `canonical` answers each canonicalization.
fn resolve_with(r: &PathResolver, path: &str, canonical: &dyn Fn(&str) -> Option<String>) -> String {
    let mut res = r.resolution(path);
    loop {
        match res.step() {
            ResolveAction::Done(p) => return p,
            ResolveAction::Continue => {}
            ResolveAction::Canonicalize(c) => {
                let out = canonical(&c);
                res.feed(out.as_deref());
            }
        }
    }
}

#[test]
fn components_follow_std_path() {
    assert_eq!(texts(&components_of("/a//b/./c/")), vec!["/", "a", "b", "c"]);
    assert_eq!(texts(&components_of("./a/../b")), vec![".", "a", "..", "b"]);
    assert_eq!(texts(&components_of("a/./b")), vec!["a", "b"]);
    assert_eq!(texts(&components_of("")), Vec::<String>::new());
    assert_eq!(texts(&components_of(".")), vec!["."]);
    assert_eq!(texts(&components_of("/.")), vec!["/"]);
    assert_eq!(texts(&components_of("...")), vec!["..."]);
    for p in ["/a//b/./c/", "./a/../b", "a/./b", "", ".", "x/y/", "//z"] {
        let std_parts: Vec<String> = std::path::Path::new(p)
            .components()
            .map(|c| c.as_os_str().to_string_lossy().into_owned())
            .collect();
        assert_eq!(texts(&components_of(p)), std_parts, "{p}");
    }
}

#[test]
fn render_pushes_like_pathbuf() {
    assert_eq!(render_string(&components_of("/a//b/./c/")), "/a/b/c");
    assert_eq!(render_string(&components_of("./a/../b")), "./a/../b");
    assert_eq!(render_string(&components_of("/")), "/");
}

#[test]
fn make_absolute_joins_relative_paths_to_the_workspace() {
    let r = resolver();
    assert_eq!(render_string(&r.make_absolute("src/main.rs")), "/ws/project/src/main.rs");
    assert_eq!(render_string(&r.make_absolute("./src")), "/ws/project/src");
    assert_eq!(render_string(&r.make_absolute(".")), "/ws/project");
}

#[test]
fn make_absolute_expands_tilde_and_keeps_absolute_paths() {
    let r = resolver();
    assert_eq!(render_string(&r.make_absolute("~/.cargo/bin")), "/home/me/.cargo/bin");
    assert_eq!(render_string(&r.make_absolute("~")), "/home/me");
    assert_eq!(render_string(&r.make_absolute("/etc/hosts")), "/etc/hosts");
    assert_eq!(render_string(&r.make_absolute("~user/x")), "/ws/project/~user/x");
}

#[test]
fn resolver_needs_a_home_directory() {
    let e = PathResolver::new("/ws", None).unwrap_err();
    assert_eq!(e, ResolverError::HomeDirNotFound);
    assert_eq!(e.message(), "home directory not found");
}

#[test]
fn resolution_without_symlinks_is_lexical() {
    let r = resolver();
    let none = |_: &str| None;
    assert_eq!(resolve_with(&r, "src/../lib/./x.rs", &none), "/ws/project/lib/x.rs");
    assert_eq!(resolve_with(&r, "../../../../..", &none), "/");
    assert_eq!(resolve_with(&r, ".", &none), "/ws/project");
}

#[test]
fn resolution_follows_canonical_paths() {
    let r = resolver();
    // `/ws/project/link` is a symlink to `/data/real`
    let canon = |p: &str| {
        if p == "/ws/project/link" {
            Some("/data/real".to_string())
        } else if p.starts_with("/data/real") || p == "/ws" || p == "/ws/project" {
            Some(p.to_string())
        } else {
            None
        }
    };
    assert_eq!(resolve_with(&r, "link/file.txt", &canon), "/data/real/file.txt");
    assert_eq!(resolve_with(&r, "link/../other", &canon), "/data/other");
}

#[test]
fn resolution_asks_for_each_name_prefix() {
    let r = resolver();
    let mut res = r.resolution("/a/b");
    assert!(matches!(res.step(), ResolveAction::Continue));
    match res.step() {
        ResolveAction::Canonicalize(c) => assert_eq!(c, "/a"),
        other => panic!("unexpected {other:?}"),
    }
    res.feed(None);
    match res.step() {
        ResolveAction::Canonicalize(c) => assert_eq!(c, "/a/b"),
        other => panic!("unexpected {other:?}"),
    }
    res.feed(Some("/z"));
    match res.step() {
        ResolveAction::Done(p) => assert_eq!(p, "/z"),
        other => panic!("unexpected {other:?}"),
    }
}

#[test]
fn strip_prefix_by_components() {
    assert_eq!(strip_prefix_or_keep_exec("/ws/src/a.rs", "/ws"), "src/a.rs");
    assert_eq!(strip_prefix_or_keep_exec("/ws", "/ws"), "");
    assert_eq!(strip_prefix_or_keep_exec("/wsx/a", "/ws"), "/wsx/a");
    assert_eq!(strip_prefix_or_keep_exec("/other/a", "/ws"), "/other/a");
}

#[test]
fn path_order_compares_components() {
    assert!(path_lt_exec("/a/b", "/a-b"));
    assert!(!path_lt_exec("/a-b", "/a/b"));
    assert!(path_lt_exec("/a", "/a/b"));
    assert!(!path_lt_exec("/a/b", "/a/b"));
    for (a, b) in [("/a/b", "/a-b"), ("/a", "/a/b"), ("/b", "/a/c"), ("/x/y", "/x/y")] {
        let std_lt = std::path::Path::new(a) < std::path::Path::new(b);
        assert_eq!(path_lt_exec(a, b), std_lt, "{a} {b}");
    }
}

#[test]
fn sort_paths_orders_like_pathbuf() {
    let input = vec![
        "/w/src/z.rs".to_string(),
        "/w/a-b".to_string(),
        "/w/a/b".to_string(),
        "/w/src/a.rs".to_string(),
        "/w/a".to_string(),
    ];
    let mut expected: Vec<std::path::PathBuf> = input.iter().map(std::path::PathBuf::from).collect();
    expected.sort();
    let expected: Vec<String> = expected.iter().map(|p| p.to_string_lossy().into_owned()).collect();
    assert_eq!(sort_paths(input), expected);
    assert_eq!(sort_paths(Vec::new()), Vec::<String>::new());
}

#[test]
fn run_without_links_is_lexical() {
    let r = resolver();
    let none = |_: &str| None;
    assert_eq!(resolve_with(&r, "a/./b/../c", &none), "/ws/project/a/c");
    assert_eq!(resolve_with(&r, "../../../..", &none), "/");
    assert_eq!(resolve_with(&r, "~/x/..", &none), "/home/me");
    assert_eq!(resolve_with(&r, "/etc//hosts/", &none), "/etc/hosts");
    assert_eq!(resolve_with(&r, ".", &none), "/ws/project");
}
