use mcp_server::error::ErrorKind;
use mcp_server::path_resolver::PathResolver;
use mcp_server::permissions::{Permissions, PermissionsGroup, PermissionsKind};
use mcp_server::tools::directory_list::{DirectoryEntry, DirectoryListTool};
use mcp_server::tools::file_move::FileMoveTool as PlainFileMoveTool;
use mcp_server::tools::file_write::FileWriteTool as PlainFileWriteTool;
use mcp_server::tools::fs::directory_make::DirectoryMakeTool;
use mcp_server::tools::fs::file_move::FileMoveTool;
use mcp_server::tools::fs::file_write::FileWriteTool;
use mcp_server::tools::fs::glob::{admitted, is_hidden, GlobTool};
use mcp_server::tools::ieee1905_bench::Ieee1905BenchTool;
use mcp_server::tools::lights_info::LightsInfoTool;

fn strings(v: &[&str]) -> Vec<String> {
    v.iter().map(|s| s.to_string()).collect()
}

fn walked() -> Vec<String> {
    strings(&["/ws/src/main.rs", "/ws/src/a/b.rs", "/ws/Cargo.toml", "/ws/README.md"])
}

#[test]
fn collect_keeps_all_without_pattern() {
    assert_eq!(GlobTool::collect("/ws", walked(), None).unwrap(), walked());
}

#[test]
fn collect_matches_relative_to_search_dir() {
    assert_eq!(
        GlobTool::collect("/ws", walked(), Some("**/*.rs")).unwrap(),
        strings(&["/ws/src/main.rs", "/ws/src/a/b.rs"])
    );
    assert_eq!(GlobTool::collect("/ws", walked(), Some("*.toml")).unwrap(), strings(&["/ws/Cargo.toml"]));
    assert_eq!(GlobTool::collect("/ws/src", walked(), Some("*.rs")).unwrap(), strings(&["/ws/src/main.rs"]));
    assert!(GlobTool::collect("/ws", walked(), Some("*.py")).unwrap().is_empty());
}

#[test]
fn collect_refuses_bad_pattern() {
    let e = GlobTool::collect("/ws", walked(), Some("a[")).unwrap_err();
    assert_eq!(e.kind, ErrorKind::InvalidRequest);
    assert!(e.message.starts_with("invalid pattern: "));
    assert!(e.message.len() > "invalid pattern: ".len());
}

#[test]
fn render_shows_paths_below_workspace() {
    let t = GlobTool { pattern: "**/*.rs".to_string(), path: None };
    let files = strings(&["/ws/src/main.rs", "/elsewhere/x.rs"]);
    assert_eq!(t.render("/ws", &files), "src/main.rs\n/elsewhere/x.rs");
    assert_eq!(t.render("/ws", &Vec::new()), "no files match pattern \"**/*.rs\"");
}

#[test]
fn render_truncates_after_the_limit() {
    let t = GlobTool { pattern: "*".to_string(), path: None };
    let files: Vec<String> = (0..1001).map(|i| format!("/ws/f{i}")).collect();
    let out = t.render("/ws", &files);
    assert!(out.starts_with("f0\nf1\n"));
    assert!(out.ends_with("f999\n... results truncated at 1000"));
    assert!(!out.contains("f1000"));
    let exact: Vec<String> = (0..1000).map(|i| format!("/ws/f{i}")).collect();
    assert!(t.render("/ws", &exact).ends_with("\nf999"));
}

#[test]
fn hidden_entries() {
    assert!(is_hidden(".git"));
    assert!(is_hidden(".DS_Store"));
    assert!(!is_hidden("src"));
    assert!(!is_hidden(""));
}

#[test]
fn walk_skips_only_denied_paths() {
    let mut p = Permissions::new(PathResolver::new("/ws", Some("/h".to_string())).unwrap());
    p.register_fs_entry(PermissionsGroup::FsRead, PermissionsKind::Deny, "/ws/secret", "**").unwrap();
    p.register_fs_entry(PermissionsGroup::FsRead, PermissionsKind::Allow, "/ws", "**").unwrap();
    assert!(!admitted(&p, "/ws/secret/key"));
    assert!(admitted(&p, "/ws/src/a.rs"));
    assert!(admitted(&p, "/other/file"));
}

#[test]
fn directory_listing_marks_directories() {
    let entries = vec![
        DirectoryEntry { name: "src".to_string(), is_dir: true },
        DirectoryEntry { name: "Cargo.toml".to_string(), is_dir: false },
    ];
    assert_eq!(DirectoryListTool::render(&entries), "src/\nCargo.toml\n");
    assert_eq!(DirectoryListTool::render(&Vec::new()), "");
    assert_eq!(DirectoryListTool::read_failure("/ws/x").message, "failed to read a directory: /ws/x");
}

#[test]
fn move_messages_quote_paths() {
    assert_eq!(FileMoveTool::moved("/ws/a", "/ws/b c"), "moved \"/ws/a\" to \"/ws/b c\"");
    let e = FileMoveTool::failed("/ws/a", "/ws/b", "No such file");
    assert_eq!(e.kind, ErrorKind::InvalidRequest);
    assert_eq!(e.message, "failed to move \"/ws/a\" to \"/ws/b\": No such file");
    let plain = PlainFileMoveTool { source: "a".to_string(), destination: "b".to_string() };
    assert_eq!(plain.moved("/ws/a"), "moved /ws/a to b");
    assert_eq!(plain.failed("/ws/a").message, "failed to move /ws/a to b");
    assert_eq!(plain.missing_source().message, "failed to canonicalize path: a");
}

#[test]
fn write_messages_count_bytes() {
    let t = FileWriteTool { path: "n.txt".to_string(), contents: "héllo\n".to_string() };
    assert_eq!(t.written("/ws/n.txt"), "wrote 7 bytes to /ws/n.txt");
    assert_eq!(FileWriteTool::failed("/ws/n.txt").message, "failed to write a file: /ws/n.txt");
    let plain = PlainFileWriteTool { path: "n.txt".to_string(), contents: "".to_string() };
    assert_eq!(plain.written(), "wrote 0 bytes to n.txt");
    assert_eq!(plain.failed().message, "failed to write a file: n.txt");
}

#[test]
fn directory_make_messages() {
    let t = DirectoryMakeTool { path: "a/b".to_string() };
    assert_eq!(t.created(), "created directory a/b");
    let e = t.failed();
    assert_eq!(e.kind, ErrorKind::InvalidRequest);
    assert_eq!(e.message, "failed to create a directory: a/b");
}

#[test]
fn fixed_variants() {
    assert_eq!(LightsInfoTool {}.handle(), format!("{:?}", ["main light", "room light", "contour"]));
    let t = Ieee1905BenchTool {};
    let b = t.build_command();
    assert_eq!(b.program, "cargo");
    assert_eq!(b.current_dir.as_deref(), Some("/Users/matrixdev/Projects/gl/Comcast/ieee1905-rs/"));
    let r = t.bench_command();
    assert_eq!(r.program, "limactl");
    assert!(r.current_dir.is_none());
}

#[test]
fn move_messages_quote_paths_as_paths() {
    assert_eq!(
        FileMoveTool::moved("/ws/it's.txt", "/ws/b"),
        format!("moved {:?} to {:?}", std::path::Path::new("/ws/it's.txt"), std::path::Path::new("/ws/b"))
    );
    assert_eq!(
        FileMoveTool::failed("/ws/a\"b", "/ws/c'\n", "denied").message,
        format!("failed to move {:?} to {:?}: denied", std::path::Path::new("/ws/a\"b"), std::path::Path::new("/ws/c'\n"))
    );
}
