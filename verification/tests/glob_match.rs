use mcp_server::tools::glob::{glob_match, GlobTool};

fn matches(pattern: &str, path: &str) -> bool {
    glob_match(pattern.as_bytes(), path.as_bytes())
}

#[test]
fn single_star_stays_within_a_segment() {
    assert!(matches("*.rs", "main.rs"));
    assert!(!matches("*.rs", "src/main.rs"));
    assert!(matches("src/*.toml", "src/x.toml"));
    assert!(!matches("src/*.toml", "src/a/x.toml"));
}

#[test]
fn double_star_crosses_segments() {
    assert!(matches("**/*.rs", "main.rs"));
    assert!(matches("**/*.rs", "src/a/b.rs"));
    assert!(matches("src/**/*.rs", "src/b.rs"));
    assert!(matches("src/**/*.rs", "src/a/b.rs"));
    assert!(!matches("src/**/*.rs", "tests/a.rs"));
}

#[test]
fn question_mark_and_literals() {
    assert!(matches("?.rs", "a.rs"));
    assert!(!matches("?.rs", "ab.rs"));
    assert!(matches("Cargo.toml", "Cargo.toml"));
    assert!(!matches("Cargo.toml", "Cargo.lock"));
}

#[test]
fn double_star_alone_matches_everything() {
    assert!(matches("**", ""));
    assert!(matches("**", "a"));
    assert!(matches("**", "a/b/c.rs"));
    assert!(matches("**", "/"));
}

#[test]
fn single_star_alone_matches_one_segment() {
    assert!(matches("*", ""));
    assert!(matches("*", "main.rs"));
    assert!(!matches("*", "src/main.rs"));
    assert!(!matches("*", "/"));
}

#[test]
fn question_mark_alone_matches_one_byte_but_not_a_slash() {
    assert!(matches("?", "a"));
    assert!(!matches("?", ""));
    assert!(!matches("?", "ab"));
    assert!(!matches("?", "/"));
}

#[test]
fn recursive_prefix_matches_below_any_directory() {
    assert!(matches("**/main.rs", "main.rs"));
    assert!(matches("**/main.rs", "a/main.rs"));
    assert!(matches("**/main.rs", "a/b/c/main.rs"));
    assert!(!matches("**/main.rs", "a/b/c/lib.rs"));
}

#[test]
fn empty_pattern_matches_only_empty_path() {
    assert!(matches("", ""));
    assert!(!matches("", "a"));
}

#[test]
fn star_in_the_middle_and_trailing_text() {
    assert!(matches("a*c", "abbbc"));
    assert!(matches("a*c", "ac"));
    assert!(!matches("a*c", "ab/c"));
    assert!(!matches("a*c", "abcd"));
}

#[test]
fn collect_filters_relative_paths_with_own_matcher() {
    let files = vec![
        "/ws/src/main.rs".to_string(),
        "/ws/src/a/b.rs".to_string(),
        "/ws/Cargo.toml".to_string(),
    ];
    let kept = GlobTool::collect("/ws", files.clone(), Some("src/*.rs"));
    assert_eq!(kept, vec!["/ws/src/main.rs".to_string()]);
    let all = GlobTool::collect("/ws", files.clone(), None);
    assert_eq!(all, files);
    let deep = GlobTool::collect("/ws", files, Some("**/*.rs"));
    assert_eq!(deep, vec!["/ws/src/main.rs".to_string(), "/ws/src/a/b.rs".to_string()]);
}
