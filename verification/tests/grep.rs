use mcp_server::path_resolver::PathResolver;
use mcp_server::permissions::{Permissions, PermissionsGroup, PermissionsKind};
use mcp_server::error::ErrorKind;
use mcp_server::tools::fs::grep::{join_lines_exec, GrepResults, GrepTool, MAX_RESULTS};

fn tool(query: &str) -> GrepTool {
    GrepTool { query: query.to_string(), path: None, file_glob: None, ignore_case: None }
}

#[test]
fn empty_query_is_refused() {
    let e = tool("").validate().unwrap_err();
    assert_eq!(e.kind, ErrorKind::InvalidRequest);
    assert_eq!(e.message, "query must not be empty");
    assert!(tool("fn").validate().is_ok());
}

#[test]
fn empty_query_compiles_to_nothing() {
    assert!(GrepTool::build_query_regex("", false).unwrap().is_none());
}

#[test]
fn bad_expression_names_query_and_reason() {
    let e = GrepTool::build_query_regex("(", false).unwrap_err();
    assert_eq!(e.kind, ErrorKind::InvalidRequest);
    assert!(e.message.starts_with("invalid regular expression \"(\": "));
    assert!(e.message.len() > "invalid regular expression \"(\": ".len());
}

#[test]
fn hits_are_numbered_and_trimmed() {
    let q = GrepTool::build_query_regex(r"fn\s+\w+", false).unwrap().unwrap();
    let mut r = GrepResults::new();
    r.collect_file_lines("src/a.rs", "use x;\nfn main() {   \n}\n  pub fn run()\t\n", &q);
    assert_eq!(r.results, vec!["src/a.rs:2:fn main() {", "src/a.rs:4:  pub fn run()"]);
    assert_eq!(r.render("fn"), "src/a.rs:2:fn main() {\nsrc/a.rs:4:  pub fn run()");
}

#[test]
fn case_is_ignored_only_when_asked() {
    let contents = "Hello\nhello\nHELLO\n";
    let exact = GrepTool::build_query_regex("hello", false).unwrap().unwrap();
    let mut r = GrepResults::new();
    r.collect_file_lines("f", contents, &exact);
    assert_eq!(r.results, vec!["f:2:hello"]);
    let loose = GrepTool::build_query_regex("hello", true).unwrap().unwrap();
    let mut r = GrepResults::new();
    r.collect_file_lines("f", contents, &loose);
    assert_eq!(r.results, vec!["f:1:Hello", "f:2:hello", "f:3:HELLO"]);
}

#[test]
fn crlf_lines_are_split_like_str_lines() {
    let q = GrepTool::build_query_regex("b$", false).unwrap().unwrap();
    let mut r = GrepResults::new();
    r.collect_file_lines("f", "a\r\nb\r\nc", &q);
    assert_eq!(r.results, vec!["f:2:b"]);
}

#[test]
fn no_matches_messages() {
    let r = GrepResults::new();
    assert_eq!(r.render("needle"), "no matches for \"needle\"");
    assert_eq!(r.render(""), "no matches");
    assert_eq!(r.render("say \"hi\""), "no matches for \"say \\\"hi\\\"\"");
}

#[test]
fn listing_files_without_query() {
    let mut r = GrepResults::new();
    r.push_file("a.rs".to_string());
    r.push_file("b.rs".to_string());
    assert_eq!(r.render(""), "a.rs\nb.rs");
    assert!(!r.is_full());
}

#[test]
fn results_stop_at_the_limit() {
    let q = GrepTool::build_query_regex("x", false).unwrap().unwrap();
    let contents = "x\n".repeat(1500);
    let mut r = GrepResults::new();
    r.collect_file_lines("f", &contents, &q);
    assert_eq!(r.results.len(), MAX_RESULTS);
    assert!(r.is_full());
    assert_eq!(r.results[999], "f:1000:x");
    let out = r.render("x");
    assert!(out.ends_with("f:1000:x\n... results truncated at 1000"));
    assert!(out.starts_with("f:1:x\nf:2:x\n"));
}

#[test]
fn join_lines_puts_newlines_between() {
    let items = vec!["a".to_string(), "".to_string(), "c".to_string()];
    assert_eq!(join_lines_exec(&items).iter().collect::<String>(), "a\n\nc");
    assert!(join_lines_exec(&Vec::new()).is_empty());
}

fn reading_rules() -> Permissions {
    let mut p = Permissions::new(PathResolver::new("/ws", Some("/h".to_string())).unwrap());
    p.register_fs_entry(PermissionsGroup::FsRead, PermissionsKind::Deny, "/ws/secret", "**").unwrap();
    p.register_fs_entry(PermissionsGroup::FsRead, PermissionsKind::Allow, "/ws", "**").unwrap();
    p
}

#[test]
fn each_file_is_taken_by_the_search() {
    let p = reading_rules();
    let q = GrepTool::build_query_regex("needle", false).unwrap().unwrap();
    let mut r = GrepResults::new();
    assert!(r.wants_contents(&p, "/ws/src/a.rs", true));
    assert!(!r.wants_contents(&p, "/ws/secret/key", true));
    assert!(!r.wants_contents(&p, "/ws/src/a.rs", false));
    r.take_file(&p, "/ws", "/ws/src/a.rs", Some(&q), Some("x\nneedle here\n"));
    r.take_file(&p, "/ws", "/ws/secret/key", Some(&q), Some("needle"));
    r.take_file(&p, "/ws", "/ws/src/b.rs", Some(&q), None);
    assert_eq!(r.results, vec!["src/a.rs:2:needle here"]);
}

#[test]
fn files_are_listed_without_a_query() {
    let p = reading_rules();
    let mut r = GrepResults::new();
    r.take_file(&p, "/ws", "/ws/src/a.rs", None, None);
    r.take_file(&p, "/ws", "/elsewhere/b.rs", None, None);
    assert_eq!(r.results, vec!["src/a.rs", "/elsewhere/b.rs"]);
}

#[test]
fn a_full_search_takes_no_more_files() {
    let p = reading_rules();
    let q = GrepTool::build_query_regex("x", false).unwrap().unwrap();
    let mut r = GrepResults::new();
    r.take_file(&p, "/ws", "/ws/a", Some(&q), Some(&"x\n".repeat(1200)));
    assert_eq!(r.results.len(), MAX_RESULTS);
    assert!(!r.wants_contents(&p, "/ws/b", true));
    r.take_file(&p, "/ws", "/ws/b", Some(&q), Some("x"));
    r.take_file(&p, "/ws", "/ws/c", None, None);
    assert_eq!(r.results.len(), MAX_RESULTS);
}
