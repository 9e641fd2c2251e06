use mcp_server::error::ErrorKind;
use mcp_server::tools::file_edit::FileEditTool as PlainEditTool;
use mcp_server::tools::file_read::FileReadTool as PlainReadTool;
use mcp_server::tools::fs::file_edit::FileEditTool;
use mcp_server::tools::fs::file_read::FileReadTool;

fn edit(start: usize, end: Option<usize>, text: &str, contents: &str) -> String {
    let tool = FileEditTool { path: "f".to_string(), start_line: start, end_line: end, new_text: text.to_string() };
    assert!(tool.lines_count().is_ok());
    tool.edited(contents)
}

fn read(offset: Option<usize>, limit: Option<usize>, contents: &str) -> String {
    FileReadTool { path: "f".to_string(), offset, limit }.numbered(contents)
}

#[test]
fn edit_replaces_a_line_range() {
    assert_eq!(edit(2, Some(3), "X", "a\nb\nc\n"), "a\nX\nc\n");
    assert_eq!(edit(1, Some(3), "", "a\nb\nc\n"), "c\n");
    assert_eq!(edit(2, Some(4), "Y\nZ\n", "a\nb\nc\nd\n"), "a\nY\nZ\nd\n");
}

#[test]
fn edit_without_end_inserts() {
    assert_eq!(edit(1, None, "top", "a\nb\nc\n"), "top\na\nb\nc\n");
    assert_eq!(edit(3, None, "mid\n", "a\nb\nc\n"), "a\nb\nmid\nc\n");
}

#[test]
fn edit_past_the_end_appends() {
    assert_eq!(edit(10, None, "z\n", "a\nb\nc\n"), "a\nb\nc\nz\n");
    assert_eq!(edit(4, Some(9), "z", "a\nb\nc\n"), "a\nb\nc\nz\n");
}

#[test]
fn edit_terminates_the_new_text() {
    assert_eq!(edit(2, Some(3), "B", "a\nb"), "a\nB\n");
    assert_eq!(edit(1, Some(1), "", "a\nb"), "a\nb");
}

#[test]
fn edit_of_empty_file() {
    assert_eq!(edit(1, None, "first", ""), "first\n");
    assert_eq!(edit(1, Some(5), "", ""), "");
}

#[test]
fn empty_insert_is_identity() {
    for k in 1..6 {
        assert_eq!(edit(k, None, "", "a\nb\r\nc"), "a\nb\r\nc");
    }
}

#[test]
fn rewriting_same_lines_is_identity() {
    assert_eq!(edit(2, Some(4), "b\nc\n", "a\nb\nc\nd\n"), "a\nb\nc\nd\n");
}

#[test]
fn end_before_start_is_refused() {
    let tool = FileEditTool { path: "f".to_string(), start_line: 3, end_line: Some(2), new_text: String::new() };
    let e = tool.lines_count().unwrap_err();
    assert_eq!(e.kind, ErrorKind::InvalidRequest);
    assert_eq!(e.message, "end_line (2) must not be less than start_line (3)");
    let ok = FileEditTool { path: "f".to_string(), start_line: 3, end_line: Some(7), new_text: String::new() };
    assert_eq!(ok.lines_count().unwrap(), 4);
}

#[test]
fn edit_messages() {
    assert_eq!(FileEditTool::updated("/ws/a.txt"), "updated /ws/a.txt");
    let e = FileEditTool::write_failed("/ws/a.txt", "disk full");
    assert_eq!(e.message, "failed to write a file: /ws/a.txt\ndisk full");
}

#[test]
fn read_numbers_every_line() {
    assert_eq!(read(None, None, "a\nb\nc"), "     1 a\n     2 b\n     3 c");
    assert_eq!(read(None, None, ""), "");
    assert_eq!(read(None, None, "x\n"), "     1 x\n");
}

#[test]
fn read_window_by_offset_and_limit() {
    assert_eq!(read(Some(2), Some(1), "a\nb\nc\n"), "     2 b\n");
    assert_eq!(read(Some(3), None, "a\nb\nc\n"), "     3 c\n");
    assert_eq!(read(Some(4), None, "a\nb\nc\n"), "");
    assert_eq!(read(Some(9), Some(2), "a\nb\nc\n"), "");
    assert_eq!(read(None, Some(usize::MAX), "a\nb\n"), "     1 a\n     2 b\n");
}

#[test]
fn read_keeps_carriage_returns() {
    assert_eq!(read(None, None, "a\r\nb"), "     1 a\r\n     2 b");
}

#[test]
fn read_number_column_grows_past_six_digits() {
    let contents: String = "x\n".repeat(1_000_001);
    let out = read(Some(999_999), Some(3), &contents);
    assert_eq!(out, "999999 x\n1000000 x\n1000001 x\n");
}

#[test]
fn split_read_is_whole_read() {
    let text = "one\ntwo\nthree\nfour";
    for k in 1..6 {
        let mut joined = read(None, Some(k), text);
        joined.push_str(&read(Some(k + 1), None, text));
        assert_eq!(joined, read(None, None, text));
    }
}

#[test]
fn plain_read_returns_unnumbered_lines() {
    let t = PlainReadTool { path: "f".to_string(), start_line: Some(1), line_count: Some(1) };
    assert_eq!(t.read("a\nb\nc\n"), "b\n");
    let all = PlainReadTool { path: "f".to_string(), start_line: None, line_count: None };
    assert_eq!(all.read("a\nb\nc"), "a\nb\nc");
    let past = PlainReadTool { path: "f".to_string(), start_line: Some(7), line_count: Some(2) };
    assert_eq!(past.read("a\nb\n"), "");
}

#[test]
fn plain_edit_counts_from_zero() {
    let t = PlainEditTool { path: "f".to_string(), start_line: 1, line_count: 1, new_text: "X".to_string() };
    assert_eq!(t.edited("a\nb\nc\n"), "a\nX\nc\n");
    let head = PlainEditTool { path: "f".to_string(), start_line: 0, line_count: 0, new_text: "hdr".to_string() };
    assert_eq!(head.edited("a\nb\n"), "hdr\na\nb\n");
    let rest = PlainEditTool { path: "f".to_string(), start_line: 1, line_count: usize::MAX, new_text: "X".to_string() };
    assert_eq!(rest.edited("a\nb\nc\n"), "a\nX\n");
}
