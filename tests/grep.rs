use project_man::git::CommandOutput;
use project_man::grep::{group_grep_output, ripgrep_match_count, select_search_tool, text_lines, GrepLine, SearchTool};

fn ok(stdout: &str) -> CommandOutput {
    CommandOutput { success: true, stdout: stdout.to_string(), stderr: String::new() }
}

#[test]
fn tool_choice_prefers_ripgrep() {
    assert_eq!(select_search_tool(true, true), Some(SearchTool::Ripgrep));
    assert_eq!(select_search_tool(false, true), Some(SearchTool::Grep));
    assert_eq!(select_search_tool(false, false), None);
}

#[test]
fn tool_invocations() {
    assert_eq!(SearchTool::Ripgrep.program(), "rg");
    assert_eq!(
        SearchTool::Grep.arguments("todo", "/ws/x"),
        vec!["-r", "-n", "--color=always", "-i", "todo", "/ws/x"]
    );
    assert_eq!(SearchTool::Ripgrep.arguments("p", "d").len(), 7);
}

#[test]
fn lines_follow_str_lines() {
    assert_eq!(text_lines("a\r\nb\n\nc"), vec!["a", "b", "", "c"]);
    assert_eq!(text_lines("a\n"), vec!["a"]);
    assert!(text_lines("").is_empty());
    assert_eq!(text_lines("x\r"), vec!["x\r"]);
}

#[test]
fn ripgrep_counts_match_lines() {
    let out = ok("/ws/x:\n1:fn main() {}\n3:fn other() {}\n\nsrc/lib.rs\n4:x\n");
    assert_eq!(ripgrep_match_count(&out, "/ws/x"), 4);
    assert_eq!(ripgrep_match_count(&CommandOutput { success: false, stdout: "1:a".to_string(), stderr: String::new() }, "/ws/x"), 0);
    assert_eq!(ripgrep_match_count(&ok(""), "/ws/x"), 0);
}

#[test]
fn grep_output_is_grouped_by_file() {
    let out = ok("/ws/x/src/a.rs:3:  let todo = 1;\n/ws/x/src/a.rs:9:// TODO\n/ws/x/b.txt:1:todo list\nBinary file matches\n/ws/x/c:odd\n");
    let (count, lines) = group_grep_output(&out, "/ws/x");
    assert_eq!(count, 5);
    assert_eq!(
        lines,
        vec![
            GrepLine::File("src/a.rs".to_string()),
            GrepLine::Hit { line_number: "3".to_string(), content: "let todo = 1;".to_string() },
            GrepLine::Hit { line_number: "9".to_string(), content: "// TODO".to_string() },
            GrepLine::File("b.txt".to_string()),
            GrepLine::Hit { line_number: "1".to_string(), content: "todo list".to_string() },
            GrepLine::File("c".to_string()),
        ]
    );
}

#[test]
fn grep_without_output_reports_nothing() {
    let (count, lines) = group_grep_output(&CommandOutput { success: false, stdout: String::new(), stderr: String::new() }, "/ws");
    assert_eq!(count, 0);
    assert!(lines.is_empty());
}
