use coder_mcp::tools::edits::{
    find_all, insert_lines, make_snippet, newlines_before, str_replace, undo_message, EditOutcome,
};
use coder_mcp::tools::file_tools::{entry_line, list_directory, view_file, DirEntryInfo};
use coder_mcp::tools::tree::{
    parse_exclude, shown_count, shown_in_tree, tree_directory, tree_level, within_depth, TreeRow,
};

fn chars(s: &str) -> Vec<char> {
    s.chars().collect()
}

fn file(name: &str, content: &str) -> DirEntryInfo {
    DirEntryInfo { name: name.to_string(), is_dir: false, content: Some(content.to_string()) }
}

fn dir(name: &str) -> DirEntryInfo {
    DirEntryInfo { name: name.to_string(), is_dir: true, content: None }
}

fn edited(outcome: EditOutcome) -> (String, String) {
    match outcome {
        EditOutcome::Edited { new_content, message } => (new_content, message),
        EditOutcome::Refused(why) => panic!("refused: {}", why),
    }
}

fn refused(outcome: EditOutcome) -> String {
    match outcome {
        EditOutcome::Refused(why) => why,
        EditOutcome::Edited { new_content, .. } => panic!("edited: {}", new_content),
    }
}

#[test]
fn test_str_replace_basic() {
    let (content, message) = edited(str_replace("/w/test.txt", "hello world", "world", "rust"));
    assert_eq!(content, "hello rust");
    assert_eq!(
        message,
        "The file /w/test.txt has been edited.      1\thello rustReview the changes and make sure they are as expected."
    );
}

#[test]
fn test_str_replace_not_found() {
    let output = refused(str_replace("/w/test.txt", "hello world", "nonexistent", "replacement"));
    assert!(output.contains("Error"));
    assert!(output.contains("did not appear verbatim"));
    assert_eq!(
        output,
        "Error: No replacement was performed, old_str `nonexistent` did not appear verbatim in /w/test.txt."
    );
}

#[test]
fn test_str_replace_multiple_occurrences() {
    let output = refused(str_replace("/w/test.txt", "hello hello hello", "hello", "world"));
    assert!(output.contains("Error"));
    assert!(output.contains("Multiple occurrences"));
    assert_eq!(
        output,
        "Error: No replacement was performed. Multiple occurrences of old_str `hello` in lines [1, 1, 1]. Please provide more context to make the match unique."
    );
    let output = refused(str_replace("f", "a\nb a\n\na", "a", "x"));
    assert!(output.contains("in lines [1, 2, 4]."));
}

#[test]
fn test_str_replace_same_string() {
    let output = refused(str_replace("/w/test.txt", "hello world", "world", "world"));
    assert!(output.contains("Error"));
    assert!(output.contains("must be different"));
    assert_eq!(
        output,
        "Error: No replacement was performed. new_str and old_str must be different."
    );
    // The strings are compared before the file is looked at.
    assert!(refused(str_replace("f", "", "x", "x")).contains("must be different"));
}

#[test]
fn test_str_replace_multiline() {
    let (content, message) =
        edited(str_replace("t", "line1\nline2\nline3", "line2", "modified"));
    assert_eq!(content, "line1\nmodified\nline3");
    assert!(message.contains("     1\tline1\n     2\tmodified\n     3\tline3"));
}

#[test]
fn str_replace_shows_lines_around_the_edit() {
    let content: String = (1..=20).map(|i| format!("l{}\n", i)).collect();
    let (new_content, message) = edited(str_replace("f", &content, "l10\n", "a\nb\n"));
    assert!(new_content.contains("l9\na\nb\nl11\n"));
    let shown: Vec<String> = (7..=16)
        .map(|n| {
            let line = match n {
                10 => "a".to_string(),
                11 => "b".to_string(),
                n if n < 10 => format!("l{}", n),
                n => format!("l{}", n - 1),
            };
            format!("{:6}\t{}", n, line)
        })
        .collect();
    assert_eq!(
        message,
        format!(
            "The file f has been edited. {}Review the changes and make sure they are as expected.",
            shown.join("\n")
        )
    );
}

#[test]
fn str_replace_with_empty_strings() {
    // An empty string stands once in an empty file, and at every place of any other.
    assert_eq!(edited(str_replace("f", "", "", "new")).0, "new");
    assert!(refused(str_replace("f", "ab", "", "x")).contains("in lines [1, 1, 1]."));
    assert_eq!(edited(str_replace("f", "abc", "b", "")).0, "ac");
    // Occurrences do not overlap.
    assert_eq!(edited(str_replace("f", "aaa", "aa", "b")).0, "ba");
}

#[test]
fn occurrences_agree_with_std() {
    for (hay, needle) in [("aaaa", "aa"), ("abcabc", "bc"), ("", ""), ("ab", ""), ("ab", "abc"), ("é é", "é")] {
        let expected: Vec<usize> =
            hay.match_indices(needle).map(|(i, _)| hay[..i].chars().count()).collect();
        assert_eq!(find_all(&chars(hay), &chars(needle)), expected, "for {:?} in {:?}", needle, hay);
    }
    assert_eq!(newlines_before(&chars("a\nb\n\nc"), 6), 3);
    assert_eq!(newlines_before(&chars("a\nb\n\nc"), 1), 0);
    assert_eq!(newlines_before(&chars("a\nb\n\nc"), 2), 1);
}

#[test]
fn snippets() {
    let content = chars("a\nb\nc\nd");
    assert_eq!(make_snippet(&content, 0, 2), "     1\ta\n     2\tb");
    assert_eq!(make_snippet(&content, 2, 100), "     3\tc\n     4\td");
    assert_eq!(make_snippet(&content, 9, 100), "");
    assert_eq!(make_snippet(&content, 3, 1), "");
}

#[test]
fn test_insert_lines_basic() {
    let (content, message) = edited(insert_lines("t", "line1\nline2\nline3", 2, "inserted"));
    assert!(content.contains("inserted"));
    let lines: Vec<&str> = content.lines().collect();
    assert_eq!(lines[0], "line1");
    assert_eq!(lines[1], "inserted");
    assert_eq!(lines[2], "line2");
    assert_eq!(content, "line1\ninserted\nline2\nline3");
    assert_eq!(
        message,
        "The file t has been edited.      1\tline1\n     2\tinserted\n     3\tline2\n     4\tline3Review the changes and make sure they are as expected."
    );
}

#[test]
fn test_insert_lines_at_beginning() {
    let (content, _) = edited(insert_lines("t", "line1\nline2", 1, "first"));
    let lines: Vec<&str> = content.lines().collect();
    assert_eq!(lines[0], "first");
    assert_eq!(lines[1], "line1");
    assert_eq!(edited(insert_lines("t", "line1\nline2", 0, "first")).0, "first\nline1\nline2");
}

#[test]
fn test_insert_lines_at_end() {
    let (content, _) = edited(insert_lines("t", "line1\nline2", 3, "last"));
    let lines: Vec<&str> = content.lines().collect();
    assert_eq!(lines.last(), Some(&"last"));
    assert_eq!(content, "line1\nline2\nlast");
}

#[test]
fn test_insert_lines_invalid_line() {
    let output = refused(insert_lines("t", "line1\nline2", 100, "invalid"));
    assert!(output.contains("Error"));
    assert!(output.contains("insert_line"));
    assert_eq!(output, "Error: insert_line 100 should be within the range [0, 2]");
    assert!(matches!(insert_lines("t", "line1\nline2", 4, "x"), EditOutcome::Refused(_)));
    assert!(matches!(insert_lines("t", "", u64::MAX, "x"), EditOutcome::Refused(_)));
    assert_eq!(edited(insert_lines("t", "", 1, "x")).0, "x");
}

#[test]
fn insert_of_several_lines() {
    let content: String = (1..=12).map(|i| format!("l{}\n", i)).collect();
    let (new_content, message) = edited(insert_lines("f", &content, 6, "x\ny"));
    assert_eq!(new_content, "l1\nl2\nl3\nl4\nl5\nx\ny\nl6\nl7\nl8\nl9\nl10\nl11\nl12");
    assert!(message.contains("     3\tl3\n     4\tl4\n     5\tl5\n     6\tx\n     7\ty\n     8\tl6\n"));
    assert!(message.contains("    12\tl10Review"));
    assert!(!message.contains("     2\tl2"));
}

#[test]
fn undo_shows_restored_text() {
    assert_eq!(
        undo_message("/w/test.txt", "hello world"),
        "Last edit to /w/test.txt undone successfully.      1\thello world"
    );
    assert_eq!(undo_message("f", "a\nb"), "Last edit to f undone successfully.      1\ta\n     2\tb");
}

#[test]
fn test_view_file_basic() {
    let output = view_file("line1\nline2\nline3\nline4\nline5", None, None);
    assert!(output.contains("line1"));
    assert!(output.contains("line5"));
}

#[test]
fn test_view_file_with_range() {
    let output = view_file("line1\nline2\nline3\nline4\nline5", Some(2), Some(4));
    assert!(!output.contains("line1"));
    assert!(output.contains("line2"));
    assert!(output.contains("line4"));
    assert!(!output.contains("line5"));
}

#[test]
fn test_view_file_invalid_start_line() {
    let output = view_file("line1\nline2\nline3", Some(10), None);
    assert!(output.contains("Error"));
    assert!(output.contains("start_line"));
}

#[test]
fn test_view_file_invalid_range() {
    let output = view_file("line1\nline2\nline3", Some(3), Some(1));
    assert!(output.contains("Error"));
    assert!(output.contains("greater than or equal to"));
}

#[test]
fn test_list_directory_basic() {
    let entries = vec![file("file1.txt", "content1"), file("file2.txt", "content2"), dir("subdir")];
    let output = list_directory(&entries);
    assert!(output.contains("file1.txt"));
    assert!(output.contains("file2.txt"));
    assert!(output.contains("subdir/"));
}

#[test]
fn test_list_directory_empty() {
    assert_eq!(list_directory(&vec![]), "");
}

#[test]
fn test_list_directory_hidden_files_excluded() {
    let entries = vec![file("visible.txt", "content"), file(".hidden", "secret")];
    let output = list_directory(&entries);
    assert!(output.contains("visible.txt"));
    assert!(!output.contains(".hidden"));
}

#[test]
fn test_list_directory_with_line_counts() {
    let entries = vec![
        dir("subdir"),
        file("file2.txt", "hello"),
        file("file1.txt", "line1\nline2\nline3"),
    ];
    let output = list_directory(&entries);
    assert!(output.contains("file1.txt (3 lines)"));
    assert!(output.contains("file2.txt (1 line)"));
    assert!(output.contains("subdir/"));
    assert_eq!(output, "file1.txt (3 lines)\nfile2.txt (1 line)\nsubdir/");
}

#[test]
fn listing_lines() {
    assert_eq!(entry_line(&file("a", "")), "a (0 lines)");
    assert_eq!(entry_line(&file("a", "x\n")), "a (1 line)");
    assert_eq!(entry_line(&dir("d")), "d/");
    let unreadable = DirEntryInfo { name: "bin".to_string(), is_dir: false, content: None };
    assert_eq!(entry_line(&unreadable), "bin");
    let entries = vec![dir("b"), dir("B"), unreadable, file("é", "1\n2"), dir("a")];
    assert_eq!(list_directory(&entries), "B/\na/\nb/\nbin\né (2 lines)");
}

#[test]
fn tree_entries() {
    assert_eq!(parse_exclude(""), Vec::<String>::new());
    assert_eq!(parse_exclude("target, node_modules ,,  ,.git"), vec!["target", "node_modules", ".git"]);
    assert_eq!(parse_exclude(" a b ,"), vec!["a b"]);
    let exclude = parse_exclude("target,build");
    assert!(shown_in_tree("src", &exclude));
    assert!(!shown_in_tree("target", &exclude));
    assert!(!shown_in_tree(".git", &exclude));
    assert!(shown_in_tree("targets", &exclude));
    assert!(shown_in_tree("", &exclude));
    assert_eq!(shown_count(3, 10), (3, 0));
    assert_eq!(shown_count(12, 10), (10, 2));
    assert_eq!(shown_count(5, 0), (0, 5));
}

fn row(name: &str, line: &str, child_prefix: &str, more: Option<&str>) -> TreeRow {
    TreeRow {
        name: name.to_string(),
        line: line.to_string(),
        child_prefix: child_prefix.to_string(),
        more: more.map(str::to_string),
    }
}

#[test]
fn tree_rows_of_a_directory() {
    let names: Vec<String> = vec!["a".into(), "b".into(), "c".into()];
    let rows = tree_level("│   ", &names, 10);
    assert_eq!(
        rows,
        vec![
            row("a", "│   ├── a\n", "│   │   ", None),
            row("b", "│   ├── b\n", "│   │   ", None),
            row("c", "│   └── c\n", "│       ", None),
        ]
    );
    let rows = tree_level("", &names, 2);
    assert_eq!(
        rows,
        vec![
            row("a", "├── a\n", "│   ", None),
            row("b", "├── b\n", "│   ", Some("└── ... (1 more)\n")),
        ]
    );
    assert!(tree_level("", &names, 0).is_empty());
    assert!(tree_level("", &vec![], 3).is_empty());
}

#[test]
fn tree_directory_sorts_filters_and_stops_at_depth() {
    let names: Vec<String> =
        vec!["src".into(), ".git".into(), "b".into(), "target".into(), "a".into(), "Z".into()];
    let exclude = parse_exclude("target");
    let rows = tree_directory("", &names, &exclude, 10, 0, 3);
    assert_eq!(
        rows,
        vec![
            row("Z", "├── Z\n", "│   ", None),
            row("a", "├── a\n", "│   ", None),
            row("b", "├── b\n", "│   ", None),
            row("src", "└── src\n", "    ", None),
        ]
    );
    let rows = tree_directory("  ", &names, &exclude, 2, 2, 3);
    assert_eq!(
        rows,
        vec![
            row("Z", "  ├── Z\n", "  │   ", None),
            row("a", "  ├── a\n", "  │   ", Some("  └── ... (2 more)\n")),
        ]
    );
    // At the depth limit, and below it, nothing is shown.
    assert!(tree_directory("", &names, &exclude, 10, 3, 3).is_empty());
    assert!(tree_directory("", &names, &exclude, 10, 4, 3).is_empty());
    assert!(tree_directory("", &names, &exclude, 10, 0, 0).is_empty());
    assert!(within_depth(0, 1));
    assert!(!within_depth(1, 1));
    assert!(within_depth(5, usize::MAX));
}
