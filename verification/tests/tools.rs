use coder_mcp::decimal::{parse_i32_range, push_decimal, push_digits};
use coder_mcp::models::{BashEvent, BashEventPage, BashOutput, Timestamp};
use coder_mcp::service::{
    bash_poll, bash_request, format_bash_result, BashArgs, BashPoll, BASH_MAX_POLLS,
    BASH_POLL_INTERVAL_MS,
};
use coder_mcp::text::{chars_of, find, find_from, rfind, string_of, trim_end_len, whitespace};
use coder_mcp::tools::file_tools::{make_output, view_file};
use coder_mcp::tools::utils::{make_numbered_output, split_lines};

fn chars(s: &str) -> Vec<char> {
    s.chars().collect()
}

fn lines(s: &str) -> Vec<String> {
    split_lines(&chars(s)).iter().map(|l| l.iter().collect()).collect()
}

fn output(stdout: Option<&str>, stderr: Option<&str>, exit_code: Option<i32>) -> BashOutput {
    BashOutput {
        id: 2,
        timestamp: Timestamp { secs: 0, nanos: 0 },
        command_id: 1,
        order: 0,
        exit_code,
        stdout: stdout.map(str::to_string),
        stderr: stderr.map(str::to_string),
    }
}

#[test]
fn numbered_output_formats_lines() {
    assert_eq!(make_numbered_output("", 1), "");
    assert_eq!(make_numbered_output("a", 1), "     1\ta");
    assert_eq!(make_numbered_output("a\nb\n", 9), "     9\ta\n    10\tb");
    assert_eq!(make_numbered_output("a\r\n\nb", 0), "     0\ta\n     1\t\n     2\tb");
    assert_eq!(make_numbered_output("x", 999999), "999999\tx");
    assert_eq!(make_numbered_output("x\ny", 999999), "999999\tx\n1000000\ty");
    assert_eq!(make_numbered_output("x", usize::MAX), format!("{}\tx", usize::MAX));
    assert_eq!(make_output("a\nb", "a snippet", 3), "     3\ta\n     4\tb");
}

#[test]
fn numbered_output_agrees_with_std() {
    for content in ["", "\n", "a\n\n", "a\rb\r\n", "tab\there\n  spaces  ", "a\r", "\r\n\r\n", "é\nü"] {
        for start in [0usize, 1, 7, 123456, 7654321] {
            let expected = content
                .lines()
                .enumerate()
                .map(|(i, line)| format!("{:6}\t{}", i + start, line))
                .collect::<Vec<String>>()
                .join("\n");
            assert_eq!(make_numbered_output(content, start), expected);
        }
    }
}

#[test]
fn lines_are_split_as_std_does() {
    for content in ["", "a", "a\n", "a\nb", "a\n\nb\n", "\n", "\n\n", "a\r\nb\r\n", "a\r", "a\r\r\n", "\r", "\r\n"] {
        let expected: Vec<String> = content.lines().map(str::to_string).collect();
        assert_eq!(lines(content), expected, "for {:?}", content);
    }
    assert_eq!(lines("foo\nbar\n\r\nbaz\r"), vec!["foo", "bar", "", "baz\r"]);
}

#[test]
fn view_file_ranges() {
    let content = "line1\nline2\nline3\nline4\nline5";
    assert_eq!(
        view_file(content, None, None),
        "     1\tline1\n     2\tline2\n     3\tline3\n     4\tline4\n     5\tline5"
    );
    assert_eq!(
        view_file(content, Some(2), Some(4)),
        "     2\tline2\n     3\tline3\n     4\tline4"
    );
    assert_eq!(view_file(content, Some(4), None), "     4\tline4\n     5\tline5");
    assert_eq!(view_file(content, None, Some(2)), "     1\tline1\n     2\tline2");
    assert_eq!(view_file(content, Some(5), Some(100)), "     5\tline5");
    assert_eq!(view_file(content, None, Some(0)), "");
    assert_eq!(view_file("", None, None), "");
    assert_eq!(
        view_file("line1\nline2\nline3", Some(10), None),
        "Error: start_line 10 should be within the range [1, 3]."
    );
    assert_eq!(
        view_file("line1\nline2\nline3", Some(0), Some(2)),
        "Error: start_line 0 should be within the range [1, 3]."
    );
    assert_eq!(
        view_file("line1\nline2\nline3", Some(3), Some(1)),
        "Error: end_line 1 should be greater than or equal to start_line 3."
    );
    assert_eq!(view_file("", Some(1), None), "Error: start_line 1 should be within the range [1, 0].");
}

#[test]
fn bash_result_is_shown_in_parts() {
    assert_eq!(
        format_bash_result(&output(Some("hello"), None, Some(0))),
        "hello\n[Command finished with exit code 0]"
    );
    assert_eq!(
        format_bash_result(&output(None, Some("Error executing command: x"), Some(-1))),
        "Error executing command: x\n[Command finished with exit code -1]"
    );
    assert_eq!(
        format_bash_result(&output(Some("out"), Some("err"), Some(143))),
        "out\nerr\n[Command finished with exit code 143]"
    );
    assert_eq!(format_bash_result(&output(Some(""), None, Some(1))), "[Command finished with exit code 1]");
    assert_eq!(format_bash_result(&output(Some("out"), None, None)), "out");
    assert_eq!(format_bash_result(&output(None, None, None)), "");
    assert_eq!(
        format_bash_result(&output(None, None, Some(i32::MIN))),
        "[Command finished with exit code -2147483648]"
    );
}

#[test]
fn bash_tool_polls_until_output() {
    assert_eq!(BASH_POLL_INTERVAL_MS, 100);
    assert_eq!(BASH_MAX_POLLS, 300);
    let empty = BashEventPage { items: vec![], next_page_id: None };
    assert_eq!(bash_poll(&empty, 0, 300), BashPoll::Wait { attempts: 1 });
    assert_eq!(bash_poll(&empty, 299, 300), BashPoll::Wait { attempts: 300 });
    assert_eq!(bash_poll(&empty, 300, 300), BashPoll::TimedOut);
    assert_eq!(bash_poll(&empty, u64::MAX, u64::MAX), BashPoll::TimedOut);
    let done = BashEventPage {
        items: vec![BashEvent::BashOutput(output(Some("hi"), None, Some(0)))],
        next_page_id: None,
    };
    assert_eq!(
        bash_poll(&done, 300, 300),
        BashPoll::Finished("hi\n[Command finished with exit code 0]".to_string())
    );
    let req = bash_request(BashArgs { command: "ls".into(), cwd: Some("/".into()), timeout: Some(3) });
    assert_eq!((req.command.as_str(), req.cwd.as_deref(), req.timeout), ("ls", Some("/"), Some(3)));
}

#[test]
fn text_search() {
    let hay = chars("abcabcabc");
    assert_eq!(find(&hay, &chars("bc")), Some(1));
    assert_eq!(rfind(&hay, &chars("bc")), Some(7));
    assert_eq!(find_from(&hay, &chars("bc"), 2), Some(4));
    assert_eq!(find_from(&hay, &chars("bc"), 8), None);
    assert_eq!(find(&hay, &chars("x")), None);
    assert_eq!(rfind(&hay, &chars("abcabcabcd")), None);
    assert_eq!(find(&hay, &chars("")), Some(0));
    assert_eq!(rfind(&hay, &chars("")), Some(9));
    assert_eq!(find(&chars(""), &chars("")), Some(0));
    assert_eq!(string_of(&chars_of("héllo")), "héllo");
    for s in ["", "a", " a \t\n", "\u{85}x\u{2028}\u{205f}", "   ", "a\u{200b}"] {
        let v = chars(s);
        let n = trim_end_len(&v, v.len());
        let trimmed: String = v[..n].iter().collect();
        assert_eq!(trimmed, s.trim_end());
    }
    for code in 0..0x3100u32 {
        if let Some(c) = char::from_u32(code) {
            assert_eq!(whitespace(c), c.is_whitespace(), "for U+{:04X}", code);
        }
    }
}

#[test]
fn decimal_numerals() {
    for n in [0u128, 9, 10, 255, 1000, u64::MAX.into(), u128::MAX] {
        let mut out = vec!['>'];
        push_digits(n, &mut out);
        assert_eq!(out.iter().collect::<String>(), format!(">{}", n));
    }
    for x in [0i64, -1, 1, 143, -2147483648, i64::MIN, i64::MAX] {
        let mut out = Vec::new();
        push_decimal(x, &mut out);
        assert_eq!(out.iter().collect::<String>(), x.to_string());
    }
    for s in ["0", "-0", "+5", "143", "", "+", "-", "1 ", "12a", "2147483647", "2147483648", "-2147483648", "-2147483649", "00000000000000000001", "٣"] {
        let v = chars(s);
        assert_eq!(parse_i32_range(&v, 0, v.len()), s.parse::<i32>().ok(), "for {:?}", s);
    }
    let v = chars("xx42yy");
    assert_eq!(parse_i32_range(&v, 2, 4), Some(42));
    for code in [0, 1, 143, -1, i32::MAX, i32::MIN] {
        let mut out = Vec::new();
        push_decimal(code.into(), &mut out);
        assert_eq!(parse_i32_range(&out, 0, out.len()), Some(code));
    }
}
