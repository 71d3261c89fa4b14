use coder_mcp::runtime::stream::whole_prefix;
use coder_mcp::runtime::terminal::{
    handshake_complete, has_finished_marker, split_completion, startup_script, ExecStep,
    HandshakeStep, SessionError, SessionPhase, TerminalSession, HANDSHAKE_TIMEOUT_MS,
    INIT_MARKER, OSC_CMD_FINISHED_PREFIX, OSC_PROMPT_START,
};

fn marker(code: i32) -> String {
    format!("\x1b]133;D;{}\x07", code)
}

fn chars(s: &str) -> Vec<char> {
    s.chars().collect()
}

/// A session whose handshake went through, as after the shell has answered.
fn ready_session() -> TerminalSession {
    let mut session = TerminalSession::new();
    assert_eq!(session.phase(), SessionPhase::Uninitialized);
    let lines = session.start();
    assert_eq!(lines.len(), 5);
    assert_eq!(session.phase(), SessionPhase::Handshaking);
    session.feed("bash-5.1$ ");
    assert!(matches!(session.poll_handshake(10), HandshakeStep::Wait));
    session.feed(">>INIT_DONE<<\r\n");
    assert!(matches!(session.poll_handshake(20), HandshakeStep::Wait));
    session.feed(&marker(0));
    session.feed(OSC_PROMPT_START);
    assert!(matches!(session.poll_handshake(30), HandshakeStep::Ready));
    assert_eq!(session.phase(), SessionPhase::Ready);
    assert_eq!(session.buffered(), "");
    session
}

/// Runs `cmd` on a shell that answers with `transcript`.
fn run(session: &mut TerminalSession, cmd: &str, timeout_ms: u64, transcript: &str) -> (String, i32) {
    let line = session.execute(cmd, timeout_ms).unwrap();
    assert_eq!(line, format!("{}\n", cmd));
    assert_eq!(session.phase(), SessionPhase::Executing);
    assert!(matches!(session.poll(0), ExecStep::Wait));
    session.feed(transcript);
    match session.poll(10) {
        ExecStep::Done { output, exit_code } => {
            assert_eq!(session.phase(), SessionPhase::Ready);
            (output, exit_code)
        }
        other => panic!("the command did not end: {:?}", other),
    }
}

#[test]
fn test_execute_simple_command() {
    let mut session = ready_session();
    let transcript = format!("hello\r\n{}{}", marker(0), OSC_PROMPT_START);
    let (output, exit_code) = run(&mut session, "echo hello", 1000, &transcript);
    assert_eq!(exit_code, 0);
    assert!(output.contains("hello"));
    assert_eq!(output, "hello");
}

#[test]
fn test_execute_state_persistence() {
    let mut session = ready_session();
    let silent = format!("{}{}", marker(0), OSC_PROMPT_START);
    run(&mut session, "export MY_VAR=123", 1000, &silent);

    let transcript = format!("123\r\n{}{}", marker(0), OSC_PROMPT_START);
    let (output, exit_code) = run(&mut session, "echo $MY_VAR", 1000, &transcript);
    assert_eq!(exit_code, 0);
    assert!(output.contains("123"));
}

#[test]
fn test_execute_directory_persistence() {
    let mut session = ready_session();
    let silent = format!("{}{}", marker(0), OSC_PROMPT_START);
    run(&mut session, "mkdir -p /tmp/test_dir", 1000, &silent);
    run(&mut session, "cd /tmp/test_dir", 1000, &silent);

    let transcript = format!("/tmp/test_dir\r\n{}{}", marker(0), OSC_PROMPT_START);
    let (output, exit_code) = run(&mut session, "pwd", 1000, &transcript);
    assert_eq!(exit_code, 0);
    assert!(output.contains("/tmp/test_dir"));
}

#[test]
fn test_execute_timeout() {
    let mut session = ready_session();
    session.execute("sleep 2", 500).unwrap();
    assert!(matches!(session.poll(250), ExecStep::Wait));
    assert!(matches!(session.poll(500), ExecStep::Wait));
    match session.poll(501) {
        ExecStep::Done { output, exit_code } => {
            assert_eq!(exit_code, -1);
            assert_eq!(output, "");
        }
        other => panic!("no timeout: {:?}", other),
    }
    // The session is usable for the next command.
    assert_eq!(session.phase(), SessionPhase::Ready);
    let transcript = format!("again\r\n{}{}", marker(0), OSC_PROMPT_START);
    let (output, exit_code) = run(&mut session, "echo again", 1000, &transcript);
    assert_eq!((output.as_str(), exit_code), ("again", 0));
}

#[test]
fn test_execute_exit_code() {
    let mut session = ready_session();
    let transcript = format!("{}{}", marker(1), OSC_PROMPT_START);
    let (_output, exit_code) = run(&mut session, "false", 1000, &transcript);
    assert_eq!(exit_code, 1);
    let transcript = format!("{}{}", marker(0), OSC_PROMPT_START);
    let (_output, exit_code) = run(&mut session, "true", 1000, &transcript);
    assert_eq!(exit_code, 0);
}

#[test]
fn test_execute_large_output() {
    let mut session = ready_session();
    let mut expected = String::new();
    for i in 1..=10000 {
        expected.push_str(&format!("{}\r\n", i));
    }
    let transcript = format!("{}{}{}", expected, marker(0), OSC_PROMPT_START);
    session.execute("seq 1 10000", 5000).unwrap();
    // The reader hands the output over in pieces of 1024 bytes.
    let bytes = transcript.as_bytes();
    let mut at = 0;
    while at < bytes.len() {
        let end = (at + 1024).min(bytes.len());
        session.feed(std::str::from_utf8(&bytes[at..end]).unwrap());
        at = end;
    }
    let (output, exit_code) = match session.poll(100) {
        ExecStep::Done { output, exit_code } => (output, exit_code),
        other => panic!("the command did not end: {:?}", other),
    };
    assert_eq!(exit_code, 0);
    assert!(output.starts_with("1\r\n") || output.starts_with("1\n"));
    assert!(output.contains("10000"));
    assert!(output.len() > 40000);
    assert_eq!(output, expected.trim_end());
}

#[test]
fn test_concurrent_sessions() {
    let mut sessions: Vec<TerminalSession> = Vec::new();
    for _ in 0..5 {
        sessions.push(ready_session());
    }
    for (i, session) in sessions.iter_mut().enumerate() {
        session.execute(&format!("echo thread {}", i), 1000).unwrap();
    }
    for (i, session) in sessions.iter_mut().enumerate().rev() {
        session.feed(&format!("thread {}\r\n{}{}", i, marker(0), OSC_PROMPT_START));
        match session.poll(10) {
            ExecStep::Done { output, exit_code } => {
                assert_eq!(exit_code, 0);
                assert!(output.contains(&format!("thread {}", i)));
            }
            other => panic!("the command did not end: {:?}", other),
        }
    }
}

#[test]
fn test_interrupt_exit_code() {
    let mut session = ready_session();
    let transcript = format!("{}{}", marker(143), OSC_PROMPT_START);
    let (_output, exit_code) = run(&mut session, "sh -c 'kill -TERM $$'", 1000, &transcript);
    assert_eq!(exit_code, 143);
}

#[test]
fn startup_script_instruments_the_shell() {
    let lines = startup_script();
    assert_eq!(
        lines,
        vec![
            "stty -echo".to_string(),
            "bind 'set enable-bracketed-paste off'".to_string(),
            "export PROMPT_COMMAND='printf \"\\033]133;D;%s\\007\" $?'".to_string(),
            "export PS1='\\[\\033]133;A\\007\\]'".to_string(),
            "echo \">>INIT_DONE<<\"".to_string(),
        ]
    );
    let mut session = TerminalSession::new();
    assert_eq!(session.start(), lines);
    assert!(session.start().is_empty());
}

#[test]
fn protocol_constants() {
    assert_eq!(INIT_MARKER, ">>INIT_DONE<<");
    assert_eq!(OSC_CMD_FINISHED_PREFIX, "\u{1b}]133;D;");
    assert_eq!(OSC_PROMPT_START, "\u{1b}]133;A\u{7}");
    assert_eq!(HANDSHAKE_TIMEOUT_MS, 5000);
}

#[test]
fn handshake_needs_prompt_behind_sentinel() {
    assert!(!handshake_complete(&chars("")));
    assert!(!handshake_complete(&chars(">>INIT_DONE<<")));
    assert!(!handshake_complete(&chars("\x1b]133;A\x07>>INIT_DONE<<")));
    assert!(!handshake_complete(&chars("\x1b]133;A\x07 >>INIT_DONE<<\x1b]133;A")));
    assert!(handshake_complete(&chars(">>INIT_DONE<<\x1b]133;A\x07")));
    assert!(handshake_complete(&chars("x>>INIT_DONE<<\r\n\x1b]133;D;0\x07\x1b]133;A\x07$ ")));
}

#[test]
fn handshake_timeout_reports_end_of_buffer() {
    let mut session = TerminalSession::new();
    session.start();
    let noise: String = std::iter::repeat('x').take(300).collect::<String>() + "tail\n";
    session.feed(&noise);
    assert!(matches!(session.poll_handshake(5000), HandshakeStep::Wait));
    match session.poll_handshake(5001) {
        HandshakeStep::Failed(SessionError::HandshakeTimeout { sample }) => {
            assert_eq!(sample.chars().count(), 200);
            assert!(sample.ends_with("tail\n"));
            let message = SessionError::HandshakeTimeout { sample }.message();
            assert!(message.starts_with(
                "Failed to initialize terminal: timeout waiting for handshake. Buffer (last 200 chars): \"xxx"
            ));
            assert!(message.ends_with("tail\\n\""));
        }
        other => panic!("no timeout: {:?}", other),
    }
    assert_eq!(session.phase(), SessionPhase::Dead);
    assert!(!session.is_alive());
}

#[test]
fn handshake_fails_when_reader_exits() {
    let mut session = TerminalSession::new();
    session.start();
    session.reader_closed();
    match session.poll_handshake(10) {
        HandshakeStep::Failed(e) => {
            assert!(matches!(e, SessionError::ReaderExited));
            assert_eq!(e.message(), "Failed to initialize terminal: background thread exited");
        }
        other => panic!("unexpected: {:?}", other),
    }
    assert_eq!(session.phase(), SessionPhase::Dead);
}

#[test]
fn dead_session_fails_fast() {
    let mut session = ready_session();
    session.reader_closed();
    for _ in 0..3 {
        match session.execute("echo hi", 1000) {
            Err(e) => {
                assert!(matches!(e, SessionError::SessionDead));
                assert_eq!(e.message(), "Terminal session is dead");
            }
            Ok(line) => panic!("a dead session took {:?}", line),
        }
        assert_eq!(session.phase(), SessionPhase::Dead);
    }
}

#[test]
fn reader_death_during_execution() {
    let mut session = ready_session();
    session.execute("cat", 1000).unwrap();
    session.feed("partial");
    session.reader_closed();
    match session.poll(20) {
        ExecStep::Failed(e) => {
            assert!(matches!(e, SessionError::ReaderDied));
            assert_eq!(e.message(), "Terminal background thread died during execution");
        }
        other => panic!("unexpected: {:?}", other),
    }
    assert!(matches!(session.execute("echo", 10), Err(SessionError::SessionDead)));
}

#[test]
fn steps_out_of_phase_are_refused() {
    let mut session = TerminalSession::new();
    assert!(matches!(session.poll_handshake(0), HandshakeStep::Failed(SessionError::WrongPhase)));
    assert!(matches!(session.poll(0), ExecStep::Failed(SessionError::WrongPhase)));
    assert!(matches!(session.execute("ls", 10), Err(SessionError::WrongPhase)));
    let mut session = ready_session();
    session.execute("ls", 10).unwrap();
    // Only one command is in flight at a time.
    assert!(matches!(session.execute("pwd", 10), Err(SessionError::WrongPhase)));
    assert_eq!(session.phase(), SessionPhase::Executing);
}

#[test]
fn completion_uses_last_marker() {
    let buf = chars("echoed \x1b]133;D;7\x07 text  \r\n\x1b]133;D;42\x07\x1b]133;A\x07");
    assert!(has_finished_marker(&buf));
    let (output, code) = split_completion(&buf);
    assert_eq!(output, "echoed \x1b]133;D;7\x07 text");
    assert_eq!(code, 42);
}

#[test]
fn completion_edge_cases() {
    // No marker at all: everything is output.
    assert_eq!(split_completion(&chars("abc \n")), ("abc \n".to_string(), -1));
    assert!(!has_finished_marker(&chars("abc \x1b]133;A\x07")));
    // Marker not yet read to its end: the output still ends before it.
    assert_eq!(split_completion(&chars("abc\n\x1b]133;D;0")), ("abc".to_string(), -1));
    assert_eq!(split_completion(&chars("abc \x1b]133;D;")), ("abc".to_string(), -1));
    assert_eq!(
        split_completion(&chars("a\x1b]133;D;1\x07 b \x1b]133;D;2")),
        ("a\x1b]133;D;1\x07 b".to_string(), -1)
    );
    // Malformed exit codes read as -1.
    assert_eq!(split_completion(&chars("a\n\x1b]133;D;\x07")), ("a".to_string(), -1));
    assert_eq!(split_completion(&chars("a\n\x1b]133;D;1x\x07")), ("a".to_string(), -1));
    assert_eq!(split_completion(&chars("a\n\x1b]133;D; 1\x07")), ("a".to_string(), -1));
    assert_eq!(split_completion(&chars("a\x1b]133;D;99999999999\x07")), ("a".to_string(), -1));
    // Signs and leading zeros are read as numbers are.
    assert_eq!(split_completion(&chars("a\x1b]133;D;+7\x07")), ("a".to_string(), 7));
    assert_eq!(split_completion(&chars("a\x1b]133;D;-7\x07")), ("a".to_string(), -7));
    assert_eq!(split_completion(&chars("a\x1b]133;D;007\x07")), ("a".to_string(), 7));
    assert_eq!(
        split_completion(&chars("\x1b]133;D;2147483647\x07")),
        (String::new(), 2147483647)
    );
    assert_eq!(
        split_completion(&chars("\x1b]133;D;-2147483648\x07")),
        (String::new(), -2147483648)
    );
    assert_eq!(split_completion(&chars("\x1b]133;D;2147483648\x07")), (String::new(), -1));
    // Trailing whitespace of any kind is taken off, leading whitespace stays.
    assert_eq!(
        split_completion(&chars("  a\u{a0}\u{3000}\t\r\n\x1b]133;D;0\x07")),
        ("  a".to_string(), 0)
    );
}

#[test]
fn timeout_returns_what_was_read() {
    let mut session = ready_session();
    session.execute("slow", 100).unwrap();
    session.feed("half done \n");
    match session.poll(101) {
        ExecStep::Done { output, exit_code } => {
            assert_eq!(output, "half done \n");
            assert_eq!(exit_code, -1);
        }
        other => panic!("unexpected: {:?}", other),
    }
    assert_eq!(session.buffered(), "");
}

#[test]
fn failed_write_leaves_session_ready() {
    let mut session = ready_session();
    session.execute("ls", 10).unwrap();
    session.write_failed();
    assert_eq!(session.phase(), SessionPhase::Ready);
    let transcript = format!("x\r\n{}{}", marker(0), OSC_PROMPT_START);
    assert_eq!(run(&mut session, "echo x", 1000, &transcript), ("x".to_string(), 0));
    // Outside a command a failed write changes nothing.
    session.write_failed();
    assert_eq!(session.phase(), SessionPhase::Ready);
}

#[test]
fn marker_cut_by_a_read_is_no_output() {
    let mut session = ready_session();
    session.execute("echo hi", 1000).unwrap();
    session.feed("hi\r\n\x1b]133;D;");
    match session.poll(10) {
        ExecStep::Done { output, exit_code } => {
            assert_eq!(output, "hi");
            assert_eq!(exit_code, -1);
        }
        other => panic!("unexpected: {:?}", other),
    }
    assert_eq!(session.buffered(), "");
}

#[test]
fn reads_cut_no_character_in_two() {
    assert_eq!(whole_prefix(b""), 0);
    assert_eq!(whole_prefix(b"abc"), 3);
    assert_eq!(whole_prefix("é".as_bytes()), 2);
    assert_eq!(whole_prefix(&"é".as_bytes()[..1]), 0);
    assert_eq!(whole_prefix(&"a€".as_bytes()[..2]), 1);
    assert_eq!(whole_prefix(&"a€".as_bytes()[..3]), 1);
    assert_eq!(whole_prefix("a€".as_bytes()), 4);
    assert_eq!(whole_prefix(&"😀".as_bytes()[..3]), 0);
    assert_eq!(whole_prefix("😀".as_bytes()), 4);
    // Bytes that begin no character are not held back.
    assert_eq!(whole_prefix(&[0x80, 0x80, 0x80]), 3);
    assert_eq!(whole_prefix(&[b'a', 0xff]), 2);
    assert_eq!(whole_prefix(&[0xc3, b'a']), 2);

    // Text read in pieces of any size arrives whole.
    let text = "aé€😀 \x1b]133;D;0\x07 ünï 😀😀\r\n";
    let bytes = text.as_bytes();
    for size in 1..=bytes.len() {
        let mut session = TerminalSession::new();
        let mut pending: Vec<u8> = Vec::new();
        for piece in bytes.chunks(size) {
            pending.extend_from_slice(piece);
            let whole = whole_prefix(&pending);
            session.feed(std::str::from_utf8(&pending[..whole]).unwrap());
            pending.drain(..whole);
        }
        assert!(pending.is_empty());
        assert_eq!(session.buffered(), text, "for reads of {} bytes", size);
    }
}
