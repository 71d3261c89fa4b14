//! The protocol of a terminal session: how a shell is instrumented so that
//! its byte stream says where a command's output ends, and how that stream
//! is read back.

use crate::decimal::{parse_i32, parse_i32_range};
use crate::text::{
    chars_of, find, find_from, first_index_from, last_index, occurs, occurs_at, occurs_from,
    rfind, string_of, string_of_range, trim_end, trim_end_len,
};
use vstd::prelude::*;
use vstd::string::StringExecFns;

verus! {

/// The sentinel that the handshake command echoes.
pub const INIT_MARKER: &'static str = ">>INIT_DONE<<";

/// Start of the sequence that the shell emits after each command:
/// `ESC ] 133 ; D ; <exit-code> BEL`.
pub const OSC_CMD_FINISHED_PREFIX: &'static str = "\x1b]133;D;";

/// The sequence that the shell emits at the start of each prompt.
pub const OSC_PROMPT_START: &'static str = "\x1b]133;A\x07";

/// The byte that ends an escape sequence of the protocol.
pub const BEL: char = '\x07';

/// How long the handshake may take, in milliseconds.
pub const HANDSHAKE_TIMEOUT_MS: u64 = 5000;

/// The pause between two looks at the buffer, in milliseconds.
pub const POLL_INTERVAL_MS: u64 = 10;

/// The handshake is over: the sentinel stands in the buffer, and a
/// prompt-start marker stands behind it.
pub open spec fn handshake_done(buf: Seq<char>) -> bool {
    exists|i: int, j: int|
        occurs_at(buf, INIT_MARKER@, i) && occurs_at(buf, OSC_PROMPT_START@, j) && i
            + INIT_MARKER@.len() <= j
}

/// Whether the handshake is over.
pub fn handshake_complete(buf: &[char]) -> (b: bool)
    ensures
        b == handshake_done(buf@),
{
    let marker = chars_of(INIT_MARKER);
    let prompt = chars_of(OSC_PROMPT_START);
    match find(buf, marker.as_slice()) {
        None => false,
        Some(i) => {
            let r = find_from(buf, prompt.as_slice(), i + marker.len());
            r.is_some()
        },
    }
}

/// The shell has reported the end of a command: the buffer holds the start
/// of a command-finished marker.
pub open spec fn command_finished(buf: Seq<char>) -> bool {
    occurs(buf, OSC_CMD_FINISHED_PREFIX@)
}

/// Whether the buffer holds the start of a command-finished marker.
pub fn has_finished_marker(buf: &[char]) -> (b: bool)
    ensures
        b == command_finished(buf@),
{
    let prefix = chars_of(OSC_CMD_FINISHED_PREFIX);
    find(buf, prefix.as_slice()).is_some()
}

/// The exit code that the text between marker prefix and `BEL` stands for:
/// the number it denotes, and -1 where it denotes none.
pub open spec fn exit_code_of(text: Seq<char>) -> int {
    match parse_i32(text) {
        Some(code) => code,
        None => -1,
    }
}

/// What a drained buffer says of the command that wrote it, as output and
/// exit code.
///
/// The last command-finished marker counts. The output is what stands
/// before that marker, without trailing whitespace: neither the marker nor
/// what follows it is output. With a `BEL` behind the marker's prefix, the
/// exit code is read from between prefix and `BEL`; where no `BEL` stands
/// there, because the marker is not yet read to its end, the exit code is
/// -1. Without a marker the whole buffer is the output and the exit code
/// is -1.
pub open spec fn completion(buf: Seq<char>) -> (Seq<char>, int) {
    let prefix = OSC_CMD_FINISHED_PREFIX@;
    let pos = last_index(buf, prefix);
    let code_start = pos + prefix.len();
    let code_end = first_index_from(buf, seq![BEL], code_start);
    if !occurs(buf, prefix) {
        (buf, -1)
    } else if occurs_from(buf, seq![BEL], code_start) {
        (trim_end(buf.take(pos)), exit_code_of(buf.subrange(code_start, code_end)))
    } else {
        (trim_end(buf.take(pos)), -1)
    }
}

/// Splits a drained buffer into the command's output and its exit code.
pub fn split_completion(buf: &[char]) -> (r: (String, i32))
    ensures
        (r.0@, r.1 as int) == completion(buf@),
{
    let prefix = chars_of(OSC_CMD_FINISHED_PREFIX);
    let bel: Vec<char> = vec![BEL];
    assert(bel@ =~= seq![BEL]);
    match rfind(buf, prefix.as_slice()) {
        None => (string_of(buf), -1),
        Some(pos) => {
            let code_start: usize = pos + prefix.len();
            let exit_code: i32 = match find_from(buf, bel.as_slice(), code_start) {
                Some(code_end) => match parse_i32_range(buf, code_start, code_end) {
                    Some(code) => code,
                    None => -1,
                },
                None => -1,
            };
            let end: usize = trim_end_len(buf, pos);
            let output = string_of_range(buf, 0, end);
            assert(buf@.subrange(0, end as int) =~= buf@.take(end as int));
            (output, exit_code)
        },
    }
}

/// How many characters of the buffer a handshake timeout reports.
pub const SAMPLE_CHARS: usize = 200;

/// The last `n` characters of `buf`, or all of it where it has fewer.
pub open spec fn tail(buf: Seq<char>, n: int) -> Seq<char> {
    if buf.len() > n {
        buf.skip(buf.len() - n)
    } else {
        buf
    }
}

/// The lines that instrument the shell, in the order in which they are
/// written: echo off, bracketed paste off, the prompt command that reports
/// each exit code, the prompt string that marks each prompt, and the command
/// that echoes the sentinel.
pub open spec fn startup_lines() -> Seq<Seq<char>> {
    seq![
        "stty -echo"@,
        "bind 'set enable-bracketed-paste off'"@,
        "export PROMPT_COMMAND='printf \"\\033]133;D;%s\\007\" $?'"@,
        "export PS1='\\[\\033]133;A\\007\\]'"@,
        "echo \""@ + INIT_MARKER@ + "\""@,
    ]
}

/// Where a session stands.
#[derive(Clone, Copy, Debug, PartialEq, Eq, Structural)]
pub enum SessionPhase {
    /// Nothing has been written to the shell yet.
    Uninitialized,
    /// The startup lines are written; the sentinel is awaited.
    Handshaking,
    /// The shell is configured and idle.
    Ready,
    /// A command has been written; its end is awaited.
    Executing,
    /// The session has failed for good.
    Dead,
}

/// Why a step of a session failed.
#[derive(Debug)]
pub enum SessionError {
    /// The handshake did not finish in time; `sample` is the end of the buffer.
    HandshakeTimeout { sample: String },
    /// The reader stopped during the handshake.
    ReaderExited,
    /// A command was asked of a dead session.
    SessionDead,
    /// The reader stopped while a command ran.
    ReaderDied,
    /// The step does not belong to the phase the session is in.
    WrongPhase,
}

/// A string as `Debug` shows it: in double quotes, with escapes for the
/// characters that cannot stand as they are.
pub uninterp spec fn debug_text(s: Seq<char>) -> Seq<char>;

/// `format!("{:?}", s)`: the string as `Debug` shows it.
#[verifier::external_body]
fn debug_quoted(s: &str) -> (text: String)
    ensures
        text@ == debug_text(s@),
{
    format!("{:?}", s)
}

/// A `SessionError` as a mathematical value.
pub enum SessionErrorView {
    HandshakeTimeout { sample: Seq<char> },
    ReaderExited,
    SessionDead,
    ReaderDied,
    WrongPhase,
}

impl SessionErrorView {
    /// What the error says.
    pub open spec fn message(self) -> Seq<char> {
        match self {
            SessionErrorView::HandshakeTimeout { sample } =>
                "Failed to initialize terminal: timeout waiting for handshake. Buffer (last 200 chars): "@
                    + debug_text(sample),
            SessionErrorView::ReaderExited =>
                "Failed to initialize terminal: background thread exited"@,
            SessionErrorView::SessionDead => "Terminal session is dead"@,
            SessionErrorView::ReaderDied => "Terminal background thread died during execution"@,
            SessionErrorView::WrongPhase => "Terminal session is in no state for this step"@,
        }
    }
}

impl SessionError {
    /// What the error says.
    pub fn message(&self) -> (text: String)
        ensures
            text@ == self@.message(),
    {
        match self {
            SessionError::HandshakeTimeout { sample } => {
                let mut text =
                    "Failed to initialize terminal: timeout waiting for handshake. Buffer (last 200 chars): ".to_owned();
                let quoted = debug_quoted(sample.as_str());
                text.append(quoted.as_str());
                text
            },
            SessionError::ReaderExited =>
                "Failed to initialize terminal: background thread exited".to_owned(),
            SessionError::SessionDead => "Terminal session is dead".to_owned(),
            SessionError::ReaderDied =>
                "Terminal background thread died during execution".to_owned(),
            SessionError::WrongPhase => "Terminal session is in no state for this step".to_owned(),
        }
    }
}

impl View for SessionError {
    type V = SessionErrorView;

    open spec fn view(&self) -> SessionErrorView {
        match self {
            SessionError::HandshakeTimeout { sample } => SessionErrorView::HandshakeTimeout {
                sample: sample@,
            },
            SessionError::ReaderExited => SessionErrorView::ReaderExited,
            SessionError::SessionDead => SessionErrorView::SessionDead,
            SessionError::ReaderDied => SessionErrorView::ReaderDied,
            SessionError::WrongPhase => SessionErrorView::WrongPhase,
        }
    }
}

/// What a look at the buffer during the handshake decides.
#[derive(Debug)]
pub enum HandshakeStep {
    /// Nothing yet: pause, then look again.
    Wait,
    /// The shell is configured.
    Ready,
    /// The session could not be set up.
    Failed(SessionError),
}

/// A `HandshakeStep` as a mathematical value.
pub enum HandshakeStepView {
    Wait,
    Ready,
    Failed(SessionErrorView),
}

impl View for HandshakeStep {
    type V = HandshakeStepView;

    open spec fn view(&self) -> HandshakeStepView {
        match self {
            HandshakeStep::Wait => HandshakeStepView::Wait,
            HandshakeStep::Ready => HandshakeStepView::Ready,
            HandshakeStep::Failed(e) => HandshakeStepView::Failed(e@),
        }
    }
}

/// What a look at the buffer during a command decides.
#[derive(Debug)]
pub enum ExecStep {
    /// Nothing yet: pause, then look again.
    Wait,
    /// The command is over, or its time is up (then `exit_code` is -1).
    Done { output: String, exit_code: i32 },
    /// The command could not be followed to its end.
    Failed(SessionError),
}

/// An `ExecStep` as a mathematical value.
pub enum ExecStepView {
    Wait,
    Done { output: Seq<char>, exit_code: int },
    Failed(SessionErrorView),
}

impl View for ExecStep {
    type V = ExecStepView;

    open spec fn view(&self) -> ExecStepView {
        match self {
            ExecStep::Wait => ExecStepView::Wait,
            ExecStep::Done { output, exit_code } => ExecStepView::Done {
                output: output@,
                exit_code: *exit_code as int,
            },
            ExecStep::Failed(e) => ExecStepView::Failed(e@),
        }
    }
}

/// A session as a mathematical value.
pub struct SessionView {
    /// Where the session stands.
    pub phase: SessionPhase,
    /// The reader has not seen the end of the stream.
    pub reader_alive: bool,
    /// What the shell wrote and no step has taken yet.
    pub buffer: Seq<char>,
    /// The time allowed to the command that runs, in milliseconds.
    pub timeout_ms: u64,
}

impl SessionView {
    /// The session that nothing has happened to.
    pub open spec fn initial() -> SessionView {
        SessionView {
            phase: SessionPhase::Uninitialized,
            reader_alive: true,
            buffer: Seq::empty(),
            timeout_ms: 0,
        }
    }

    /// No command can be run any more.
    pub open spec fn is_dead(self) -> bool {
        self.phase == SessionPhase::Dead || !self.reader_alive
    }

    /// The reader has read `chunk`.
    pub open spec fn fed(self, chunk: Seq<char>) -> SessionView {
        SessionView { buffer: self.buffer + chunk, ..self }
    }

    /// The reader has seen the end of the stream.
    pub open spec fn closed(self) -> SessionView {
        SessionView { reader_alive: false, ..self }
    }

    /// The startup lines are asked for.
    pub open spec fn started(self) -> (SessionView, Seq<Seq<char>>) {
        if self.phase == SessionPhase::Uninitialized {
            (SessionView { phase: SessionPhase::Handshaking, ..self }, startup_lines())
        } else {
            (self, Seq::empty())
        }
    }

    /// The buffer is looked at, `elapsed_ms` after the startup lines were written.
    pub open spec fn handshake_polled(self, elapsed_ms: u64) -> (SessionView, HandshakeStepView) {
        if self.phase != SessionPhase::Handshaking {
            (self, HandshakeStepView::Failed(SessionErrorView::WrongPhase))
        } else if elapsed_ms > HANDSHAKE_TIMEOUT_MS {
            (
                SessionView { phase: SessionPhase::Dead, ..self },
                HandshakeStepView::Failed(
                    SessionErrorView::HandshakeTimeout {
                        sample: tail(self.buffer, SAMPLE_CHARS as int),
                    },
                ),
            )
        } else if !self.reader_alive {
            (
                SessionView { phase: SessionPhase::Dead, ..self },
                HandshakeStepView::Failed(SessionErrorView::ReaderExited),
            )
        } else if handshake_done(self.buffer) {
            (
                SessionView { phase: SessionPhase::Ready, buffer: Seq::empty(), ..self },
                HandshakeStepView::Ready,
            )
        } else {
            (self, HandshakeStepView::Wait)
        }
    }

    /// The command `cmd` is asked for, with `timeout_ms` to run in. The
    /// result is what to write to the shell.
    pub open spec fn execute_asked(self, cmd: Seq<char>, timeout_ms: u64) -> (
        SessionView,
        Result<Seq<char>, SessionErrorView>,
    ) {
        if self.is_dead() {
            (SessionView { phase: SessionPhase::Dead, ..self }, Err(SessionErrorView::SessionDead))
        } else if self.phase != SessionPhase::Ready {
            (self, Err(SessionErrorView::WrongPhase))
        } else {
            (
                SessionView { phase: SessionPhase::Executing, timeout_ms, ..self },
                Ok(cmd.push('\n')),
            )
        }
    }

    /// The command could not be written to the shell: none is in flight.
    pub open spec fn unwritten(self) -> SessionView {
        if self.phase == SessionPhase::Executing {
            SessionView { phase: SessionPhase::Ready, ..self }
        } else {
            self
        }
    }

    /// The buffer is looked at, `elapsed_ms` after the command was written.
    ///
    /// A command whose time is up is given up, not stopped: it runs on in
    /// the shell, and what it writes later, its marker included, stays in
    /// the buffer and is read as the answer to the next command. The session
    /// sends the shell no signal.
    pub open spec fn polled(self, elapsed_ms: u64) -> (SessionView, ExecStepView) {
        if self.phase != SessionPhase::Executing {
            (self, ExecStepView::Failed(SessionErrorView::WrongPhase))
        } else if elapsed_ms > self.timeout_ms {
            (
                SessionView { phase: SessionPhase::Ready, buffer: Seq::empty(), ..self },
                ExecStepView::Done { output: self.buffer, exit_code: -1 },
            )
        } else if !self.reader_alive {
            (
                SessionView { phase: SessionPhase::Dead, ..self },
                ExecStepView::Failed(SessionErrorView::ReaderDied),
            )
        } else if command_finished(self.buffer) {
            (
                SessionView { phase: SessionPhase::Ready, buffer: Seq::empty(), ..self },
                ExecStepView::Done {
                    output: completion(self.buffer).0,
                    exit_code: completion(self.buffer).1,
                },
            )
        } else {
            (self, ExecStepView::Wait)
        }
    }
}

/// The outcome of asking for a command, as a mathematical value.
pub open spec fn line_view(r: Result<String, SessionError>) -> Result<Seq<char>, SessionErrorView> {
    match r {
        Ok(line) => Ok(line@),
        Err(e) => Err(e@),
    }
}

/// The lines that instrument the shell, in the order in which they are written.
pub fn startup_script() -> (lines: Vec<String>)
    ensures
        lines.deep_view() == startup_lines(),
{
    let mut handshake = "echo \"".to_owned();
    handshake.append(INIT_MARKER);
    handshake.append("\"");
    let mut lines: Vec<String> = Vec::new();
    lines.push("stty -echo".to_owned());
    lines.push("bind 'set enable-bracketed-paste off'".to_owned());
    lines.push("export PROMPT_COMMAND='printf \"\\033]133;D;%s\\007\" $?'".to_owned());
    lines.push("export PS1='\\[\\033]133;A\\007\\]'".to_owned());
    lines.push(handshake);
    assert(lines.deep_view() =~= startup_lines());
    lines
}

/// One shell session, as far as the protocol goes: what has been read from
/// the shell and not yet taken, whether the reader still runs, and what the
/// session waits for. It holds no handle: whoever owns the pseudo-terminal
/// writes what the steps hand out and feeds in what the shell writes back.
pub struct TerminalSession {
    phase: SessionPhase,
    reader_alive: bool,
    buffer: Vec<char>,
    timeout_ms: u64,
}

impl View for TerminalSession {
    type V = SessionView;

    closed spec fn view(&self) -> SessionView {
        SessionView {
            phase: self.phase,
            reader_alive: self.reader_alive,
            buffer: self.buffer@,
            timeout_ms: self.timeout_ms,
        }
    }
}

impl TerminalSession {
    /// A session that nothing has happened to.
    pub fn new() -> (s: Self)
        ensures
            s@ == SessionView::initial(),
    {
        TerminalSession {
            phase: SessionPhase::Uninitialized,
            reader_alive: true,
            buffer: Vec::new(),
            timeout_ms: 0,
        }
    }

    /// Where the session stands.
    pub fn phase(&self) -> (p: SessionPhase)
        ensures
            p == self@.phase,
    {
        self.phase
    }

    /// Whether a command can still be run, now or later.
    pub fn is_alive(&self) -> (b: bool)
        ensures
            b == !self@.is_dead(),
    {
        self.reader_alive && !matches!(self.phase, SessionPhase::Dead)
    }

    /// What the shell wrote and no step has taken yet.
    pub fn buffered(&self) -> (text: String)
        ensures
            text@ == self@.buffer,
    {
        string_of(self.buffer.as_slice())
    }

    /// Takes in what the reader has read.
    pub fn feed(&mut self, chunk: &str)
        ensures
            final(self)@ == old(self)@.fed(chunk@),
    {
        let mut chars = chars_of(chunk);
        self.buffer.append(&mut chars);
    }

    /// Takes note that the reader has seen the end of the stream.
    pub fn reader_closed(&mut self)
        ensures
            final(self)@ == old(self)@.closed(),
    {
        self.reader_alive = false;
    }

    /// Begins the handshake, and hands out the lines to write to the shell.
    /// A session that has begun before hands out nothing.
    pub fn start(&mut self) -> (lines: Vec<String>)
        ensures
            final(self)@ == old(self)@.started().0,
            lines.deep_view() == old(self)@.started().1,
    {
        if matches!(self.phase, SessionPhase::Uninitialized) {
            self.phase = SessionPhase::Handshaking;
            startup_script()
        } else {
            let lines: Vec<String> = Vec::new();
            assert(lines.deep_view() =~= Seq::<Seq<char>>::empty());
            lines
        }
    }

    /// Looks at the buffer during the handshake, `elapsed_ms` after the
    /// startup lines were written.
    pub fn poll_handshake(&mut self, elapsed_ms: u64) -> (step: HandshakeStep)
        ensures
            (final(self)@, step@) == old(self)@.handshake_polled(elapsed_ms),
    {
        if !matches!(self.phase, SessionPhase::Handshaking) {
            HandshakeStep::Failed(SessionError::WrongPhase)
        } else if elapsed_ms > HANDSHAKE_TIMEOUT_MS {
            let len: usize = self.buffer.len();
            let from: usize = if len > SAMPLE_CHARS {
                len - SAMPLE_CHARS
            } else {
                0
            };
            let sample = string_of_range(self.buffer.as_slice(), from, len);
            assert(self.buffer@.subrange(from as int, len as int) =~= tail(
                self.buffer@,
                SAMPLE_CHARS as int,
            ));
            self.phase = SessionPhase::Dead;
            HandshakeStep::Failed(SessionError::HandshakeTimeout { sample })
        } else if !self.reader_alive {
            self.phase = SessionPhase::Dead;
            HandshakeStep::Failed(SessionError::ReaderExited)
        } else if handshake_complete(self.buffer.as_slice()) {
            self.buffer = Vec::new();
            self.phase = SessionPhase::Ready;
            HandshakeStep::Ready
        } else {
            HandshakeStep::Wait
        }
    }

    /// Asks for the command `cmd`, with `timeout_ms` to run in, and hands
    /// out what to write to the shell: the command and a newline.
    pub fn execute(&mut self, cmd: &str, timeout_ms: u64) -> (r: Result<String, SessionError>)
        ensures
            (final(self)@, line_view(r)) == old(self)@.execute_asked(cmd@, timeout_ms),
    {
        if !self.is_alive() {
            self.phase = SessionPhase::Dead;
            Err(SessionError::SessionDead)
        } else if !matches!(self.phase, SessionPhase::Ready) {
            Err(SessionError::WrongPhase)
        } else {
            self.phase = SessionPhase::Executing;
            self.timeout_ms = timeout_ms;
            let mut line = cmd.to_owned();
            line.push('\n');
            Ok(line)
        }
    }

    /// Takes note that the command could not be written to the shell: the
    /// session is ready for the next one.
    pub fn write_failed(&mut self)
        ensures
            final(self)@ == old(self)@.unwritten(),
    {
        if matches!(self.phase, SessionPhase::Executing) {
            self.phase = SessionPhase::Ready;
        }
    }

    /// Looks at the buffer while a command runs, `elapsed_ms` after it was
    /// written. After a timeout the command is given up but runs on: its
    /// late output is taken for the next command's.
    pub fn poll(&mut self, elapsed_ms: u64) -> (step: ExecStep)
        ensures
            (final(self)@, step@) == old(self)@.polled(elapsed_ms),
    {
        if !matches!(self.phase, SessionPhase::Executing) {
            ExecStep::Failed(SessionError::WrongPhase)
        } else if elapsed_ms > self.timeout_ms {
            let output = self.drain_output();
            self.phase = SessionPhase::Ready;
            ExecStep::Done { output, exit_code: -1 }
        } else if !self.reader_alive {
            self.phase = SessionPhase::Dead;
            ExecStep::Failed(SessionError::ReaderDied)
        } else if has_finished_marker(self.buffer.as_slice()) {
            let (output, exit_code) = split_completion(self.buffer.as_slice());
            self.buffer = Vec::new();
            self.phase = SessionPhase::Ready;
            ExecStep::Done { output, exit_code }
        } else {
            ExecStep::Wait
        }
    }

    /// Takes what the buffer holds and leaves it empty.
    fn drain_output(&mut self) -> (text: String)
        ensures
            text@ == old(self)@.buffer,
            final(self)@ == (SessionView { buffer: Seq::empty(), ..old(self)@ }),
    {
        let text = string_of(self.buffer.as_slice());
        self.buffer = Vec::new();
        text
    }
}

} // verus!
