//! What holds of every terminal session, proved from the transitions of
//! `SessionView` and from the reading of the buffer.

use crate::decimal::{decimal, digits_of, is_digit, lemma_digits_of, lemma_parse_decimal};
use crate::runtime::terminal::{
    command_finished, completion, exit_code_of, ExecStepView, SessionErrorView, SessionPhase,
    SessionView, BEL, OSC_CMD_FINISHED_PREFIX,
};
use crate::text::{
    is_first_from, is_last, lemma_first_index_from, lemma_last_index, lemma_trim_end, occurs,
    occurs_at, occurs_from, trim_end,
};
use vstd::prelude::*;

verus! {

/// The marker that the shell emits after a command that ended with `code`.
pub open spec fn finished_marker(code: int) -> Seq<char> {
    OSC_CMD_FINISHED_PREFIX@ + decimal(code) + seq![BEL]
}

/// The numeral of an integer holds neither `ESC` nor `BEL`.
proof fn lemma_decimal_is_plain(x: int)
    ensures
        decimal(x).len() >= 1,
        forall|i: int|
            0 <= i < decimal(x).len() ==> (#[trigger] decimal(x)[i]) != BEL && decimal(x)[i]
                != '\x1b',
{
    if x < 0 {
        lemma_digits_of((-x) as nat);
        let d = digits_of((-x) as nat);
        assert forall|i: int| 0 <= i < decimal(x).len() implies (#[trigger] decimal(x)[i]) != BEL
            && decimal(x)[i] != '\x1b' by {
            if i > 0 {
                assert(decimal(x)[i] == d[i - 1]);
                assert(is_digit(d[i - 1]));
            }
        }
    } else {
        lemma_digits_of(x as nat);
        let d = digits_of(x as nat);
        assert forall|i: int| 0 <= i < decimal(x).len() implies (#[trigger] decimal(x)[i]) != BEL
            && decimal(x)[i] != '\x1b' by {
            assert(is_digit(d[i]));
        }
    }
}

/// The prefix of the command-finished marker has eight characters, of which
/// only the first is `ESC`.
proof fn lemma_prefix_shape()
    ensures
        OSC_CMD_FINISHED_PREFIX@.len() == 8,
        OSC_CMD_FINISHED_PREFIX@[0] == '\x1b',
        forall|k: int| 1 <= k < 8 ==> (#[trigger] OSC_CMD_FINISHED_PREFIX@[k]) != '\x1b',
{
    reveal_strlit("\x1b]133;D;");
}

/// Where each part of `text`, marker and `rest` stands in the buffer.
proof fn lemma_layout(text: Seq<char>, code: int, rest: Seq<char>)
    ensures
        ({
            let prefix = OSC_CMD_FINISHED_PREFIX@;
            let digits = decimal(code);
            let buf = text + finished_marker(code) + rest;
            let pos = text.len() as int;
            &&& buf.len() == pos + 8 + digits.len() + 1 + rest.len()
            &&& forall|k: int| 0 <= k < pos ==> buf[k] == text[k]
            &&& forall|k: int| 0 <= k < 8 ==> buf[pos + k] == prefix[k]
            &&& forall|k: int| 0 <= k < digits.len() ==> buf[pos + 8 + k] == digits[k]
            &&& buf[pos + 8 + digits.len()] == BEL
            &&& forall|k: int| 0 <= k < rest.len() ==> buf[pos + 8 + digits.len() + 1 + k] == rest[k]
        }),
{
    lemma_prefix_shape();
}

/// The marker behind `text` is the last one in the buffer.
proof fn lemma_marker_is_last(text: Seq<char>, code: int, rest: Seq<char>)
    requires
        !occurs(rest, OSC_CMD_FINISHED_PREFIX@),
    ensures
        is_last(text + finished_marker(code) + rest, OSC_CMD_FINISHED_PREFIX@, text.len() as int),
{
    let prefix = OSC_CMD_FINISHED_PREFIX@;
    let digits = decimal(code);
    let buf = text + finished_marker(code) + rest;
    let pos = text.len() as int;
    let code_end = pos + 8 + digits.len();
    lemma_prefix_shape();
    lemma_layout(text, code, rest);
    lemma_decimal_is_plain(code);
    assert(buf.subrange(pos, pos + 8) =~= prefix);
    assert forall|j: int| pos < j implies !occurs_at(buf, prefix, j) by {
        if occurs_at(buf, prefix, j) {
            assert(buf.subrange(j, j + 8)[0] == prefix[0]);
            assert(buf[j] == '\x1b');
            if j < pos + 8 {
                assert(buf[j] == prefix[j - pos]);
            } else if j < code_end {
                assert(buf[j] == digits[j - (pos + 8)]);
            } else if j == code_end {
            } else {
                let r = j - (code_end + 1);
                assert(rest.subrange(r, r + 8) =~= buf.subrange(j, j + 8));
                assert(occurs_at(rest, prefix, r));
            }
        }
    }
}

/// The `BEL` of the marker is the first one behind the marker's prefix, and
/// the exit code stands between the two.
proof fn lemma_code_is_framed(text: Seq<char>, code: int, rest: Seq<char>)
    ensures
        ({
            let buf = text + finished_marker(code) + rest;
            let code_start = text.len() as int + 8;
            let code_end = code_start + decimal(code).len();
            &&& is_first_from(buf, seq![BEL], code_start, code_end)
            &&& buf.subrange(code_start, code_end) == decimal(code)
        }),
{
    let digits = decimal(code);
    let buf = text + finished_marker(code) + rest;
    let code_start = text.len() as int + 8;
    let code_end = code_start + digits.len();
    let bel = seq![BEL];
    lemma_layout(text, code, rest);
    lemma_decimal_is_plain(code);
    assert(buf.subrange(code_end, code_end + 1) =~= bel);
    assert forall|j: int| code_start <= j < code_end implies !occurs_at(buf, bel, j) by {
        if occurs_at(buf, bel, j) {
            assert(buf.subrange(j, j + 1)[0] == bel[0]);
            assert(buf[j] == digits[j - code_start]);
        }
    }
    assert(buf.subrange(code_start, code_end) =~= digits);
}

/// A command's output comes back as it was written, but for trailing
/// whitespace, and with the exit code that the shell reported: where the
/// shell wrote `text`, then the marker for `code`, then anything that holds
/// no further marker (the next prompt), the buffer reads as `text` trimmed
/// and `code`.
pub proof fn law_round_trip(text: Seq<char>, code: int, rest: Seq<char>)
    requires
        i32::MIN <= code <= i32::MAX,
        !occurs(rest, OSC_CMD_FINISHED_PREFIX@),
    ensures
        command_finished(text + finished_marker(code) + rest),
        completion(text + finished_marker(code) + rest) == (trim_end(text), code),
{
    let prefix = OSC_CMD_FINISHED_PREFIX@;
    let buf = text + finished_marker(code) + rest;
    let pos = text.len() as int;
    let code_start = pos + 8;
    let code_end = code_start + decimal(code).len();
    lemma_prefix_shape();
    lemma_marker_is_last(text, code, rest);
    lemma_last_index(buf, prefix, pos);
    lemma_code_is_framed(text, code, rest);
    lemma_first_index_from(buf, seq![BEL], code_start, code_end);
    lemma_parse_decimal(code);
    assert(exit_code_of(decimal(code)) == code);
    assert(buf.take(pos) =~= text);
}

/// Whatever the buffer holds, the output that is read from it ends before
/// the last command-finished marker, whether that marker is read to its end
/// or not: neither the marker nor the prompt behind it is part of the
/// output. The output is what stands before the marker, trimmed.
pub proof fn law_output_ends_before_marker(buf: Seq<char>, pos: int)
    requires
        is_last(buf, OSC_CMD_FINISHED_PREFIX@, pos),
    ensures
        completion(buf).0 == trim_end(buf.take(pos)),
        completion(buf).0.len() <= pos,
        completion(buf).0 == buf.take(completion(buf).0.len() as int),
        !occurs_from(buf, seq![BEL], pos + OSC_CMD_FINISHED_PREFIX@.len()) ==> completion(buf).1
            == -1,
{
    lemma_last_index(buf, OSC_CMD_FINISHED_PREFIX@, pos);
    lemma_trim_end(buf.take(pos));
    let out = completion(buf).0;
    assert(buf.take(pos).take(out.len() as int) =~= buf.take(out.len() as int));
}

/// What can happen to a session.
pub enum SessionEvent {
    /// The reader has read a chunk.
    Fed(Seq<char>),
    /// The reader has seen the end of the stream.
    Closed,
    /// The startup lines are asked for.
    Started,
    /// The buffer is looked at during the handshake.
    HandshakePolled(u64),
    /// A command is asked for.
    ExecuteAsked(Seq<char>, u64),
    /// The command could not be written.
    WriteFailed,
    /// The buffer is looked at while a command runs.
    Polled(u64),
}

/// The session after one event.
pub open spec fn after(s: SessionView, e: SessionEvent) -> SessionView {
    match e {
        SessionEvent::Fed(chunk) => s.fed(chunk),
        SessionEvent::Closed => s.closed(),
        SessionEvent::Started => s.started().0,
        SessionEvent::HandshakePolled(elapsed_ms) => s.handshake_polled(elapsed_ms).0,
        SessionEvent::ExecuteAsked(cmd, timeout_ms) => s.execute_asked(cmd, timeout_ms).0,
        SessionEvent::WriteFailed => s.unwritten(),
        SessionEvent::Polled(elapsed_ms) => s.polled(elapsed_ms).0,
    }
}

/// The session after a run of events.
pub open spec fn after_all(s: SessionView, events: Seq<SessionEvent>) -> SessionView
    decreases events.len(),
{
    if events.len() == 0 {
        s
    } else {
        after(after_all(s, events.drop_last()), events.last())
    }
}

/// One phase may follow another: a session goes from `Uninitialized` to
/// `Handshaking` to `Ready`, then between `Ready` and `Executing`, and from
/// anywhere to `Dead`.
pub open spec fn may_follow(from: SessionPhase, to: SessionPhase) -> bool {
    ||| to == from
    ||| to == SessionPhase::Dead
    ||| from == SessionPhase::Uninitialized && to == SessionPhase::Handshaking
    ||| from == SessionPhase::Handshaking && to == SessionPhase::Ready
    ||| from == SessionPhase::Ready && to == SessionPhase::Executing
    ||| from == SessionPhase::Executing && to == SessionPhase::Ready
}

/// Every event moves the session along the state machine, and none brings a
/// closed reader back or leaves `Dead`.
pub proof fn law_transitions(s: SessionView, e: SessionEvent)
    ensures
        may_follow(s.phase, after(s, e).phase),
        !s.reader_alive ==> !after(s, e).reader_alive,
        s.phase == SessionPhase::Dead ==> after(s, e).phase == SessionPhase::Dead,
{
}

/// A dead session stays dead, whatever happens to it, and every command
/// asked of it afterwards fails at once.
pub proof fn law_death_is_final(
    s: SessionView,
    events: Seq<SessionEvent>,
    cmd: Seq<char>,
    timeout_ms: u64,
)
    requires
        s.is_dead(),
    ensures
        after_all(s, events).is_dead(),
        after_all(s, events).execute_asked(cmd, timeout_ms).1 == Err::<
            Seq<char>,
            SessionErrorView,
        >(SessionErrorView::SessionDead),
    decreases events.len(),
{
    if events.len() > 0 {
        law_death_is_final(s, events.drop_last(), cmd, timeout_ms);
        law_transitions(after_all(s, events.drop_last()), events.last());
    }
}

/// A command that outlives its timeout ends with exit code -1 and with what
/// the buffer held, at the first look after the timeout; the session is
/// ready again and accepts the next command.
pub proof fn law_timeout_leaves_session_usable(
    s: SessionView,
    elapsed_ms: u64,
    next: Seq<char>,
    next_timeout_ms: u64,
)
    requires
        s.phase == SessionPhase::Executing,
        s.reader_alive,
        elapsed_ms > s.timeout_ms,
    ensures
        s.polled(elapsed_ms).1 == (ExecStepView::Done { output: s.buffer, exit_code: -1 }),
        s.polled(elapsed_ms).0.phase == SessionPhase::Ready,
        s.polled(elapsed_ms).0.buffer.len() == 0,
        s.polled(elapsed_ms).0.execute_asked(next, next_timeout_ms).1 == Ok::<
            Seq<char>,
            SessionErrorView,
        >(next.push('\n')),
{
}

/// The chunks of `chunks`, one behind the other.
pub open spec fn concat(chunks: Seq<Seq<char>>) -> Seq<char>
    decreases chunks.len(),
{
    if chunks.len() == 0 {
        Seq::empty()
    } else {
        concat(chunks.drop_last()) + chunks.last()
    }
}

/// The session after the reader has read `chunks`, one after the other.
pub open spec fn fed_all(s: SessionView, chunks: Seq<Seq<char>>) -> SessionView
    decreases chunks.len(),
{
    if chunks.len() == 0 {
        s
    } else {
        fed_all(s, chunks.drop_last()).fed(chunks.last())
    }
}

/// However the shell's output is cut into chunks, the buffer holds it whole
/// and in order: nothing is lost, doubled or moved.
pub proof fn law_chunks_concatenate(s: SessionView, chunks: Seq<Seq<char>>)
    ensures
        fed_all(s, chunks) == s.fed(concat(chunks)),
    decreases chunks.len(),
{
    if chunks.len() == 0 {
        assert(s.buffer + Seq::<char>::empty() =~= s.buffer);
    } else {
        law_chunks_concatenate(s, chunks.drop_last());
        assert((s.buffer + concat(chunks.drop_last())) + chunks.last() =~= s.buffer + concat(
            chunks,
        ));
    }
}

/// Output of any size, read in chunks of any size, comes back whole: where
/// the chunks together are `text`, the marker for `code` and a rest without
/// marker, a look at the buffer in time ends the command with `text`
/// trimmed and `code`, and the session is ready again with an empty buffer.
pub proof fn law_chunked_output_is_whole(
    s: SessionView,
    chunks: Seq<Seq<char>>,
    text: Seq<char>,
    code: int,
    rest: Seq<char>,
    elapsed_ms: u64,
)
    requires
        s.phase == SessionPhase::Executing,
        s.reader_alive,
        s.buffer.len() == 0,
        elapsed_ms <= s.timeout_ms,
        i32::MIN <= code <= i32::MAX,
        !occurs(rest, OSC_CMD_FINISHED_PREFIX@),
        concat(chunks) == text + finished_marker(code) + rest,
    ensures
        fed_all(s, chunks).polled(elapsed_ms).1 == (ExecStepView::Done {
            output: trim_end(text),
            exit_code: code,
        }),
        fed_all(s, chunks).polled(elapsed_ms).0.phase == SessionPhase::Ready,
        fed_all(s, chunks).polled(elapsed_ms).0.buffer.len() == 0,
{
    law_chunks_concatenate(s, chunks);
    law_round_trip(text, code, rest);
    assert(s.buffer + concat(chunks) =~= concat(chunks));
}

} // verus!
