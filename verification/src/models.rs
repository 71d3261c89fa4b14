//! The data that the command service records: commands, their outputs, and
//! the events that carry them, each with its mathematical value.

use vstd::prelude::*;

verus! {

/// A point in time: seconds since the Unix epoch, and nanoseconds into that
/// second. Points in time are ordered by seconds, then by nanoseconds.
#[derive(Clone, Copy, Debug, PartialEq, Eq, Structural)]
pub struct Timestamp {
    pub secs: i64,
    pub nanos: u32,
}

impl Timestamp {
    /// `self` is no later than `other`.
    pub open spec fn at_or_before(self, other: Timestamp) -> bool {
        self.secs < other.secs || (self.secs == other.secs && self.nanos <= other.nanos)
    }

    /// `self` is earlier than `other`.
    pub open spec fn before(self, other: Timestamp) -> bool {
        self.secs < other.secs || (self.secs == other.secs && self.nanos < other.nanos)
    }

    /// Whether `self` is no later than `other`.
    pub fn is_at_or_before(&self, other: &Timestamp) -> (b: bool)
        ensures
            b == self.at_or_before(*other),
            !b == other.before(*self),
    {
        self.secs < other.secs || (self.secs == other.secs && self.nanos <= other.nanos)
    }
}

/// The value of an optional string.
pub open spec fn text_of(s: Option<String>) -> Option<Seq<char>> {
    match s {
        Some(s) => Some(s@),
        None => None,
    }
}

/// A copy of an optional string.
pub fn clone_text(s: &Option<String>) -> (r: Option<String>)
    ensures
        text_of(r) == text_of(*s),
{
    match s {
        Some(s) => Some(s.clone()),
        None => None,
    }
}

/// The seconds that a command may run for where the request names none.
pub const DEFAULT_TIMEOUT_SECS: u64 = 300;

/// A request to run a command.
#[derive(Debug, PartialEq, Eq)]
pub struct ExecuteBashRequest {
    /// The command line.
    pub command: String,
    /// A working directory to run it in, if not the session's own.
    pub cwd: Option<String>,
    /// The seconds it may run for; 300 where absent.
    pub timeout: Option<u64>,
}

/// A command that was submitted.
#[derive(Debug, PartialEq, Eq)]
pub struct BashCommand {
    /// The command's identifier.
    pub id: u128,
    /// When it was submitted.
    pub timestamp: Timestamp,
    /// The command line.
    pub command: String,
    /// The working directory that was asked for.
    pub cwd: Option<String>,
    /// The seconds it may run for.
    pub timeout: u64,
}

/// A `BashCommand` as a mathematical value.
pub struct BashCommandView {
    pub id: u128,
    pub timestamp: Timestamp,
    pub command: Seq<char>,
    pub cwd: Option<Seq<char>>,
    pub timeout: u64,
}

impl View for BashCommand {
    type V = BashCommandView;

    open spec fn view(&self) -> BashCommandView {
        BashCommandView {
            id: self.id,
            timestamp: self.timestamp,
            command: self.command@,
            cwd: text_of(self.cwd),
            timeout: self.timeout,
        }
    }
}

impl Clone for BashCommand {
    fn clone(&self) -> (r: Self)
        ensures
            r@ == self@,
    {
        BashCommand {
            id: self.id,
            timestamp: self.timestamp,
            command: self.command.clone(),
            cwd: clone_text(&self.cwd),
            timeout: self.timeout,
        }
    }
}

impl BashCommand {
    /// The time the command may run for, in milliseconds; `None` where that
    /// number is more than a `u64` holds.
    pub fn timeout_ms(&self) -> (ms: Option<u64>)
        ensures
            match ms {
                Some(ms) => ms == self.timeout * 1000,
                None => self.timeout * 1000 > u64::MAX,
            },
    {
        self.timeout.checked_mul(1000)
    }
}

/// What a command wrote and how it ended.
#[derive(Debug, PartialEq, Eq)]
pub struct BashOutput {
    /// The output's identifier.
    pub id: u128,
    /// When the command ended.
    pub timestamp: Timestamp,
    /// The command that this is the output of.
    pub command_id: u128,
    /// The place of this output among the command's outputs; always 0.
    pub order: u64,
    /// The exit code; -1 where the command timed out or could not be run.
    pub exit_code: Option<i32>,
    /// What the command wrote.
    pub stdout: Option<String>,
    /// Why the command could not be run.
    pub stderr: Option<String>,
}

/// A `BashOutput` as a mathematical value.
pub struct BashOutputView {
    pub id: u128,
    pub timestamp: Timestamp,
    pub command_id: u128,
    pub order: u64,
    pub exit_code: Option<i32>,
    pub stdout: Option<Seq<char>>,
    pub stderr: Option<Seq<char>>,
}

impl View for BashOutput {
    type V = BashOutputView;

    open spec fn view(&self) -> BashOutputView {
        BashOutputView {
            id: self.id,
            timestamp: self.timestamp,
            command_id: self.command_id,
            order: self.order,
            exit_code: self.exit_code,
            stdout: text_of(self.stdout),
            stderr: text_of(self.stderr),
        }
    }
}

impl Clone for BashOutput {
    fn clone(&self) -> (r: Self)
        ensures
            r@ == self@,
    {
        BashOutput {
            id: self.id,
            timestamp: self.timestamp,
            command_id: self.command_id,
            order: self.order,
            exit_code: self.exit_code,
            stdout: clone_text(&self.stdout),
            stderr: clone_text(&self.stderr),
        }
    }
}

/// An entry of the event log: a command that was submitted, or the output
/// of one.
#[derive(Debug, PartialEq, Eq)]
pub enum BashEvent {
    BashCommand(BashCommand),
    BashOutput(BashOutput),
}

/// A `BashEvent` as a mathematical value.
pub enum BashEventView {
    BashCommand(BashCommandView),
    BashOutput(BashOutputView),
}

impl BashEventView {
    /// The event's own identifier.
    pub open spec fn id(self) -> u128 {
        match self {
            BashEventView::BashCommand(c) => c.id,
            BashEventView::BashOutput(o) => o.id,
        }
    }

    /// When the event happened.
    pub open spec fn timestamp(self) -> Timestamp {
        match self {
            BashEventView::BashCommand(c) => c.timestamp,
            BashEventView::BashOutput(o) => o.timestamp,
        }
    }

    /// The command that the event belongs to: a command belongs to itself.
    pub open spec fn command_id(self) -> u128 {
        match self {
            BashEventView::BashCommand(c) => c.id,
            BashEventView::BashOutput(o) => o.command_id,
        }
    }

    /// The event is the output of the command `command_id`.
    pub open spec fn is_output_of(self, command_id: u128) -> bool {
        self is BashOutput && self.command_id() == command_id
    }

    /// The event is the command `command_id`.
    pub open spec fn is_command(self, command_id: u128) -> bool {
        self is BashCommand && self.id() == command_id
    }
}

impl View for BashEvent {
    type V = BashEventView;

    open spec fn view(&self) -> BashEventView {
        match self {
            BashEvent::BashCommand(c) => BashEventView::BashCommand(c@),
            BashEvent::BashOutput(o) => BashEventView::BashOutput(o@),
        }
    }
}

impl Clone for BashEvent {
    fn clone(&self) -> (r: Self)
        ensures
            r@ == self@,
    {
        match self {
            BashEvent::BashCommand(c) => BashEvent::BashCommand(c.clone()),
            BashEvent::BashOutput(o) => BashEvent::BashOutput(o.clone()),
        }
    }
}

impl BashEvent {
    /// The event's own identifier.
    pub fn id(&self) -> (id: u128)
        ensures
            id == self@.id(),
    {
        match self {
            BashEvent::BashCommand(c) => c.id,
            BashEvent::BashOutput(o) => o.id,
        }
    }

    /// When the event happened.
    pub fn timestamp(&self) -> (t: Timestamp)
        ensures
            t == self@.timestamp(),
    {
        match self {
            BashEvent::BashCommand(c) => c.timestamp,
            BashEvent::BashOutput(o) => o.timestamp,
        }
    }

    /// The command that the event belongs to: a command belongs to itself.
    pub fn command_id(&self) -> (id: u128)
        ensures
            id == self@.command_id(),
    {
        match self {
            BashEvent::BashCommand(c) => c.id,
            BashEvent::BashOutput(o) => o.command_id,
        }
    }

    /// The name of the event's kind, as the log records it.
    pub fn event_type(&self) -> (name: &'static str)
        ensures
            name@ == (if self@ is BashCommand {
                "BashCommand"@
            } else {
                "BashOutput"@
            }),
    {
        match self {
            BashEvent::BashCommand(_) => "BashCommand",
            BashEvent::BashOutput(_) => "BashOutput",
        }
    }
}

/// The values of a run of events.
pub open spec fn events_of(items: Seq<BashEvent>) -> Seq<BashEventView> {
    Seq::new(items.len(), |i: int| items[i]@)
}

/// The answer to a query: events in the order of their timestamps.
#[derive(Debug, PartialEq, Eq)]
pub struct BashEventPage {
    /// The events.
    pub items: Vec<BashEvent>,
    /// Where the next page starts; always absent, since a page holds all.
    pub next_page_id: Option<String>,
}

} // verus!
