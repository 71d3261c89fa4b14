//! The shape in which an event is persisted: its identifier, its timestamp
//! and the identifier of its command as text, and the name of its kind.

use crate::models::{text_of, BashEvent, BashEventView, Timestamp};
use vstd::arithmetic::power::pow;
use vstd::prelude::*;

verus! {

/// The hexadecimal digit for `d`, in lower case.
pub open spec fn hex_digit(d: nat) -> char
    recommends
        d < 16,
{
    if d < 10 {
        ('0' as nat + d) as char
    } else {
        ('a' as nat + d - 10) as char
    }
}

/// The 32 hexadecimal digits of `id`, the most significant first, in lower case.
pub open spec fn simple_hex(id: u128) -> Seq<char> {
    Seq::new(32, |i: int| hex_digit(((id as int / pow(16, (31 - i) as nat)) % 16) as nat))
}

/// The date and time of a timestamp as RFC 3339 writes it, as chrono gives
/// it; `None` for a timestamp that chrono has no date for.
pub uninterp spec fn rfc3339_text(secs: i64, nanos: u32) -> Option<Seq<char>>;

/// `uuid::Uuid::simple` of `uuid::Uuid::from_u128`, as a string: the
/// identifier as 32 hexadecimal digits in lower case, without hyphens.
#[verifier::external_body]
fn simple_id(id: u128) -> (text: String)
    ensures
        text@ == simple_hex(id),
{
    uuid::Uuid::from_u128(id).simple().to_string()
}

/// `chrono::DateTime::to_rfc3339` of `chrono::DateTime::from_timestamp`: the
/// timestamp as a date and time in UTC. chrono has a date for every
/// timestamp of the years 1970 to 9999 whose nanoseconds are less than a
/// second; for others it may have none.
#[verifier::external_body]
fn rfc3339(t: &Timestamp) -> (text: Option<String>)
    ensures
        text_of(text) == rfc3339_text(t.secs, t.nanos),
        0 <= t.secs <= 253_402_300_799 && t.nanos < 1_000_000_000 ==> text is Some,
{
    match chrono::DateTime::from_timestamp(t.secs, t.nanos) {
        Some(date) => Some(date.to_rfc3339()),
        None => None,
    }
}

/// An event as a row of the persisted log, without its payload.
#[derive(Clone, Debug, PartialEq, Eq)]
pub struct EventRow {
    /// The event's identifier, as 32 hexadecimal digits.
    pub id: String,
    /// The event's timestamp, as RFC 3339 writes it.
    pub timestamp: String,
    /// The identifier of the command that the event belongs to.
    pub command_id: String,
    /// `BashCommand` or `BashOutput`.
    pub event_type: String,
}

/// An `EventRow` as a mathematical value.
pub struct EventRowView {
    pub id: Seq<char>,
    pub timestamp: Seq<char>,
    pub command_id: Seq<char>,
    pub event_type: Seq<char>,
}

impl View for EventRow {
    type V = EventRowView;

    open spec fn view(&self) -> EventRowView {
        EventRowView {
            id: self.id@,
            timestamp: self.timestamp@,
            command_id: self.command_id@,
            event_type: self.event_type@,
        }
    }
}

/// The row that an event is persisted as, given its timestamp as text.
pub open spec fn row_of(event: BashEventView, timestamp: Seq<char>) -> EventRowView {
    EventRowView {
        id: simple_hex(event.id()),
        timestamp,
        command_id: simple_hex(event.command_id()),
        event_type: if event is BashCommand {
            "BashCommand"@
        } else {
            "BashOutput"@
        },
    }
}

/// The row that an event is persisted as, given its timestamp as text: a
/// command is filed under its own identifier, an output under that of its
/// command.
pub fn event_row_at(event: &BashEvent, timestamp: String) -> (row: EventRow)
    ensures
        row@ == row_of(event@, timestamp@),
{
    EventRow {
        id: simple_id(event.id()),
        timestamp,
        command_id: simple_id(event.command_id()),
        event_type: event.event_type().to_owned(),
    }
}

/// The row that an event is persisted as, or `None` where its timestamp has
/// no date.
pub fn event_row(event: &BashEvent) -> (row: Option<EventRow>)
    ensures
        match row {
            Some(row) => rfc3339_text(event@.timestamp().secs, event@.timestamp().nanos) == Some(
                row@.timestamp,
            ) && row@ == row_of(event@, row@.timestamp),
            None => rfc3339_text(event@.timestamp().secs, event@.timestamp().nanos) is None,
        },
        0 <= event@.timestamp().secs <= 253_402_300_799 && event@.timestamp().nanos
            < 1_000_000_000 ==> row is Some,
{
    let t = event.timestamp();
    match rfc3339(&t) {
        Some(timestamp) => Some(event_row_at(event, timestamp)),
        None => None,
    }
}

} // verus!
