//! The event log: an append-only store of command and output events, kept
//! in the order of their timestamps and read back whole or by command.

use crate::models::{events_of, BashEvent, BashEventPage, BashEventView, Timestamp};
use crate::runtime::event_store_laws::{
    law_query_in_time_order, lemma_insert_keeps_order, lemma_selected_answer,
};
use vstd::prelude::*;

verus! {

/// The timestamps of `log` never decrease.
pub open spec fn sorted(log: Seq<BashEventView>) -> bool {
    forall|i: int, j: int|
        0 <= i <= j < log.len() ==> (#[trigger] log[i]).timestamp().at_or_before(
            (#[trigger] log[j]).timestamp(),
        )
}

/// No two events of `log` have the same identifier.
pub open spec fn distinct_ids(log: Seq<BashEventView>) -> bool {
    forall|i: int, j: int|
        0 <= i < j < log.len() ==> (#[trigger] log[i]).id() != (#[trigger] log[j]).id()
}

/// Some event of `log` has the identifier `id`.
pub open spec fn has_id(log: Seq<BashEventView>, id: u128) -> bool {
    exists|i: int| 0 <= i < log.len() && (#[trigger] log[i]).id() == id
}

/// The command `command_id` stands in `log`.
pub open spec fn has_command(log: Seq<BashEventView>, command_id: u128) -> bool {
    exists|i: int| 0 <= i < log.len() && (#[trigger] log[i]).is_command(command_id)
}

/// When the command `command_id` of `log` was submitted (arbitrary where
/// `log` holds no such command).
pub open spec fn command_time(log: Seq<BashEventView>, command_id: u128) -> Timestamp {
    let i = choose|i: int| 0 <= i < log.len() && (#[trigger] log[i]).is_command(command_id);
    log[i].timestamp()
}

/// In a log without an identifier that occurs twice, the time of a command
/// is the timestamp of the one event that is this command.
pub proof fn lemma_command_time(log: Seq<BashEventView>, command_id: u128, at: int)
    requires
        distinct_ids(log),
        0 <= at < log.len(),
        log[at].is_command(command_id),
    ensures
        command_time(log, command_id) == log[at].timestamp(),
{
    let i = choose|i: int| 0 <= i < log.len() && (#[trigger] log[i]).is_command(command_id);
    if i < at {
        assert(log[i].id() != log[at].id());
    }
    if at < i {
        assert(log[at].id() != log[i].id());
    }
}

/// An output of the command `command_id` stands in `log`.
pub open spec fn has_output(log: Seq<BashEventView>, command_id: u128) -> bool {
    exists|i: int| 0 <= i < log.len() && (#[trigger] log[i]).is_output_of(command_id)
}

/// How many events of `log` happened at or before `t`. In a sorted log this
/// is where an event that happened at `t` goes: behind all that happened no
/// later than it.
pub open spec fn count_at_or_before(log: Seq<BashEventView>, t: Timestamp) -> nat
    decreases log.len(),
{
    if log.len() == 0 {
        0
    } else if log.last().timestamp().at_or_before(t) {
        count_at_or_before(log.drop_last(), t) + 1
    } else {
        count_at_or_before(log.drop_last(), t)
    }
}

/// The event answers a query for `command_id`: every event answers a query
/// for all, and the events of a command answer a query for that command.
pub open spec fn answers(event: BashEventView, command_id: Option<u128>) -> bool {
    match command_id {
        Some(id) => event.command_id() == id,
        None => true,
    }
}

/// The events of `log` that answer a query for `command_id`, in the order of `log`.
pub open spec fn selected(log: Seq<BashEventView>, command_id: Option<u128>) -> Seq<BashEventView>
    decreases log.len(),
{
    if log.len() == 0 {
        Seq::empty()
    } else if answers(log.last(), command_id) {
        selected(log.drop_last(), command_id).push(log.last())
    } else {
        selected(log.drop_last(), command_id)
    }
}

/// Where a log splits into the events at or before `t` and those after it,
/// `count_at_or_before` counts the first part.
pub proof fn lemma_count_at_split(log: Seq<BashEventView>, t: Timestamp, k: int)
    requires
        0 <= k <= log.len(),
        forall|i: int| 0 <= i < k ==> (#[trigger] log[i]).timestamp().at_or_before(t),
        forall|i: int| k <= i < log.len() ==> t.before((#[trigger] log[i]).timestamp()),
    ensures
        count_at_or_before(log, t) == k,
    decreases log.len(),
{
    if log.len() > 0 {
        let rest = log.drop_last();
        assert forall|i: int| 0 <= i < rest.len() implies rest[i] == log[i] by {}
        if k == log.len() {
            assert(log[k - 1].timestamp().at_or_before(t));
            lemma_count_at_split(rest, t, k - 1);
        } else {
            assert(t.before(log[log.len() - 1].timestamp()));
            lemma_count_at_split(rest, t, k);
        }
    }
}

/// Why the log refused an event.
#[derive(Clone, Copy, Debug, PartialEq, Eq, Structural)]
pub enum StoreError {
    /// The log holds an event with the same identifier.
    DuplicateId,
}

/// An append-only log of events, in the order of their timestamps; events
/// with equal timestamps stand in the order in which they were appended.
pub struct EventStore {
    events: Vec<BashEvent>,
}

impl View for EventStore {
    type V = Seq<BashEventView>;

    closed spec fn view(&self) -> Seq<BashEventView> {
        events_of(self.events@)
    }
}

impl EventStore {
    /// The log is in order and its identifiers are distinct.
    #[verifier::type_invariant]
    pub open spec fn wf(&self) -> bool {
        sorted(self@) && distinct_ids(self@)
    }

    /// An empty log.
    pub fn new() -> (store: Self)
        ensures
            store@ == Seq::<BashEventView>::empty(),
    {
        let store = EventStore { events: Vec::new() };
        assert(store@ =~= Seq::<BashEventView>::empty());
        store
    }

    /// The number of events in the log.
    pub fn len(&self) -> (n: usize)
        ensures
            n == self@.len(),
    {
        self.events.len()
    }

    /// Whether the log holds an event with the identifier `id`.
    pub fn contains_id(&self, id: u128) -> (b: bool)
        ensures
            b == has_id(self@, id),
    {
        let mut i: usize = 0;
        while i < self.events.len()
            invariant
                i <= self.events@.len(),
                forall|j: int| 0 <= j < i ==> (#[trigger] self@[j]).id() != id,
            decreases self.events@.len() - i,
        {
            if self.events[i].id() == id {
                assert(self@[i as int].id() == id);
                return true;
            }
            i += 1;
        }
        false
    }

    /// Whether the log holds the command `command_id`.
    pub fn contains_command(&self, command_id: u128) -> (b: bool)
        ensures
            b == has_command(self@, command_id),
    {
        let mut i: usize = 0;
        while i < self.events.len()
            invariant
                i <= self.events@.len(),
                forall|j: int| 0 <= j < i ==> !(#[trigger] self@[j]).is_command(command_id),
            decreases self.events@.len() - i,
        {
            if let BashEvent::BashCommand(c) = &self.events[i] {
                if c.id == command_id {
                    assert(self@[i as int].is_command(command_id));
                    return true;
                }
            }
            i += 1;
        }
        false
    }

    /// When the command `command_id` was submitted, if the log holds it.
    pub fn command_timestamp(&self, command_id: u128) -> (t: Option<Timestamp>)
        ensures
            match t {
                Some(t) => has_command(self@, command_id) && t == command_time(self@, command_id),
                None => !has_command(self@, command_id),
            },
    {
        proof {
            use_type_invariant(self);
        }
        let mut i: usize = 0;
        while i < self.events.len()
            invariant
                i <= self.events@.len(),
                distinct_ids(self@),
                forall|j: int| 0 <= j < i ==> !(#[trigger] self@[j]).is_command(command_id),
            decreases self.events@.len() - i,
        {
            if let BashEvent::BashCommand(c) = &self.events[i] {
                if c.id == command_id {
                    proof {
                        assert(self@[i as int].is_command(command_id));
                        lemma_command_time(self@, command_id, i as int);
                    }
                    return Some(c.timestamp);
                }
            }
            i += 1;
        }
        None
    }

    /// Whether the log holds an output of the command `command_id`.
    pub fn contains_output_of(&self, command_id: u128) -> (b: bool)
        ensures
            b == has_output(self@, command_id),
    {
        let mut i: usize = 0;
        while i < self.events.len()
            invariant
                i <= self.events@.len(),
                forall|j: int| 0 <= j < i ==> !(#[trigger] self@[j]).is_output_of(command_id),
            decreases self.events@.len() - i,
        {
            if let BashEvent::BashOutput(o) = &self.events[i] {
                if o.command_id == command_id {
                    assert(self@[i as int].is_output_of(command_id));
                    return true;
                }
            }
            i += 1;
        }
        false
    }

    /// Appends an event. The event goes behind all events that happened at
    /// or before its own timestamp, whenever it is appended. An event whose
    /// identifier the log already holds is refused, and the log stays as it
    /// was.
    pub fn append(&mut self, event: BashEvent) -> (r: Result<(), StoreError>)
        ensures
            sorted(old(self)@),
            distinct_ids(old(self)@),
            sorted(final(self)@),
            distinct_ids(final(self)@),
            match r {
                Ok(()) => {
                    &&& !has_id(old(self)@, event@.id())
                    &&& final(self)@ == old(self)@.insert(
                        count_at_or_before(old(self)@, event@.timestamp()) as int,
                        event@,
                    )
                },
                Err(StoreError::DuplicateId) => {
                    &&& has_id(old(self)@, event@.id())
                    &&& final(self)@ == old(self)@
                },
            },
    {
        proof {
            use_type_invariant(&*self);
        }
        if self.contains_id(event.id()) {
            return Err(StoreError::DuplicateId);
        }
        let t = event.timestamp();
        let mut k: usize = self.events.len();
        while k > 0 && !self.events[k - 1].timestamp().is_at_or_before(&t)
            invariant
                k <= self.events@.len(),
                forall|i: int|
                    k <= i < self.events@.len() ==> t.before((#[trigger] self@[i]).timestamp()),
            decreases k,
        {
            k -= 1;
        }
        let ghost before = self@;
        let ghost entry = event@;
        proof {
            assert forall|i: int| 0 <= i < k implies (#[trigger] before[i]).timestamp()
                .at_or_before(t) by {
                assert(before[k - 1].timestamp().at_or_before(t));
                assert(before[i].timestamp().at_or_before(before[k - 1].timestamp()));
            }
            lemma_count_at_split(before, t, k as int);
            lemma_insert_keeps_order(before, entry);
        }
        let mut taken = EventStore::new();
        core::mem::swap(self, &mut taken);
        let mut events = taken.events;
        events.insert(k, event);
        assert(events_of(events@) =~= before.insert(k as int, entry));
        *self = EventStore { events };
        Ok(())
    }

    /// The events that answer a query for `command_id`, in the order of
    /// their timestamps: all events for `None`, the events of one command
    /// for its identifier.
    pub fn query(&self, command_id: Option<u128>) -> (page: BashEventPage)
        ensures
            events_of(page.items@) == selected(self@, command_id),
            page.next_page_id is None,
            sorted(events_of(page.items@)),
            forall|k: int|
                0 <= k < page.items@.len() ==> answers((#[trigger] page.items@[k])@, command_id),
    {
        proof {
            use_type_invariant(self);
            law_query_in_time_order(self@, command_id);
            assert forall|k: int| 0 <= k < selected(self@, command_id).len() implies answers(
                #[trigger] selected(self@, command_id)[k],
                command_id,
            ) by {
                lemma_selected_answer(self@, command_id, k);
            }
        }
        let mut items: Vec<BashEvent> = Vec::new();
        let mut i: usize = 0;
        assert(self@.take(0) =~= Seq::<BashEventView>::empty());
        while i < self.events.len()
            invariant
                i <= self.events@.len(),
                events_of(items@) == selected(self@.take(i as int), command_id),
            decreases self.events@.len() - i,
        {
            let event = &self.events[i];
            let wanted = match command_id {
                Some(id) => event.command_id() == id,
                None => true,
            };
            proof {
                let next = self@.take(i + 1);
                assert(next.drop_last() =~= self@.take(i as int));
                assert(next.last() == event@);
            }
            if wanted {
                let ghost shown = events_of(items@);
                items.push(event.clone());
                assert(events_of(items@) =~= shown.push(event@));
            }
            i += 1;
        }
        assert(self@.take(i as int) =~= self@);
        assert forall|k: int| 0 <= k < items@.len() implies answers(
            (#[trigger] items@[k])@,
            command_id,
        ) by {
            assert(events_of(items@)[k] == items@[k]@);
        }
        BashEventPage { items, next_page_id: None }
    }
}

} // verus!
