//! What holds of every query of the event log.

use crate::models::{BashEventView, Timestamp};
use crate::runtime::event_store::{
    answers, count_at_or_before, distinct_ids, has_id, lemma_count_at_split, selected, sorted,
};
use vstd::prelude::*;

verus! {

/// In a log that is in the order of time, the events at or before `t` come
/// first: `count_at_or_before` is the index where those after `t` begin.
pub proof fn lemma_sorted_split(log: Seq<BashEventView>, t: Timestamp)
    requires
        sorted(log),
    ensures
        0 <= count_at_or_before(log, t) <= log.len(),
        forall|i: int|
            0 <= i < count_at_or_before(log, t) ==> (#[trigger] log[i]).timestamp().at_or_before(t),
        forall|i: int|
            count_at_or_before(log, t) <= i < log.len() ==> t.before(
                (#[trigger] log[i]).timestamp(),
            ),
    decreases log.len(),
{
    if log.len() > 0 {
        let rest = log.drop_last();
        let last = log[log.len() - 1];
        assert forall|i: int| 0 <= i < rest.len() implies rest[i] == log[i] by {}
        assert(sorted(rest));
        if last.timestamp().at_or_before(t) {
            assert forall|i: int| 0 <= i < log.len() implies (#[trigger] log[i]).timestamp()
                .at_or_before(t) by {
                assert(log[i].timestamp().at_or_before(last.timestamp()));
            }
            lemma_count_at_split(log, t, log.len() as int);
        } else {
            lemma_sorted_split(rest, t);
        }
    }
}

/// An event with a new identifier, put where the events after its
/// timestamp begin, leaves the log in the order of time and without an
/// identifier that occurs twice.
pub proof fn lemma_insert_keeps_order(log: Seq<BashEventView>, entry: BashEventView)
    requires
        sorted(log),
        distinct_ids(log),
        !has_id(log, entry.id()),
    ensures
        sorted(log.insert(count_at_or_before(log, entry.timestamp()) as int, entry)),
        distinct_ids(log.insert(count_at_or_before(log, entry.timestamp()) as int, entry)),
{
    let t = entry.timestamp();
    let k = count_at_or_before(log, t) as int;
    let after = log.insert(k, entry);
    lemma_sorted_split(log, t);
    assert forall|i: int, j: int| 0 <= i <= j < after.len() implies (#[trigger] after[i])
        .timestamp().at_or_before((#[trigger] after[j]).timestamp()) by {
        let a = if i < k {
            i
        } else {
            i - 1
        };
        let b = if j < k {
            j
        } else {
            j - 1
        };
        if i != k && j != k {
            assert(log[a].timestamp().at_or_before(log[b].timestamp()));
        } else if i == k && j != k {
            assert(t.before(log[b].timestamp()));
        } else if i != k && j == k {
            assert(log[a].timestamp().at_or_before(t));
        }
    }
    assert forall|i: int, j: int| 0 <= i < j < after.len() implies (#[trigger] after[i]).id() != (
    #[trigger] after[j]).id() by {
        let a = if i < k {
            i
        } else {
            i - 1
        };
        let b = if j < k {
            j
        } else {
            j - 1
        };
        if i != k && j != k {
            assert(log[a].id() != log[b].id());
        } else if i == k {
            assert(log[b].id() != entry.id());
        } else {
            assert(log[a].id() != entry.id());
        }
    }
}

/// Where in `log` the event stands that is number `k` among the selected ones.
pub open spec fn origin(log: Seq<BashEventView>, command_id: Option<u128>, k: int) -> int
    decreases log.len(),
{
    if log.len() == 0 {
        0
    } else if answers(log.last(), command_id) && k == selected(log.drop_last(), command_id).len() {
        log.len() - 1
    } else {
        origin(log.drop_last(), command_id, k)
    }
}

/// A selection takes events out of the log and leaves the others in place:
/// each selected event is the event at its origin, origins rise with the
/// place in the selection, and every event of the log that answers the query
/// is the origin of a selected one.
pub proof fn lemma_selection(log: Seq<BashEventView>, command_id: Option<u128>)
    ensures
        selected(log, command_id).len() <= log.len(),
        forall|k: int|
            0 <= k < selected(log, command_id).len() ==> {
                &&& 0 <= #[trigger] origin(log, command_id, k) < log.len()
                &&& log[origin(log, command_id, k)] == selected(log, command_id)[k]
            },
        forall|k1: int, k2: int|
            0 <= k1 < k2 < selected(log, command_id).len() ==> #[trigger] origin(
                log,
                command_id,
                k1,
            ) < #[trigger] origin(log, command_id, k2),
        forall|i: int|
            0 <= i < log.len() && answers(#[trigger] log[i], command_id) ==> exists|k: int|
                0 <= k < selected(log, command_id).len() && origin(log, command_id, k) == i,
    decreases log.len(),
{
    if log.len() > 0 {
        let rest = log.drop_last();
        let shown = selected(log, command_id);
        let before = selected(rest, command_id);
        lemma_selection(rest, command_id);
        assert forall|k: int| 0 <= k < shown.len() implies {
            &&& 0 <= #[trigger] origin(log, command_id, k) < log.len()
            &&& log[origin(log, command_id, k)] == shown[k]
        } by {
            if k < before.len() {
                assert(origin(log, command_id, k) == origin(rest, command_id, k));
                assert(rest[origin(rest, command_id, k)] == before[k]);
            }
        }
        assert forall|k1: int, k2: int| 0 <= k1 < k2 < shown.len() implies #[trigger] origin(
            log,
            command_id,
            k1,
        ) < #[trigger] origin(log, command_id, k2) by {
            assert(origin(log, command_id, k1) == origin(rest, command_id, k1));
            if k2 < before.len() {
                assert(origin(log, command_id, k2) == origin(rest, command_id, k2));
            }
        }
        assert forall|i: int|
            0 <= i < log.len() && answers(#[trigger] log[i], command_id) implies exists|k: int|
            0 <= k < shown.len() && origin(log, command_id, k) == i by {
            if i < log.len() - 1 {
                assert(rest[i] == log[i]);
                let k = choose|k: int|
                    0 <= k < before.len() && origin(rest, command_id, k) == i;
                assert(origin(log, command_id, k) == i);
            } else {
                let k = before.len() as int;
                assert(origin(log, command_id, k) == i);
            }
        }
    }
}

/// A query answers in the order of time: the timestamps of the events it
/// returns never decrease, whether it asks for all or for one command.
pub proof fn law_query_in_time_order(log: Seq<BashEventView>, command_id: Option<u128>)
    requires
        sorted(log),
    ensures
        sorted(selected(log, command_id)),
{
    let shown = selected(log, command_id);
    lemma_selection(log, command_id);
    assert forall|i: int, j: int| 0 <= i <= j < shown.len() implies (#[trigger] shown[i])
        .timestamp().at_or_before((#[trigger] shown[j]).timestamp()) by {
        let a = origin(log, command_id, i);
        let b = origin(log, command_id, j);
        if i < j {
            assert(a < b);
        }
        assert(log[a].timestamp().at_or_before(log[b].timestamp()));
    }
}

/// A query for one command returns the events of that command and no
/// others: each event it returns is the command itself or an output of it,
/// and it leaves out no such event of the log.
pub proof fn law_query_by_command(log: Seq<BashEventView>, command_id: u128)
    ensures
        forall|k: int|
            0 <= k < selected(log, Some(command_id)).len() ==> {
                let event = #[trigger] selected(log, Some(command_id))[k];
                event.is_command(command_id) || event.is_output_of(command_id)
            },
        forall|i: int|
            0 <= i < log.len() && ((#[trigger] log[i]).is_command(command_id) || log[i].is_output_of(
                command_id,
            )) ==> selected(log, Some(command_id)).contains(log[i]),
{
    let shown = selected(log, Some(command_id));
    lemma_selection(log, Some(command_id));
    assert forall|k: int| 0 <= k < shown.len() implies {
        let event = #[trigger] shown[k];
        event.is_command(command_id) || event.is_output_of(command_id)
    } by {
        let a = origin(log, Some(command_id), k);
        assert(log[a] == shown[k]);
        lemma_selected_answer(log, Some(command_id), k);
    }
    assert forall|i: int|
        0 <= i < log.len() && ((#[trigger] log[i]).is_command(command_id) || log[i].is_output_of(
            command_id,
        )) implies shown.contains(log[i]) by {
        assert(answers(log[i], Some(command_id)));
        let k = choose|k: int| 0 <= k < shown.len() && origin(log, Some(command_id), k) == i;
        assert(shown[k] == log[i]);
    }
}

/// Each selected event answers the query.
pub proof fn lemma_selected_answer(log: Seq<BashEventView>, command_id: Option<u128>, k: int)
    requires
        0 <= k < selected(log, command_id).len(),
    ensures
        answers(selected(log, command_id)[k], command_id),
    decreases log.len(),
{
    if log.len() > 0 {
        let before = selected(log.drop_last(), command_id);
        if k < before.len() {
            lemma_selected_answer(log.drop_last(), command_id, k);
        }
    }
}

/// A query for all returns the whole log.
pub proof fn law_query_all(log: Seq<BashEventView>)
    ensures
        selected(log, None) == log,
    decreases log.len(),
{
    if log.len() > 0 {
        law_query_all(log.drop_last());
        assert(log.drop_last().push(log.last()) =~= log);
    }
}

} // verus!
