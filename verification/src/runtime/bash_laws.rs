//! What holds of the log of every command service.

use crate::models::{BashEventView, Timestamp};
use crate::runtime::bash::{
    commands_come_first, consistent, output_count, output_of, outputs_are_single,
    outputs_have_commands, recorded, rejection, ExecutionOutcomeView,
};
use crate::runtime::event_store::{
    command_time, count_at_or_before, has_command, has_id, has_output, lemma_command_time,
    selected,
};
use crate::runtime::event_store_laws::{
    lemma_insert_keeps_order, lemma_selection, lemma_sorted_split, origin,
};
use vstd::prelude::*;

verus! {

/// A command has no output in the log exactly if the count of its outputs is 0.
pub proof fn lemma_output_count_zero(log: Seq<BashEventView>, command_id: u128)
    ensures
        has_output(log, command_id) <==> output_count(log, command_id) > 0,
    decreases log.len(),
{
    if log.len() > 0 {
        let rest = log.drop_last();
        lemma_output_count_zero(rest, command_id);
        if has_output(rest, command_id) {
            let j = choose|j: int| 0 <= j < rest.len() && (#[trigger] rest[j]).is_output_of(command_id);
            assert(log[j].is_output_of(command_id));
        }
        if has_output(log, command_id) && !log.last().is_output_of(command_id) {
            let j = choose|j: int| 0 <= j < log.len() && (#[trigger] log[j]).is_output_of(command_id);
            assert(rest[j].is_output_of(command_id));
        }
        if log.last().is_output_of(command_id) {
            assert(log[log.len() - 1].is_output_of(command_id));
        }
    }
}

/// An event that is put into the log adds one to the count of a command's
/// outputs if it is an output of that command, and nothing otherwise.
pub proof fn lemma_output_count_insert(
    log: Seq<BashEventView>,
    k: int,
    entry: BashEventView,
    command_id: u128,
)
    requires
        0 <= k <= log.len(),
    ensures
        output_count(log.insert(k, entry), command_id) == output_count(log, command_id) + (if entry.is_output_of(
            command_id,
        ) {
            1nat
        } else {
            0nat
        }),
    decreases log.len(),
{
    let after = log.insert(k, entry);
    if k == log.len() {
        assert(after.drop_last() =~= log);
        assert(after.last() == entry);
    } else {
        let rest = log.drop_last();
        lemma_output_count_insert(rest, k, entry, command_id);
        assert(after.drop_last() =~= rest.insert(k, entry));
        assert(after.last() == log.last());
    }
}

/// The log stays consistent when an event that the service does not refuse
/// is put behind the events that happened at or before its timestamp.
pub proof fn lemma_insert_keeps_consistent(log: Seq<BashEventView>, k: int, entry: BashEventView)
    requires
        consistent(log),
        rejection(log, entry) is None,
        k == count_at_or_before(log, entry.timestamp()),
    ensures
        consistent(log.insert(k, entry)),
{
    let t = entry.timestamp();
    let after = log.insert(k, entry);
    lemma_sorted_split(log, t);
    lemma_insert_keeps_order(log, entry);
    assert forall|c: u128| has_command(log, c) implies has_command(after, c) by {
        let i = choose|i: int| 0 <= i < log.len() && (#[trigger] log[i]).is_command(c);
        let a = if i < k {
            i
        } else {
            i + 1
        };
        assert(after[a].is_command(c));
    }
    assert(outputs_have_commands(after)) by {
        assert forall|j: int| 0 <= j < after.len() && (#[trigger] after[j]) is BashOutput implies has_command(
            after,
            after[j].command_id(),
        ) by {
            if j != k {
                let b = if j < k {
                    j
                } else {
                    j - 1
                };
                assert(log[b] is BashOutput);
                assert(has_command(log, log[b].command_id()));
            } else {
                assert(has_command(log, entry.command_id()));
            }
        }
    }
    assert(outputs_are_single(after)) by {
        assert forall|i: int, j: int|
            0 <= i < j < after.len() && (#[trigger] after[i]) is BashOutput && (#[trigger] after[j])
                is BashOutput implies after[i].command_id() != after[j].command_id() by {
            let a = if i < k {
                i
            } else {
                i - 1
            };
            let b = if j < k {
                j
            } else {
                j - 1
            };
            if i != k && j != k {
                assert(log[a] is BashOutput && log[b] is BashOutput);
            } else if i == k {
                if after[i].command_id() == after[j].command_id() {
                    assert(log[b].is_output_of(entry.command_id()));
                }
            } else {
                if after[i].command_id() == after[j].command_id() {
                    assert(log[a].is_output_of(entry.command_id()));
                }
            }
        }
    }
    assert(commands_come_first(after)) by {
        assert forall|i: int, j: int|
            0 <= i < after.len() && 0 <= j < after.len() && (#[trigger] after[i]) is BashCommand && (
            #[trigger] after[j]).is_output_of(after[i].id()) implies i < j && after[i].timestamp()
                .at_or_before(after[j].timestamp()) by {
            let a = if i < k {
                i
            } else {
                i - 1
            };
            let b = if j < k {
                j
            } else {
                j - 1
            };
            if i != k && j != k {
                assert(log[a] is BashCommand);
                assert(log[b].is_output_of(log[a].id()));
                assert(a < b);
            } else if i == k && j != k {
                assert(log[b] is BashOutput);
                assert(has_command(log, log[b].command_id()));
                let c = choose|c: int|
                    0 <= c < log.len() && (#[trigger] log[c]).is_command(log[b].command_id());
                assert(log[c].id() == entry.id());
            } else if i != k && j == k {
                assert(log[a].is_command(entry.command_id()));
                lemma_command_time(log, entry.command_id(), a);
                assert(log[a].timestamp().at_or_before(t));
                if a >= k {
                    assert(t.before(log[a].timestamp()));
                }
            }
        }
    }
}

/// The service keeps its log consistent: whatever event it is asked to
/// record, the log is consistent afterwards if it was before.
pub proof fn law_log_stays_consistent(log: Seq<BashEventView>, event: BashEventView)
    requires
        consistent(log),
    ensures
        consistent(recorded(log, event)),
{
    if rejection(log, event) is None {
        lemma_insert_keeps_consistent(
            log,
            count_at_or_before(log, event.timestamp()) as int,
            event,
        );
    }
}

/// No command ever has more than one output in the log of a service.
pub proof fn law_at_most_one_output(log: Seq<BashEventView>, command_id: u128)
    requires
        consistent(log),
    ensures
        output_count(log, command_id) <= 1,
    decreases log.len(),
{
    if log.len() > 0 {
        let rest = log.drop_last();
        assert forall|i: int| 0 <= i < rest.len() implies rest[i] == log[i] by {}
        lemma_single_outputs_count(log, command_id);
    }
}

/// Where no command has two outputs, the count of a command's outputs is at most 1.
proof fn lemma_single_outputs_count(log: Seq<BashEventView>, command_id: u128)
    requires
        outputs_are_single(log),
    ensures
        output_count(log, command_id) <= 1,
    decreases log.len(),
{
    if log.len() > 0 {
        let rest = log.drop_last();
        assert forall|i: int| 0 <= i < rest.len() implies rest[i] == log[i] by {}
        assert(outputs_are_single(rest));
        lemma_single_outputs_count(rest, command_id);
        if log.last().is_output_of(command_id) {
            lemma_output_count_zero(rest, command_id);
            if has_output(rest, command_id) {
                let j = choose|j: int|
                    0 <= j < rest.len() && (#[trigger] rest[j]).is_output_of(command_id);
                assert(log[j] is BashOutput && log[log.len() - 1] is BashOutput);
            }
        }
    }
}

/// Every command that was submitted gets exactly one output, however its
/// run ends: once the outcome of a command of the log that has no output yet
/// is recorded under a new identifier, the log holds exactly one output of
/// the command, whether the run completed, failed or the worker broke down.
pub proof fn law_exactly_one_output(
    log: Seq<BashEventView>,
    command_id: u128,
    outcome: ExecutionOutcomeView,
    id: u128,
    now: Timestamp,
)
    requires
        consistent(log),
        has_command(log, command_id),
        !has_output(log, command_id),
        !now.before(command_time(log, command_id)),
        !has_id(log, id),
    ensures
        output_count(
            recorded(log, BashEventView::BashOutput(output_of(command_id, outcome, id, now))),
            command_id,
        ) == 1,
        consistent(
            recorded(log, BashEventView::BashOutput(output_of(command_id, outcome, id, now))),
        ),
{
    let entry = BashEventView::BashOutput(output_of(command_id, outcome, id, now));
    assert(entry.is_output_of(command_id));
    assert(entry.id() == id);
    assert(entry.timestamp() == now);
    assert(rejection(log, entry) is None);
    let k = count_at_or_before(log, now) as int;
    lemma_sorted_split(log, now);
    lemma_output_count_zero(log, command_id);
    lemma_output_count_insert(log, k, entry, command_id);
    law_log_stays_consistent(log, entry);
}

/// Once a command has its output, the service records no second one:
/// whatever event it is asked to record, the count of the command's outputs
/// stays 1.
pub proof fn law_output_is_final(log: Seq<BashEventView>, command_id: u128, event: BashEventView)
    requires
        consistent(log),
        output_count(log, command_id) == 1,
    ensures
        output_count(recorded(log, event), command_id) == 1,
{
    if rejection(log, event) is None {
        let k = count_at_or_before(log, event.timestamp()) as int;
        lemma_sorted_split(log, event.timestamp());
        lemma_output_count_zero(log, command_id);
        lemma_output_count_insert(log, k, event, command_id);
    }
}

/// In the answer to a query for a command, the command stands before its
/// output and is stamped no later.
pub proof fn law_command_before_output(log: Seq<BashEventView>, command_id: u128, i: int, j: int)
    requires
        consistent(log),
        0 <= i < selected(log, Some(command_id)).len(),
        0 <= j < selected(log, Some(command_id)).len(),
        selected(log, Some(command_id))[i].is_command(command_id),
        selected(log, Some(command_id))[j].is_output_of(command_id),
    ensures
        i < j,
        selected(log, Some(command_id))[i].timestamp().at_or_before(
            selected(log, Some(command_id))[j].timestamp(),
        ),
{
    let filter = Some(command_id);
    lemma_selection(log, filter);
    let a = origin(log, filter, i);
    let b = origin(log, filter, j);
    assert(log[a] is BashCommand);
    assert(log[b].is_output_of(log[a].id()));
    assert(a < b);
    if j < i {
        assert(origin(log, filter, j) < origin(log, filter, i));
    }
}

} // verus!
