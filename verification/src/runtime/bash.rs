//! The command service: it takes requests to run commands, records each
//! command and then its one output in the event log, and answers queries
//! from the log.

use crate::models::{
    events_of, text_of, BashCommand, BashCommandView, BashEvent, BashEventPage, BashEventView,
    BashOutput, BashOutputView, ExecuteBashRequest, Timestamp, DEFAULT_TIMEOUT_SECS,
};
use crate::runtime::bash_laws::{
    lemma_insert_keeps_consistent, lemma_output_count_insert, lemma_output_count_zero,
};
use crate::runtime::event_store::{
    answers, command_time, count_at_or_before, distinct_ids, has_command, has_id, has_output,
    selected, sorted, EventStore, StoreError,
};
use crate::runtime::event_store_laws::lemma_sorted_split;
use vstd::prelude::*;
use vstd::string::StringExecFns;

verus! {

/// How the run of a command ended, as the worker that ran it reports.
#[derive(Debug, PartialEq, Eq)]
pub enum ExecutionOutcome {
    /// The session ran the command, or gave up waiting for it.
    Completed { output: String, exit_code: i32 },
    /// The session could not run the command.
    Failed { error: String },
    /// The worker itself broke down.
    Crashed { reason: String },
}

/// An `ExecutionOutcome` as a mathematical value.
pub enum ExecutionOutcomeView {
    Completed { output: Seq<char>, exit_code: i32 },
    Failed { error: Seq<char> },
    Crashed { reason: Seq<char> },
}

impl View for ExecutionOutcome {
    type V = ExecutionOutcomeView;

    open spec fn view(&self) -> ExecutionOutcomeView {
        match self {
            ExecutionOutcome::Completed { output, exit_code } => ExecutionOutcomeView::Completed {
                output: output@,
                exit_code: *exit_code,
            },
            ExecutionOutcome::Failed { error } => ExecutionOutcomeView::Failed { error: error@ },
            ExecutionOutcome::Crashed { reason } => ExecutionOutcomeView::Crashed {
                reason: reason@,
            },
        }
    }
}

/// Why the service refused an event.
#[derive(Clone, Copy, Debug, PartialEq, Eq, Structural)]
pub enum ServiceError {
    /// The log holds an event with the same identifier.
    DuplicateId,
    /// The log holds no command with the identifier that the output names.
    UnknownCommand,
    /// The log holds an output of the command already.
    AlreadyFinished,
    /// The output is stamped earlier than its command.
    OutputBeforeCommand,
}

/// The command that a request becomes when it is submitted at `now` under
/// the identifier `id`: the request's command line and working directory,
/// and its timeout or, where it names none, 300 seconds.
pub open spec fn command_of(
    command: Seq<char>,
    cwd: Option<Seq<char>>,
    timeout: Option<u64>,
    id: u128,
    now: Timestamp,
) -> BashCommandView {
    BashCommandView {
        id,
        timestamp: now,
        command,
        cwd,
        timeout: match timeout {
            Some(seconds) => seconds,
            None => DEFAULT_TIMEOUT_SECS,
        },
    }
}

/// The output that records `outcome` for the command `command_id`, at `now`
/// under the identifier `id`. A run that completed gives its exit code and
/// what it wrote; a run that failed or a worker that broke down gives exit
/// code -1 and says why.
pub open spec fn output_of(
    command_id: u128,
    outcome: ExecutionOutcomeView,
    id: u128,
    now: Timestamp,
) -> BashOutputView {
    match outcome {
        ExecutionOutcomeView::Completed { output, exit_code } => BashOutputView {
            id,
            timestamp: now,
            command_id,
            order: 0,
            exit_code: Some(exit_code),
            stdout: Some(output),
            stderr: None,
        },
        ExecutionOutcomeView::Failed { error } => BashOutputView {
            id,
            timestamp: now,
            command_id,
            order: 0,
            exit_code: Some(-1i32),
            stdout: None,
            stderr: Some("Error executing command: "@ + error),
        },
        ExecutionOutcomeView::Crashed { reason } => BashOutputView {
            id,
            timestamp: now,
            command_id,
            order: 0,
            exit_code: Some(-1i32),
            stdout: None,
            stderr: Some("Task execution panicked: "@ + reason),
        },
    }
}

/// Builds the command that a request becomes.
pub fn build_command(req: ExecuteBashRequest, id: u128, now: Timestamp) -> (command: BashCommand)
    ensures
        command@ == command_of(req.command@, text_of(req.cwd), req.timeout, id, now),
{
    let timeout: u64 = match req.timeout {
        Some(seconds) => seconds,
        None => DEFAULT_TIMEOUT_SECS,
    };
    BashCommand { id, timestamp: now, command: req.command, cwd: req.cwd, timeout }
}

/// Builds the output that records an outcome.
pub fn build_output(command_id: u128, outcome: ExecutionOutcome, id: u128, now: Timestamp) -> (output:
    BashOutput)
    ensures
        output@ == output_of(command_id, outcome@, id, now),
{
    match outcome {
        ExecutionOutcome::Completed { output, exit_code } => BashOutput {
            id,
            timestamp: now,
            command_id,
            order: 0,
            exit_code: Some(exit_code),
            stdout: Some(output),
            stderr: None,
        },
        ExecutionOutcome::Failed { error } => {
            let mut message = "Error executing command: ".to_owned();
            message.append(error.as_str());
            BashOutput {
                id,
                timestamp: now,
                command_id,
                order: 0,
                exit_code: Some(-1),
                stdout: None,
                stderr: Some(message),
            }
        },
        ExecutionOutcome::Crashed { reason } => {
            let mut message = "Task execution panicked: ".to_owned();
            message.append(reason.as_str());
            BashOutput {
                id,
                timestamp: now,
                command_id,
                order: 0,
                exit_code: Some(-1),
                stdout: None,
                stderr: Some(message),
            }
        },
    }
}

/// Each output in `log` belongs to a command in `log`.
pub open spec fn outputs_have_commands(log: Seq<BashEventView>) -> bool {
    forall|j: int|
        0 <= j < log.len() && (#[trigger] log[j]) is BashOutput ==> has_command(
            log,
            log[j].command_id(),
        )
}

/// No command has two outputs in `log`.
pub open spec fn outputs_are_single(log: Seq<BashEventView>) -> bool {
    forall|i: int, j: int|
        0 <= i < j < log.len() && (#[trigger] log[i]) is BashOutput && (#[trigger] log[j])
            is BashOutput ==> log[i].command_id() != log[j].command_id()
}

/// A command comes before its output: it stands before the output in
/// `log`, and it is stamped no later.
pub open spec fn commands_come_first(log: Seq<BashEventView>) -> bool {
    forall|i: int, j: int|
        0 <= i < log.len() && 0 <= j < log.len() && (#[trigger] log[i]) is BashCommand && (
        #[trigger] log[j]).is_output_of(log[i].id()) ==> i < j && log[i].timestamp().at_or_before(
            log[j].timestamp(),
        )
}

/// What holds of the log of a service at all times: it is in the order of
/// time, no identifier occurs twice, each output belongs to a command of the
/// log, no command has two outputs, and a command stands before its output.
pub open spec fn consistent(log: Seq<BashEventView>) -> bool {
    &&& sorted(log)
    &&& distinct_ids(log)
    &&& outputs_have_commands(log)
    &&& outputs_are_single(log)
    &&& commands_come_first(log)
}

/// How many outputs of the command `command_id` stand in `log`.
pub open spec fn output_count(log: Seq<BashEventView>, command_id: u128) -> nat
    decreases log.len(),
{
    if log.len() == 0 {
        0
    } else if log.last().is_output_of(command_id) {
        output_count(log.drop_last(), command_id) + 1
    } else {
        output_count(log.drop_last(), command_id)
    }
}

/// Why the service refuses to record `event` in `log`, if it does. A command
/// is refused where its identifier is taken. An output is refused where the
/// log holds no such command, where the command has its output already,
/// where the output is stamped earlier than the command, and where the
/// output's own identifier is taken, in this order.
pub open spec fn rejection(log: Seq<BashEventView>, event: BashEventView) -> Option<ServiceError> {
    match event {
        BashEventView::BashCommand(c) => if has_id(log, c.id) {
            Some(ServiceError::DuplicateId)
        } else {
            None
        },
        BashEventView::BashOutput(o) => if !has_command(log, o.command_id) {
            Some(ServiceError::UnknownCommand)
        } else if has_output(log, o.command_id) {
            Some(ServiceError::AlreadyFinished)
        } else if o.timestamp.before(command_time(log, o.command_id)) {
            Some(ServiceError::OutputBeforeCommand)
        } else if has_id(log, o.id) {
            Some(ServiceError::DuplicateId)
        } else {
            None
        },
    }
}

/// The log after the service was asked to record `event`: with the event
/// behind all events that happened at or before its timestamp, or as it was
/// where the event is refused.
pub open spec fn recorded(log: Seq<BashEventView>, event: BashEventView) -> Seq<BashEventView> {
    if rejection(log, event) is None {
        log.insert(count_at_or_before(log, event.timestamp()) as int, event)
    } else {
        log
    }
}

/// The identifiers of the events of `log`, in the order of `log`.
pub open spec fn ids_of(log: Seq<BashEventView>) -> Seq<u128> {
    Seq::new(log.len(), |i: int| log[i].id())
}

/// From an identifier that is taken the service goes on to its neighbours:
/// upwards, or downwards from the identifiers that are too great to count
/// up from.
pub open spec fn counts_up(drawn: u128) -> bool {
    drawn <= u128::MAX - 0x1_0000_0000_0000_0000
}

/// The neighbour of `drawn` that is `k` steps away.
pub open spec fn neighbour(drawn: u128, k: int) -> int {
    if counts_up(drawn) {
        drawn + k
    } else {
        drawn - k
    }
}

/// `id` is the identifier that the service uses where it has drawn `drawn`:
/// the nearest neighbour of `drawn` that `log` does not hold, `drawn` itself
/// where it is new.
pub open spec fn is_nearest_unused(log: Seq<BashEventView>, drawn: u128, id: u128) -> bool {
    exists|k: int|
        {
            &&& 0 <= k <= log.len()
            &&& id == #[trigger] neighbour(drawn, k)
            &&& !has_id(log, id)
            &&& forall|j: int| 0 <= j < k ==> has_id(log, #[trigger] neighbour(drawn, j) as u128)
        }
}

/// `uuid::Uuid::new_v4`, as a number: a random identifier of version 4,
/// whose bits 76 to 79 are therefore 0100 and whose bits 62 and 63 are 10.
/// Nothing else is claimed of it: two calls may give the same number.
#[verifier::external_body]
fn fresh_id() -> (id: u128)
    ensures
        (id >> 76u128) & 0xfu128 == 4u128,
        (id >> 62u128) & 0x3u128 == 2u128,
{
    uuid::Uuid::new_v4().as_u128()
}

/// `chrono::Utc::now`, as seconds and nanoseconds since the Unix epoch: the
/// seconds are not negative and the nanoseconds are less than a second. It
/// reads the system clock, so a later call may give an earlier time; chrono
/// panics where the clock stands before 1970.
#[verifier::external_body]
fn now() -> (t: Timestamp)
    ensures
        t.secs >= 0,
        t.nanos < 1_000_000_000,
{
    let t = chrono::Utc::now();
    Timestamp { secs: t.timestamp(), nanos: t.timestamp_subsec_nanos() }
}

/// The command service, as far as its records go: the log of every command
/// that was submitted and of every output that was recorded.
pub struct BashEventService {
    store: EventStore,
}

impl View for BashEventService {
    type V = Seq<BashEventView>;

    closed spec fn view(&self) -> Seq<BashEventView> {
        self.store@
    }
}

impl BashEventService {
    /// The log of a service is consistent.
    #[verifier::type_invariant]
    pub open spec fn wf(&self) -> bool {
        consistent(self@)
    }

    /// A service with an empty log.
    pub fn new() -> (service: Self)
        ensures
            service@ == Seq::<BashEventView>::empty(),
    {
        BashEventService { store: EventStore::new() }
    }

    /// Records an event, if the log stays consistent with it: a command
    /// under a new identifier, or the first output of a command of the log
    /// under a new identifier and stamped no earlier than the command. The
    /// event goes behind all events that happened at or before its
    /// timestamp. A refused event leaves the log as it was.
    pub fn record(&mut self, event: BashEvent) -> (r: Result<(), ServiceError>)
        ensures
            consistent(old(self)@),
            consistent(final(self)@),
            final(self)@ == recorded(old(self)@, event@),
            match r {
                Ok(()) => rejection(old(self)@, event@) is None,
                Err(e) => rejection(old(self)@, event@) == Some(e),
            },
    {
        proof {
            use_type_invariant(&*self);
        }
        let refused: Option<ServiceError> = match &event {
            BashEvent::BashCommand(c) => if self.store.contains_id(c.id) {
                Some(ServiceError::DuplicateId)
            } else {
                None
            },
            BashEvent::BashOutput(o) => match self.store.command_timestamp(o.command_id) {
                None => Some(ServiceError::UnknownCommand),
                Some(submitted) => if self.store.contains_output_of(o.command_id) {
                    Some(ServiceError::AlreadyFinished)
                } else if !submitted.is_at_or_before(&o.timestamp) {
                    Some(ServiceError::OutputBeforeCommand)
                } else if self.store.contains_id(o.id) {
                    Some(ServiceError::DuplicateId)
                } else {
                    None
                },
            },
        };
        if let Some(e) = refused {
            return Err(e);
        }
        let ghost before = self@;
        let ghost entry = event@;
        let mut taken = BashEventService::new();
        core::mem::swap(self, &mut taken);
        let mut store = taken.store;
        proof {
            let k = count_at_or_before(before, entry.timestamp()) as int;
            lemma_sorted_split(before, entry.timestamp());
            lemma_insert_keeps_consistent(before, k, entry);
        }
        let appended = store.append(event);
        *self = BashEventService { store };
        match appended {
            Ok(()) => Ok(()),
            Err(StoreError::DuplicateId) => Err(ServiceError::DuplicateId),
        }
    }

    /// Records the command that `req` becomes at `now` under the identifier
    /// `id`, and returns it. Fails, and leaves the log as it was, where the
    /// log holds an event with that identifier.
    pub fn submit(&mut self, req: ExecuteBashRequest, id: u128, now: Timestamp) -> (r: Result<
        BashCommand,
        ServiceError,
    >)
        ensures
            consistent(old(self)@),
            consistent(final(self)@),
            match r {
                Ok(command) => {
                    &&& !has_id(old(self)@, id)
                    &&& command@ == command_of(req.command@, text_of(req.cwd), req.timeout, id, now)
                    &&& final(self)@ == old(self)@.insert(
                        count_at_or_before(old(self)@, now) as int,
                        BashEventView::BashCommand(command@),
                    )
                    &&& output_count(final(self)@, id) == 0
                },
                Err(e) => {
                    &&& e == ServiceError::DuplicateId
                    &&& has_id(old(self)@, id)
                    &&& final(self)@ == old(self)@
                },
            },
    {
        let command = build_command(req, id, now);
        let ghost before = self@;
        match self.record(BashEvent::BashCommand(command.clone())) {
            Ok(()) => {
                proof {
                    let entry = BashEventView::BashCommand(command@);
                    let k = count_at_or_before(before, now) as int;
                    if has_output(before, id) {
                        let j = choose|j: int|
                            0 <= j < before.len() && (#[trigger] before[j]).is_output_of(id);
                        assert(has_command(before, before[j].command_id()));
                    }
                    lemma_sorted_split(before, now);
                    lemma_output_count_zero(before, id);
                    lemma_output_count_insert(before, k, entry, id);
                }
                Ok(command)
            },
            Err(e) => Err(e),
        }
    }

    /// Records the output that tells how the run of the command
    /// `command_id` ended, at `now` under the identifier `id`, and returns
    /// it. Every outcome is recorded alike: a run that completed, a run that
    /// failed and a worker that broke down each give the command its one
    /// output. Fails, and leaves the log as it was, where the log holds no
    /// such command, where the command has its output already, where `now`
    /// is earlier than the command was submitted, and where the log holds an
    /// event with the identifier `id`, in this order.
    pub fn record_outcome(
        &mut self,
        command_id: u128,
        outcome: ExecutionOutcome,
        id: u128,
        now: Timestamp,
    ) -> (r: Result<BashOutput, ServiceError>)
        ensures
            consistent(old(self)@),
            consistent(final(self)@),
            match r {
                Ok(output) => {
                    &&& has_command(old(self)@, command_id)
                    &&& !has_output(old(self)@, command_id)
                    &&& !now.before(command_time(old(self)@, command_id))
                    &&& !has_id(old(self)@, id)
                    &&& output@ == output_of(command_id, outcome@, id, now)
                    &&& final(self)@ == old(self)@.insert(
                        count_at_or_before(old(self)@, now) as int,
                        BashEventView::BashOutput(output@),
                    )
                    &&& output_count(final(self)@, command_id) == 1
                },
                Err(ServiceError::UnknownCommand) => {
                    &&& !has_command(old(self)@, command_id)
                    &&& final(self)@ == old(self)@
                },
                Err(ServiceError::AlreadyFinished) => {
                    &&& has_command(old(self)@, command_id)
                    &&& has_output(old(self)@, command_id)
                    &&& final(self)@ == old(self)@
                },
                Err(ServiceError::OutputBeforeCommand) => {
                    &&& has_command(old(self)@, command_id)
                    &&& !has_output(old(self)@, command_id)
                    &&& now.before(command_time(old(self)@, command_id))
                    &&& final(self)@ == old(self)@
                },
                Err(ServiceError::DuplicateId) => {
                    &&& has_command(old(self)@, command_id)
                    &&& !has_output(old(self)@, command_id)
                    &&& !now.before(command_time(old(self)@, command_id))
                    &&& has_id(old(self)@, id)
                    &&& final(self)@ == old(self)@
                },
            },
    {
        let output = build_output(command_id, outcome, id, now);
        let ghost before = self@;
        match self.record(BashEvent::BashOutput(output.clone())) {
            Ok(()) => {
                proof {
                    let entry = BashEventView::BashOutput(output@);
                    let k = count_at_or_before(before, now) as int;
                    lemma_sorted_split(before, now);
                    lemma_output_count_zero(before, command_id);
                    lemma_output_count_insert(before, k, entry, command_id);
                }
                Ok(output)
            },
            Err(e) => Err(e),
        }
    }

    /// An identifier that the log does not hold: `drawn`, or where the log
    /// holds it, the nearest of its neighbours that the log does not hold.
    /// A log holds fewer events than there are identifiers, so there is one.
    pub fn unused_id(&self, drawn: u128) -> (id: u128)
        ensures
            !has_id(self@, id),
            is_nearest_unused(self@, drawn, id),
            !has_id(self@, drawn) ==> id == drawn,
    {
        let len: usize = self.store.len();
        let up: bool = drawn <= u128::MAX - 0x1_0000_0000_0000_0000;
        let ghost log = self@;
        let ghost held = ids_of(log).to_set();
        let ghost mut seen: Set<u128> = Set::empty();
        let mut k: usize = 0;
        let mut id: u128 = drawn;
        proof {
            ids_of(log).lemma_cardinality_of_set();
        }
        loop
            invariant
                log == self@,
                held == ids_of(log).to_set(),
                held.finite(),
                held.len() <= len,
                len == log.len(),
                up == counts_up(drawn),
                k <= len,
                id == neighbour(drawn, k as int),
                seen.finite(),
                seen.len() == k,
                seen.subset_of(held),
                forall|x: u128| #[trigger]
                    seen.contains(x) ==> if up {
                        drawn <= x < drawn + k
                    } else {
                        drawn - k < x <= drawn
                    },
                forall|j: int| 0 <= j < k ==> has_id(log, #[trigger] neighbour(drawn, j) as u128),
            decreases len - k,
        {
            if !self.store.contains_id(id) {
                proof {
                    if k > 0 {
                        assert(has_id(log, neighbour(drawn, 0) as u128));
                    }
                }
                return id;
            }
            proof {
                let i = choose|i: int| 0 <= i < log.len() && (#[trigger] log[i]).id() == id;
                assert(ids_of(log)[i] == id);
                assert(held.contains(id));
                seen = seen.insert(id);
                vstd::set_lib::lemma_len_subset(seen, held);
            }
            k += 1;
            id = if up {
                id + 1
            } else {
                id - 1
            };
        }
    }

    /// Takes a request to run a command: gives the command an identifier
    /// that the log does not hold and the time of the clock, records it, and
    /// returns it at once. The identifier is drawn at random, and the time
    /// is the clock's, so the contract says what holds of any: the command
    /// is the request's, and the log has it behind all events that happened
    /// at or before its timestamp. Every request is taken: where the log
    /// holds the identifier that was drawn, the command gets the nearest
    /// that it does not hold.
    pub fn start_bash_command(&mut self, req: ExecuteBashRequest) -> (command: BashCommand)
        ensures
            consistent(final(self)@),
            !has_id(old(self)@, command.id),
            command@ == command_of(
                req.command@,
                text_of(req.cwd),
                req.timeout,
                command.id,
                command.timestamp,
            ),
            final(self)@ == old(self)@.insert(
                count_at_or_before(old(self)@, command.timestamp) as int,
                BashEventView::BashCommand(command@),
            ),
            output_count(final(self)@, command.id) == 0,
    {
        let id = self.unused_id(fresh_id());
        let t = now();
        match self.submit(req, id, t) {
            Ok(command) => command,
            Err(_) => unreached(),
        }
    }

    /// Records how the run of the command `command_id` ended, and returns
    /// the output: a command of the log that has no output yet gets its
    /// one output, however its run ended, and no other command ever does.
    /// The output's identifier is one that the log does not hold, drawn at
    /// random. The output is stamped with the time of the clock, or with the
    /// time of its command where the clock stands before that: an output is
    /// never stamped earlier than its command. Whatever the identifier and
    /// the time: the output is the one that tells of `outcome`, the log has
    /// it behind all events that happened at or before its timestamp, and
    /// nothing else in the log changes. Fails, and leaves the log as it was,
    /// exactly where the log holds no such command and where the command
    /// has its output already.
    pub fn finish_bash_command(&mut self, command_id: u128, outcome: ExecutionOutcome) -> (r:
        Result<BashOutput, ServiceError>)
        ensures
            consistent(final(self)@),
            match r {
                Ok(output) => {
                    &&& has_command(old(self)@, command_id)
                    &&& !has_output(old(self)@, command_id)
                    &&& !has_id(old(self)@, output.id)
                    &&& command_time(old(self)@, command_id).at_or_before(output.timestamp)
                    &&& output@ == output_of(command_id, outcome@, output.id, output.timestamp)
                    &&& final(self)@ == old(self)@.insert(
                        count_at_or_before(old(self)@, output.timestamp) as int,
                        BashEventView::BashOutput(output@),
                    )
                    &&& output_count(final(self)@, command_id) == 1
                },
                Err(e) => {
                    &&& final(self)@ == old(self)@
                    &&& e == if has_command(old(self)@, command_id) {
                        ServiceError::AlreadyFinished
                    } else {
                        ServiceError::UnknownCommand
                    }
                },
            },
            r is Ok <==> has_command(old(self)@, command_id) && !has_output(old(self)@, command_id),
    {
        let id = self.unused_id(fresh_id());
        let t = now();
        let stamp = match self.store.command_timestamp(command_id) {
            Some(submitted) => if submitted.is_at_or_before(&t) {
                t
            } else {
                submitted
            },
            None => t,
        };
        self.record_outcome(command_id, outcome, id, stamp)
    }

    /// The events that answer a query, in the order of their timestamps:
    /// all events for `None`, the command and its output for a command's
    /// identifier.
    pub fn search_bash_events(&self, command_id: Option<u128>) -> (page: BashEventPage)
        ensures
            consistent(self@),
            events_of(page.items@) == selected(self@, command_id),
            page.next_page_id is None,
            sorted(events_of(page.items@)),
            forall|k: int|
                0 <= k < page.items@.len() ==> answers((#[trigger] page.items@[k])@, command_id),
    {
        proof {
            use_type_invariant(self);
        }
        self.store.query(command_id)
    }
}

} // verus!
