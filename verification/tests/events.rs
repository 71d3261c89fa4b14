use coder_mcp::models::{
    BashCommand, BashEvent, BashOutput, ExecuteBashRequest, Timestamp, DEFAULT_TIMEOUT_SECS,
};
use coder_mcp::runtime::bash::{
    build_command, build_output, BashEventService, ExecutionOutcome, ServiceError,
};
use coder_mcp::runtime::event_row::{event_row, event_row_at};
use coder_mcp::runtime::event_store::{EventStore, StoreError};

fn at(secs: i64, nanos: u32) -> Timestamp {
    Timestamp { secs, nanos }
}

fn request(command: &str, timeout: Option<u64>) -> ExecuteBashRequest {
    ExecuteBashRequest { command: command.to_string(), cwd: None, timeout }
}

fn command(id: u128, t: Timestamp) -> BashEvent {
    BashEvent::BashCommand(build_command(request("ls", None), id, t))
}

fn output(id: u128, command_id: u128, t: Timestamp) -> BashEvent {
    let outcome = ExecutionOutcome::Completed { output: "ok".to_string(), exit_code: 0 };
    BashEvent::BashOutput(build_output(command_id, outcome, id, t))
}

fn ids(items: &[BashEvent]) -> Vec<u128> {
    items.iter().map(|e| e.id()).collect()
}

#[test]
fn test_bash_event_service_execution() {
    let mut service = BashEventService::new();
    let req = ExecuteBashRequest {
        command: "echo test_bash_service".to_string(),
        cwd: None,
        timeout: Some(5),
    };
    let cmd = service.start_bash_command(req);
    assert_eq!(cmd.command, "echo test_bash_service");
    assert_eq!(cmd.timeout, 5);
    assert_eq!(cmd.timeout_ms(), Some(5000));

    // Before the worker reports, the command is the only event.
    let page = service.search_bash_events(Some(cmd.id));
    assert_eq!(page.items.len(), 1);
    assert!(matches!(page.items.last(), Some(BashEvent::BashCommand(_))));

    let outcome = ExecutionOutcome::Completed {
        output: "test_bash_service".to_string(),
        exit_code: 0,
    };
    service.finish_bash_command(cmd.id, outcome).unwrap();

    let page = service.search_bash_events(Some(cmd.id));
    let mut found_output = false;
    if let Some(BashEvent::BashOutput(out)) = page.items.last() {
        found_output = true;
        assert_eq!(out.exit_code, Some(0));
        let output = out.stdout.as_ref().unwrap();
        assert!(
            output.contains("test_bash_service"),
            "Output did not contain expected string. Got: '{}'",
            output
        );
        assert_eq!(out.command_id, cmd.id);
        assert_eq!(out.order, 0);
        assert_eq!(out.stderr, None);
    }
    assert!(found_output, "Did not find bash output");
    assert!(page.next_page_id.is_none());
}

#[test]
fn default_timeout_is_300_seconds() {
    assert_eq!(DEFAULT_TIMEOUT_SECS, 300);
    let c = build_command(request("ls", None), 1, at(0, 0));
    assert_eq!(c.timeout, 300);
    assert_eq!(c.timeout_ms(), Some(300_000));
    let c = build_command(
        ExecuteBashRequest { command: "ls".into(), cwd: Some("/tmp".into()), timeout: Some(7) },
        2,
        at(3, 4),
    );
    assert_eq!(
        c,
        BashCommand {
            id: 2,
            timestamp: at(3, 4),
            command: "ls".into(),
            cwd: Some("/tmp".into()),
            timeout: 7
        }
    );
    let huge = build_command(request("ls", Some(u64::MAX)), 3, at(0, 0));
    assert_eq!(huge.timeout_ms(), None);
}

#[test]
fn outputs_for_each_outcome() {
    let done = build_output(
        9,
        ExecutionOutcome::Completed { output: "out".into(), exit_code: 3 },
        10,
        at(1, 2),
    );
    assert_eq!(
        done,
        BashOutput {
            id: 10,
            timestamp: at(1, 2),
            command_id: 9,
            order: 0,
            exit_code: Some(3),
            stdout: Some("out".into()),
            stderr: None
        }
    );
    let failed = build_output(
        9,
        ExecutionOutcome::Failed { error: "Terminal session is dead".into() },
        11,
        at(1, 2),
    );
    assert_eq!(failed.exit_code, Some(-1));
    assert_eq!(failed.stdout, None);
    assert_eq!(
        failed.stderr.as_deref(),
        Some("Error executing command: Terminal session is dead")
    );
    let crashed =
        build_output(9, ExecutionOutcome::Crashed { reason: "boom".into() }, 12, at(1, 2));
    assert_eq!(crashed.exit_code, Some(-1));
    assert_eq!(crashed.stdout, None);
    assert_eq!(crashed.stderr.as_deref(), Some("Task execution panicked: boom"));
}

#[test]
fn store_keeps_time_order_whatever_the_write_order() {
    let mut store = EventStore::new();
    assert_eq!(store.len(), 0);
    store.append(command(1, at(10, 0))).unwrap();
    store.append(command(2, at(5, 0))).unwrap();
    store.append(command(3, at(10, 0))).unwrap();
    store.append(command(4, at(7, 500))).unwrap();
    store.append(command(5, at(7, 499))).unwrap();
    store.append(command(6, at(-1, 0))).unwrap();
    assert_eq!(store.len(), 6);
    let page = store.query(None);
    // Equal timestamps keep the order in which they were appended.
    assert_eq!(ids(&page.items), vec![6, 2, 5, 4, 1, 3]);
    let stamps: Vec<Timestamp> = page.items.iter().map(|e| e.timestamp()).collect();
    for pair in stamps.windows(2) {
        assert!(pair[0].is_at_or_before(&pair[1]));
    }
    assert!(page.next_page_id.is_none());
}

#[test]
fn store_refuses_known_identifier() {
    let mut store = EventStore::new();
    assert_eq!(store.append(command(1, at(1, 0))), Ok(()));
    assert!(store.contains_id(1));
    assert!(!store.contains_id(2));
    assert_eq!(store.append(output(1, 1, at(2, 0))), Err(StoreError::DuplicateId));
    assert_eq!(store.len(), 1);
    assert!(store.contains_command(1));
    assert!(!store.contains_output_of(1));
    assert_eq!(store.append(output(2, 1, at(2, 0))), Ok(()));
    assert!(store.contains_output_of(1));
    assert!(!store.contains_command(2));
    assert_eq!(store.command_timestamp(1), Some(at(1, 0)));
    assert_eq!(store.command_timestamp(2), None);
}

#[test]
fn query_by_command_returns_only_its_events() {
    let mut store = EventStore::new();
    store.append(command(1, at(1, 0))).unwrap();
    store.append(command(2, at(2, 0))).unwrap();
    store.append(output(3, 2, at(3, 0))).unwrap();
    store.append(output(4, 1, at(4, 0))).unwrap();
    // An output whose own identifier is asked for is no event of that command.
    assert_eq!(ids(&store.query(Some(1)).items), vec![1, 4]);
    assert_eq!(ids(&store.query(Some(2)).items), vec![2, 3]);
    assert_eq!(ids(&store.query(Some(3)).items), Vec::<u128>::new());
    assert_eq!(ids(&store.query(None).items), vec![1, 2, 3, 4]);
    for e in store.query(Some(2)).items {
        assert_eq!(e.command_id(), 2);
    }
}

#[test]
fn one_output_per_command() {
    let mut service = BashEventService::new();
    let c = service.submit(request("true", None), 100, at(10, 0)).unwrap();
    assert_eq!(c.id, 100);
    let done = || ExecutionOutcome::Completed { output: String::new(), exit_code: 0 };
    // An output for a command that was never submitted is refused.
    assert_eq!(
        service.record_outcome(999, done(), 101, at(11, 0)),
        Err(ServiceError::UnknownCommand)
    );
    // An identifier that is taken is refused.
    assert_eq!(
        service.record_outcome(100, done(), 100, at(11, 0)),
        Err(ServiceError::DuplicateId)
    );
    let out = service.record_outcome(100, done(), 101, at(11, 0)).unwrap();
    assert_eq!(out.command_id, 100);
    // A second output is refused, whatever the outcome.
    assert_eq!(
        service.record_outcome(100, ExecutionOutcome::Crashed { reason: "x".into() }, 102, at(12, 0)),
        Err(ServiceError::AlreadyFinished)
    );
    assert_eq!(
        service.finish_bash_command(100, ExecutionOutcome::Failed { error: "x".into() }),
        Err(ServiceError::AlreadyFinished)
    );
    let page = service.search_bash_events(Some(100));
    assert_eq!(ids(&page.items), vec![100, 101]);
    assert_eq!(service.submit(request("true", None), 101, at(13, 0)), Err(ServiceError::DuplicateId));
    assert_eq!(ids(&service.search_bash_events(None).items), vec![100, 101]);
}

#[test]
fn crash_and_error_paths_give_an_output() {
    let mut service = BashEventService::new();
    let a = service.start_bash_command(request("a", None));
    let b = service.start_bash_command(request("b", None));
    assert_ne!(a.id, b.id);
    service
        .finish_bash_command(a.id, ExecutionOutcome::Failed { error: "Terminal session is dead".into() })
        .unwrap();
    service
        .finish_bash_command(b.id, ExecutionOutcome::Crashed { reason: "worker panicked".into() })
        .unwrap();
    for c in [&a, &b] {
        let page = service.search_bash_events(Some(c.id));
        assert_eq!(page.items.len(), 2);
        assert!(matches!(&page.items[0], BashEvent::BashCommand(x) if x.id == c.id));
        match &page.items[1] {
            BashEvent::BashOutput(o) => {
                assert_eq!(o.exit_code, Some(-1));
                assert!(o.stderr.is_some());
            }
            other => panic!("no output: {:?}", other),
        }
    }
}

#[test]
fn command_stands_before_its_output() {
    let mut service = BashEventService::new();
    service.submit(request("a", None), 1, at(5, 0)).unwrap();
    service.submit(request("b", None), 2, at(5, 0)).unwrap();
    let done = || ExecutionOutcome::Completed { output: String::new(), exit_code: 0 };
    // Same timestamp as the command: the output still comes behind it.
    service.record_outcome(1, done(), 3, at(5, 0)).unwrap();
    assert_eq!(ids(&service.search_bash_events(Some(1)).items), vec![1, 3]);
    assert_eq!(ids(&service.search_bash_events(None).items), vec![1, 2, 3]);
    // An output stamped earlier than its command is refused.
    assert_eq!(
        service.record_outcome(2, done(), 4, at(4, 999_999_999)),
        Err(ServiceError::OutputBeforeCommand)
    );
    assert_eq!(ids(&service.search_bash_events(Some(2)).items), vec![2]);
    // The checks come in order: the time before the identifier.
    assert_eq!(
        service.record_outcome(2, done(), 1, at(4, 0)),
        Err(ServiceError::OutputBeforeCommand)
    );
    assert_eq!(service.record_outcome(2, done(), 1, at(5, 0)), Err(ServiceError::DuplicateId));
    service.record_outcome(2, done(), 4, at(5, 1)).unwrap();
    assert_eq!(ids(&service.search_bash_events(Some(2)).items), vec![2, 4]);
}

#[test]
fn output_is_stamped_no_earlier_than_its_command() {
    // The command is stamped far ahead of the clock.
    let mut service = BashEventService::new();
    let ahead = at(253_402_300_000, 5);
    service.submit(request("a", None), 1, ahead).unwrap();
    let out = service
        .finish_bash_command(1, ExecutionOutcome::Completed { output: "x".into(), exit_code: 0 })
        .unwrap();
    assert_eq!(out.timestamp, ahead);
    assert_eq!(ids(&service.search_bash_events(Some(1)).items), vec![1, out.id]);
    // An earlier command leaves the clock's time as it is.
    service.submit(request("b", None), 2, at(10, 0)).unwrap();
    let out = service
        .finish_bash_command(2, ExecutionOutcome::Completed { output: "y".into(), exit_code: 0 })
        .unwrap();
    assert!(out.timestamp.secs > 1_600_000_000);
    assert!(out.timestamp != ahead);
}

#[test]
fn every_command_gets_its_output() {
    let mut service = BashEventService::new();
    for id in 0..50u128 {
        service.submit(request("x", None), id, at(1, 0)).unwrap();
    }
    let c = service.start_bash_command(request("y", None));
    let done = ExecutionOutcome::Completed { output: String::new(), exit_code: 0 };
    assert!(service.finish_bash_command(7, done).is_ok());
    let gone = ExecutionOutcome::Crashed { reason: "x".into() };
    assert_eq!(service.finish_bash_command(10_000, gone), Err(ServiceError::UnknownCommand));
    let again = ExecutionOutcome::Failed { error: "x".into() };
    assert_eq!(service.finish_bash_command(7, again), Err(ServiceError::AlreadyFinished));
    assert!(service
        .finish_bash_command(c.id, ExecutionOutcome::Failed { error: "dead".into() })
        .is_ok());
    // Each of the other commands gets exactly one output, on every path.
    for id in 0..50u128 {
        if id == 7 {
            continue;
        }
        let outcome = match id % 3 {
            0 => ExecutionOutcome::Completed { output: "o".into(), exit_code: 0 },
            1 => ExecutionOutcome::Failed { error: "e".into() },
            _ => ExecutionOutcome::Crashed { reason: "c".into() },
        };
        let out = service.finish_bash_command(id, outcome).unwrap();
        assert_eq!(out.command_id, id);
        let page = service.search_bash_events(Some(id));
        assert_eq!(ids(&page.items), vec![id, out.id]);
    }
    assert_eq!(service.search_bash_events(None).items.len(), 102);
}

#[test]
fn taken_identifiers_give_way_to_their_neighbours() {
    let mut service = BashEventService::new();
    for id in [5u128, 6, 7, 9, u128::MAX, u128::MAX - 1] {
        service.submit(request("x", None), id, at(1, 0)).unwrap();
    }
    assert_eq!(service.unused_id(4), 4);
    assert_eq!(service.unused_id(5), 8);
    assert_eq!(service.unused_id(7), 8);
    assert_eq!(service.unused_id(9), 10);
    assert_eq!(service.unused_id(u128::MAX), u128::MAX - 2);
    assert_eq!(service.unused_id(u128::MAX - 3), u128::MAX - 3);
    assert_eq!(BashEventService::new().unused_id(0), 0);
}

#[test]
fn record_restores_a_log() {
    let mut service = BashEventService::new();
    assert_eq!(service.record(output(2, 1, at(2, 0))), Err(ServiceError::UnknownCommand));
    assert_eq!(service.record(command(1, at(1, 0))), Ok(()));
    assert_eq!(service.record(command(1, at(1, 0))), Err(ServiceError::DuplicateId));
    assert_eq!(service.record(output(2, 1, at(2, 0))), Ok(()));
    assert_eq!(service.record(output(3, 1, at(3, 0))), Err(ServiceError::AlreadyFinished));
    assert_eq!(service.record(command(5, at(9, 0))), Ok(()));
    assert_eq!(service.record(output(6, 5, at(8, 0))), Err(ServiceError::OutputBeforeCommand));
    assert_eq!(ids(&service.search_bash_events(None).items), vec![1, 2, 5]);
}

#[test]
fn fresh_identifiers_are_version_4() {
    let mut service = BashEventService::new();
    let a = service.start_bash_command(request("a", None));
    assert_eq!((a.id >> 76) & 0xf, 4);
    assert_eq!((a.id >> 62) & 0x3, 2);
    assert!(a.timestamp.secs > 1_600_000_000);
    assert!(a.timestamp.nanos < 1_000_000_000);
}

#[test]
fn rows_of_events() {
    let c = command(0xa1a2a3a4b1b2c1c2d1d2d3d4d5d6d7d8, at(1431648000, 0));
    let row = event_row(&c).unwrap();
    assert_eq!(row.id, "a1a2a3a4b1b2c1c2d1d2d3d4d5d6d7d8");
    assert_eq!(row.command_id, "a1a2a3a4b1b2c1c2d1d2d3d4d5d6d7d8");
    assert_eq!(row.event_type, "BashCommand");
    assert_eq!(row.timestamp, "2015-05-15T00:00:00+00:00");

    let o = output(1, 0xff, at(1431648000, 123_000_000));
    let row = event_row(&o).unwrap();
    assert_eq!(row.id, "00000000000000000000000000000001");
    assert_eq!(row.command_id, "000000000000000000000000000000ff");
    assert_eq!(row.event_type, "BashOutput");
    assert_eq!(row.timestamp, "2015-05-15T00:00:00.123+00:00");

    let row = event_row_at(&o, "when".to_string());
    assert_eq!(row.timestamp, "when");
    assert_eq!(row.event_type, "BashOutput");

    // A timestamp that has no date has no row.
    assert_eq!(event_row(&command(1, at(i64::MAX, 0))), None);
    assert_eq!(event_row(&command(1, at(0, 2_000_000_000))), None);
}
