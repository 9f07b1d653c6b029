use std::collections::HashMap;

use chrono::NaiveDate;
use chrono::NaiveDateTime;
use greeting_db::greeting_command::store;
use greeting_db::greeting_command::store_parsed;
use greeting_db::greeting_command::GreetingCmdEntity;
use greeting_db::greeting_pg_trace::PgTraceContext;
use greeting_db::statement::Statement;
use greeting_db::transaction::Operation;
use greeting_db::transaction::Output;
use greeting_db::transaction::Reply;
use greeting_db::transaction::Step;
use greeting_db::transaction::UnitOfWork;
use greeting_db::Failure;

const MESSAGE_ID: u128 = 0x3fae1c2d4b5a4c6d8e7f0123456789ab;

fn trace() -> PgTraceContext {
    PgTraceContext {
        trace_id: "0af7651916cd43dd8448eb211c80319c".to_string(),
        parent_span_id: "b7ad6b7169203331".to_string(),
    }
}

fn t0() -> NaiveDateTime {
    NaiveDate::from_ymd_opt(2024, 5, 17).unwrap().and_hms_opt(8, 30, 0).unwrap()
}

fn greeting(message_id: &str) -> GreetingCmdEntity {
    let mut events_created = HashMap::new();
    events_created.insert("received".to_string(), t0());
    GreetingCmdEntity {
        external_reference: "ref-1".to_string(),
        message_id: message_id.to_string(),
        to: "A".to_string(),
        from: "B".to_string(),
        heading: "Hi".to_string(),
        message: "Hello".to_string(),
        created: t0(),
        events_created,
    }
}

fn valid() -> GreetingCmdEntity {
    greeting("3fae1c2d-4b5a-4c6d-8e7f-0123456789ab")
}

fn drive(unit: UnitOfWork, replies: Vec<Reply>) -> (UnitOfWork, Vec<Step>) {
    let mut unit = unit;
    let mut steps = Vec::new();
    for reply in replies {
        let (next, step) = unit.advance(reply);
        unit = next;
        steps.push(step);
    }
    (unit, steps)
}

#[test]
fn store_reads_the_message_id() {
    let unit = store(trace(), valid()).unwrap();
    assert_eq!(
        unit,
        UnitOfWork::Idle {
            trace: trace(),
            operation: Operation::Store { message_id: MESSAGE_ID, greeting: valid() },
        }
    );
}

#[test]
fn store_reads_a_message_id_in_other_notations() {
    let plain = store(trace(), greeting("3fae1c2d4b5a4c6d8e7f0123456789ab")).unwrap();
    let upper = store(trace(), greeting("3FAE1C2D-4B5A-4C6D-8E7F-0123456789AB")).unwrap();
    let urn = store(trace(), greeting("urn:uuid:3fae1c2d-4b5a-4c6d-8e7f-0123456789ab")).unwrap();
    for unit in [plain, upper, urn] {
        match unit {
            UnitOfWork::Idle { operation: Operation::Store { message_id, .. }, .. } => {
                assert_eq!(message_id, MESSAGE_ID)
            }
            other => panic!("not a store: {:?}", other),
        }
    }
}

#[test]
fn store_tells_message_ids_apart() {
    let nil = store(trace(), greeting("00000000-0000-0000-0000-000000000000")).unwrap();
    let one = store(trace(), greeting("00000000-0000-0000-0000-000000000001")).unwrap();
    assert!(matches!(
        nil,
        UnitOfWork::Idle { operation: Operation::Store { message_id: 0, .. }, .. }
    ));
    assert!(matches!(
        one,
        UnitOfWork::Idle { operation: Operation::Store { message_id: 1, .. }, .. }
    ));
}

#[test]
fn store_refuses_a_message_id_that_is_no_uuid() {
    for text in ["", "not-a-uuid", "3fae", "3fae1c2d-4b5a-4c6d-8e7f-0123456789a", "3fae1c2d-4b5a-4c6d-8e7f-0123456789abc", "3fae1c2d-4b5a-4c6d-8e7f-0123456789ag"] {
        let refused = store(trace(), greeting(text)).unwrap_err();
        assert_eq!(refused.error_message, "Invalid message id");
    }
}

#[test]
fn store_parsed_goes_by_the_value_handed_in() {
    let unit = store_parsed(trace(), greeting("whatever"), Some(5)).unwrap();
    assert_eq!(
        unit,
        UnitOfWork::Idle {
            trace: trace(),
            operation: Operation::Store { message_id: 5, greeting: greeting("whatever") },
        }
    );
    let refused = store_parsed(trace(), valid(), None).unwrap_err();
    assert_eq!(refused.error_message, "Invalid message id");
}

#[test]
fn store_inserts_one_greeting_and_its_log_row() {
    let unit = store(trace(), valid()).unwrap();
    let (end, steps) = drive(
        unit,
        vec![
            Reply::Ready,
            Reply::Done,
            Reply::Done,
            Reply::Inserted(17),
            Reply::Done,
            Reply::Done,
        ],
    );
    assert_eq!(
        steps,
        vec![
            Step::Begin,
            Step::Execute(Statement::SetTrace { trace: trace() }),
            Step::Execute(Statement::InsertMessage { message_id: MESSAGE_ID, greeting: valid() }),
            Step::Execute(Statement::InsertLog { greeting_id: 17 }),
            Step::Commit,
            Step::Finish(Output::Stored { greeting_id: 17 }),
        ]
    );
    assert_eq!(end, UnitOfWork::Finished);
}

#[test]
fn store_hands_the_greeting_on_as_it_came() {
    let unit = store(trace(), valid()).unwrap();
    let (_, steps) = drive(unit, vec![Reply::Ready, Reply::Done, Reply::Done]);
    match &steps[2] {
        Step::Execute(Statement::InsertMessage { greeting, .. }) => {
            assert_eq!(greeting.to, "A");
            assert_eq!(greeting.from, "B");
            assert_eq!(greeting.heading, "Hi");
            assert_eq!(greeting.message, "Hello");
            assert_eq!(greeting.created, t0());
            assert_eq!(greeting.events_created.get("received"), Some(&t0()));
        }
        other => panic!("not the insert of the greeting: {:?}", other),
    }
}

#[test]
fn store_fails_between_the_two_inserts() {
    let unit = store(trace(), valid()).unwrap();
    let (end, steps) = drive(
        unit,
        vec![
            Reply::Ready,
            Reply::Done,
            Reply::Done,
            Reply::Inserted(17),
            Reply::Failed("insert or update on table \"log\" violates foreign key constraint".to_string()),
            Reply::Done,
            Reply::Done,
        ],
    );
    assert_eq!(
        steps[4],
        Step::Abandon(Failure::Database(
            "insert or update on table \"log\" violates foreign key constraint".to_string()
        ))
    );
    assert_eq!(end, UnitOfWork::Finished);
    assert!(steps.iter().all(|step| *step != Step::Commit));
    assert!(steps.iter().all(|step| !matches!(step, Step::Finish(_))));
    assert_eq!(steps[5], Step::Abandon(Failure::Protocol));
    assert_eq!(steps[6], Step::Abandon(Failure::Protocol));
}

#[test]
fn store_fails_at_the_insert_of_the_greeting() {
    let unit = store(trace(), valid()).unwrap();
    let (end, steps) = drive(
        unit,
        vec![Reply::Ready, Reply::Done, Reply::Done, Reply::Failed("duplicate key".to_string())],
    );
    assert_eq!(steps[3], Step::Abandon(Failure::Database("duplicate key".to_string())));
    assert_eq!(end, UnitOfWork::Finished);
    assert!(steps.iter().all(|step| !matches!(step, Step::Execute(Statement::InsertLog { .. }))));
}

#[test]
fn store_fails_at_begin() {
    let unit = store(trace(), valid()).unwrap();
    let (end, steps) =
        drive(unit, vec![Reply::Ready, Reply::Failed("pool timed out".to_string())]);
    assert_eq!(
        steps,
        vec![Step::Begin, Step::Abandon(Failure::Database("pool timed out".to_string()))]
    );
    assert_eq!(end, UnitOfWork::Finished);
}

#[test]
fn store_fails_at_the_trace_context() {
    let unit = store(trace(), valid()).unwrap();
    let (_, steps) = drive(
        unit,
        vec![Reply::Ready, Reply::Done, Reply::Failed("unrecognized parameter".to_string())],
    );
    assert_eq!(
        steps[2],
        Step::Abandon(Failure::Database("unrecognized parameter".to_string()))
    );
    assert!(steps.iter().all(|step| !matches!(step, Step::Execute(Statement::InsertMessage { .. }))));
}

#[test]
fn store_fails_at_commit() {
    let unit = store(trace(), valid()).unwrap();
    let (end, steps) = drive(
        unit,
        vec![
            Reply::Ready,
            Reply::Done,
            Reply::Done,
            Reply::Inserted(1),
            Reply::Done,
            Reply::Failed("connection reset".to_string()),
        ],
    );
    assert_eq!(steps[4], Step::Commit);
    assert_eq!(steps[5], Step::Abandon(Failure::Database("connection reset".to_string())));
    assert_eq!(end, UnitOfWork::Finished);
}

#[test]
fn store_takes_no_answer_of_the_wrong_kind() {
    let unit = store(trace(), valid()).unwrap();
    let (end, steps) = drive(unit, vec![Reply::Ready, Reply::Done, Reply::Done, Reply::Done]);
    assert_eq!(steps[3], Step::Abandon(Failure::Protocol));
    assert_eq!(end, UnitOfWork::Finished);

    let unit = store(trace(), valid()).unwrap();
    let (_, steps) = drive(unit, vec![Reply::Ready, Reply::Inserted(3)]);
    assert_eq!(steps[1], Step::Abandon(Failure::Protocol));

    let unit = store(trace(), valid()).unwrap();
    let (_, steps) = drive(unit, vec![Reply::Ready, Reply::Ready]);
    assert_eq!(steps[1], Step::Abandon(Failure::Protocol));
}

#[test]
fn nothing_is_done_before_the_unit_is_started() {
    let unit = store(trace(), valid()).unwrap();
    let (end, step) = unit.advance(Reply::Done);
    assert_eq!(step, Step::Abandon(Failure::Protocol));
    assert_eq!(end, UnitOfWork::Finished);

    let unit = store(trace(), valid()).unwrap();
    let (_, step) = unit.advance(Reply::Failed("early".to_string()));
    assert_eq!(step, Step::Abandon(Failure::Protocol));
}

#[test]
fn a_finished_unit_does_nothing_more() {
    let (end, step) = UnitOfWork::Finished.advance(Reply::Ready);
    assert_eq!(step, Step::Abandon(Failure::Protocol));
    assert_eq!(end, UnitOfWork::Finished);
    let (end, step) = UnitOfWork::Finished.advance(Reply::Failed("late".to_string()));
    assert_eq!(step, Step::Abandon(Failure::Protocol));
    assert_eq!(end, UnitOfWork::Finished);
}

#[test]
fn new_unit_is_idle() {
    let unit = UnitOfWork::new(trace(), Operation::LastLogEntry);
    assert_eq!(unit, UnitOfWork::Idle { trace: trace(), operation: Operation::LastLogEntry });
}

#[test]
fn trace_context_comes_first_in_every_operation() {
    let operations = vec![
        Operation::Store { message_id: 1, greeting: valid() },
        Operation::LastLogEntry,
        Operation::FindMessage { id: 3 },
        Operation::GenerateLog,
    ];
    for operation in operations {
        let unit = UnitOfWork::new(trace(), operation);
        let (_, steps) = drive(unit, vec![Reply::Ready, Reply::Done, Reply::Done]);
        assert_eq!(steps[0], Step::Begin);
        assert_eq!(steps[1], Step::Execute(Statement::SetTrace { trace: trace() }));
        assert!(matches!(steps[2], Step::Execute(_)));
        assert!(!matches!(steps[2], Step::Execute(Statement::SetTrace { .. })));
    }
}
