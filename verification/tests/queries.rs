use chrono::NaiveDate;
use chrono::NaiveDateTime;
use greeting_db::greeting_pg_trace::PgTraceContext;
use greeting_db::greeting_query::find_message;
use greeting_db::greeting_query::last_log_entry;
use greeting_db::greeting_query::list_log_entries;
use greeting_db::greeting_query::GreetingQueryEntity;
use greeting_db::greeting_query::LoggEntryEntity;
use greeting_db::greeting_query::LoggQueryEntity;
use greeting_db::greeting_query::SqlDirection;
use greeting_db::statement::Statement;
use greeting_db::transaction::Operation;
use greeting_db::transaction::Output;
use greeting_db::transaction::Reply;
use greeting_db::transaction::Step;
use greeting_db::transaction::UnitOfWork;
use greeting_db::Failure;

fn trace() -> PgTraceContext {
    PgTraceContext { trace_id: "t".to_string(), parent_span_id: "s".to_string() }
}

fn moment(second: u32) -> NaiveDateTime {
    NaiveDate::from_ymd_opt(2024, 5, 17).unwrap().and_hms_opt(8, 30, second).unwrap()
}

fn entry(id: i64) -> LoggEntryEntity {
    LoggEntryEntity {
        id,
        greeting_id: id * 10,
        message_id: "3fae1c2d-4b5a-4c6d-8e7f-0123456789ab".to_string(),
        created: moment(id as u32),
    }
}

fn cursor(offset: i64, limit: i64, direction: &str) -> LoggQueryEntity {
    LoggQueryEntity { offset, limit, direction: direction.to_string() }
}

fn drive(unit: UnitOfWork, replies: Vec<Reply>) -> (UnitOfWork, Vec<Step>) {
    let mut unit = unit;
    let mut steps = Vec::new();
    for reply in replies {
        let (next, step) = unit.advance(reply);
        unit = next;
        steps.push(step);
    }
    (unit, steps)
}

#[test]
fn page_forward_is_set_up_with_offset_and_limit() {
    let unit = list_log_entries(trace(), cursor(3, 2, "forward")).unwrap();
    assert_eq!(
        unit,
        UnitOfWork::Idle {
            trace: trace(),
            operation: Operation::ListLogEntries {
                direction: SqlDirection { order: "ASC".to_string(), operator: ">=".to_string() },
                offset: 3,
                limit: 2,
            },
        }
    );
}

#[test]
fn page_backward_is_set_up_with_offset_and_limit() {
    let unit = list_log_entries(trace(), cursor(9, 4, "backward")).unwrap();
    assert_eq!(
        unit,
        UnitOfWork::Idle {
            trace: trace(),
            operation: Operation::ListLogEntries {
                direction: SqlDirection { order: "DESC".to_string(), operator: "<=".to_string() },
                offset: 9,
                limit: 4,
            },
        }
    );
}

#[test]
fn page_with_unknown_direction_is_refused_before_any_step() {
    let refused = list_log_entries(trace(), cursor(1, 10, "sideways")).unwrap_err();
    assert_eq!(refused.error_message, "Invalid direction");
    assert!(list_log_entries(trace(), cursor(1, 10, "")).is_err());
    assert!(list_log_entries(trace(), cursor(1, 10, "FORWARD")).is_err());
}

#[test]
fn page_forward_hands_back_the_rows_in_their_order() {
    let unit = list_log_entries(trace(), cursor(3, 2, "forward")).unwrap();
    let rows = vec![entry(3), entry(5)];
    let (end, steps) = drive(
        unit,
        vec![Reply::Ready, Reply::Done, Reply::Done, Reply::LogEntries(rows.clone()), Reply::Done],
    );
    assert_eq!(steps[0], Step::Begin);
    assert_eq!(steps[1], Step::Execute(Statement::SetTrace { trace: trace() }));
    match &steps[2] {
        Step::Execute(statement) => {
            assert_eq!(
                statement.sql(),
                "SELECT log.id, log.greeting_id, message.message_id, log.created FROM log JOIN message ON log.greeting_id = message.id WHERE log.id >= $1 ORDER BY log.id ASC LIMIT $2"
            );
        }
        other => panic!("not a statement: {:?}", other),
    }
    assert_eq!(steps[3], Step::Commit);
    assert_eq!(steps[4], Step::Finish(Output::LogEntries(rows)));
    assert_eq!(end, UnitOfWork::Finished);
}

#[test]
fn page_backward_hands_back_the_rows_in_their_order() {
    let unit = list_log_entries(trace(), cursor(5, 3, "backward")).unwrap();
    let rows = vec![entry(5), entry(3), entry(1)];
    let (_, steps) = drive(
        unit,
        vec![Reply::Ready, Reply::Done, Reply::Done, Reply::LogEntries(rows.clone()), Reply::Done],
    );
    match &steps[2] {
        Step::Execute(statement) => {
            assert!(statement.sql().ends_with("WHERE log.id <= $1 ORDER BY log.id DESC LIMIT $2"));
        }
        other => panic!("not a statement: {:?}", other),
    }
    assert_eq!(steps[4], Step::Finish(Output::LogEntries(rows)));
}

#[test]
fn page_beyond_all_rows_is_empty_and_no_failure() {
    let unit = list_log_entries(trace(), cursor(1000, 10, "forward")).unwrap();
    let (end, steps) = drive(
        unit,
        vec![Reply::Ready, Reply::Done, Reply::Done, Reply::LogEntries(vec![]), Reply::Done],
    );
    assert_eq!(steps[3], Step::Commit);
    assert_eq!(steps[4], Step::Finish(Output::LogEntries(vec![])));
    assert_eq!(end, UnitOfWork::Finished);
}

#[test]
fn page_query_that_fails_is_abandoned() {
    let unit = list_log_entries(trace(), cursor(1, -1, "forward")).unwrap();
    let (end, steps) = drive(
        unit,
        vec![
            Reply::Ready,
            Reply::Done,
            Reply::Done,
            Reply::Failed("LIMIT must not be negative".to_string()),
        ],
    );
    assert_eq!(
        steps[3],
        Step::Abandon(Failure::Database("LIMIT must not be negative".to_string()))
    );
    assert_eq!(end, UnitOfWork::Finished);
}

#[test]
fn page_takes_no_answer_of_the_wrong_kind() {
    let unit = list_log_entries(trace(), cursor(1, 1, "forward")).unwrap();
    let (_, steps) = drive(
        unit,
        vec![Reply::Ready, Reply::Done, Reply::Done, Reply::LogEntry(Some(entry(1)))],
    );
    assert_eq!(steps[3], Step::Abandon(Failure::Protocol));
}

#[test]
fn newest_entry_of_an_empty_log_is_none() {
    let unit = last_log_entry(trace());
    assert_eq!(unit, UnitOfWork::Idle { trace: trace(), operation: Operation::LastLogEntry });
    let (end, steps) = drive(
        unit,
        vec![Reply::Ready, Reply::Done, Reply::Done, Reply::LogEntry(None), Reply::Done],
    );
    assert_eq!(
        steps,
        vec![
            Step::Begin,
            Step::Execute(Statement::SetTrace { trace: trace() }),
            Step::Execute(Statement::SelectLastLogEntry),
            Step::Commit,
            Step::Finish(Output::LastLogEntry(None)),
        ]
    );
    assert_eq!(end, UnitOfWork::Finished);
}

#[test]
fn newest_entry_is_handed_back() {
    let (_, steps) = drive(
        last_log_entry(trace()),
        vec![Reply::Ready, Reply::Done, Reply::Done, Reply::LogEntry(Some(entry(8))), Reply::Done],
    );
    match &steps[4] {
        Step::Finish(Output::LastLogEntry(Some(newest))) => {
            assert_eq!(newest.id, 8);
            assert_eq!(newest.greeting_id, 80);
            assert_eq!(newest.created, moment(8));
        }
        other => panic!("not the newest entry: {:?}", other),
    }
}

#[test]
fn greeting_is_found() {
    let found = GreetingQueryEntity {
        id: "3fae1c2d-4b5a-4c6d-8e7f-0123456789ab".to_string(),
        to: "A".to_string(),
        from: "B".to_string(),
        heading: "Hi".to_string(),
        message: "Hello".to_string(),
        created: moment(0),
    };
    let unit = find_message(trace(), 17);
    assert_eq!(unit, UnitOfWork::Idle { trace: trace(), operation: Operation::FindMessage { id: 17 } });
    let (end, steps) = drive(
        unit,
        vec![
            Reply::Ready,
            Reply::Done,
            Reply::Done,
            Reply::Message(Some(found.clone())),
            Reply::Done,
        ],
    );
    assert_eq!(
        steps,
        vec![
            Step::Begin,
            Step::Execute(Statement::SetTrace { trace: trace() }),
            Step::Execute(Statement::SelectMessage { id: 17 }),
            Step::Commit,
            Step::Finish(Output::Message(Some(found))),
        ]
    );
    assert_eq!(end, UnitOfWork::Finished);
}

#[test]
fn greeting_that_is_absent_is_none_and_no_failure() {
    let (_, steps) = drive(
        find_message(trace(), -1),
        vec![Reply::Ready, Reply::Done, Reply::Done, Reply::Message(None), Reply::Done],
    );
    assert_eq!(steps[2], Step::Execute(Statement::SelectMessage { id: -1 }));
    assert_eq!(steps[3], Step::Commit);
    assert_eq!(steps[4], Step::Finish(Output::Message(None)));
}

#[test]
fn reading_never_inserts() {
    let units = vec![
        list_log_entries(trace(), cursor(0, 1, "forward")).unwrap(),
        last_log_entry(trace()),
        find_message(trace(), 1),
    ];
    for unit in units {
        let (_, steps) = drive(
            unit,
            vec![Reply::Ready, Reply::Done, Reply::Done, Reply::Inserted(1), Reply::Done],
        );
        assert!(steps.iter().all(|step| !matches!(
            step,
            Step::Execute(Statement::InsertMessage { .. })
                | Step::Execute(Statement::InsertLog { .. })
                | Step::Execute(Statement::GenerateLog)
        )));
        assert_eq!(steps[3], Step::Abandon(Failure::Protocol));
    }
}
