//! One operation as one transaction.
//!
//! A [`UnitOfWork`] is the state of an operation between two steps. The
//! driver that owns the connection calls [`UnitOfWork::advance`] with what the
//! database answered to the last step, performs the step it gets back, and
//! goes on until the step is [`Step::Finish`] or [`Step::Abandon`].

use vstd::prelude::*;

use crate::greeting_command::GreetingCmdEntity;
use crate::greeting_pg_trace::PgTraceContext;
use crate::greeting_query::{GreetingQueryEntity, LoggEntryEntity, SqlDirection};
use crate::statement::Statement;
use crate::Failure;

verus! {

/// What an operation does once its transaction carries the trace context.
#[derive(Debug, Clone, PartialEq)]
pub enum Operation {
    /// Store a greeting, whose message id has the value given, and its log row.
    Store { message_id: u128, greeting: GreetingCmdEntity },
    /// Read a page of the log.
    ListLogEntries { direction: SqlDirection, offset: i64, limit: i64 },
    /// Read the newest log entry.
    LastLogEntry,
    /// Read the greeting with this id.
    FindMessage { id: i64 },
    /// Have the database generate log rows.
    GenerateLog,
}

/// What the driver reports: the outcome of the step it was handed last.
#[derive(Debug, Clone, PartialEq)]
pub enum Reply {
    /// No step has been handed out yet.
    Ready,
    /// The step succeeded and hands nothing back.
    Done,
    /// The insert succeeded; the id that the database gave the new row.
    Inserted(i64),
    /// The rows of a page, in the order in which the database returned them.
    LogEntries(Vec<LoggEntryEntity>),
    /// The newest log entry, if the log has one.
    LogEntry(Option<LoggEntryEntity>),
    /// The greeting looked up, if there is one.
    Message(Option<GreetingQueryEntity>),
    /// The database failed the step; its message.
    Failed(String),
}

/// What an operation has to show for itself once it is committed.
#[derive(Debug, Clone, PartialEq)]
pub enum Output {
    /// The greeting is stored under this id, and so is its log row.
    Stored { greeting_id: i64 },
    /// The page asked for.
    LogEntries(Vec<LoggEntryEntity>),
    /// The newest log entry, if any.
    LastLogEntry(Option<LoggEntryEntity>),
    /// The greeting asked for, if any.
    Message(Option<GreetingQueryEntity>),
    /// The procedure has run.
    Generated,
}

/// What the driver is to do next.
#[derive(Debug, Clone, PartialEq)]
pub enum Step {
    /// Open a transaction.
    Begin,
    /// Execute the statement inside the open transaction.
    Execute(Statement),
    /// Commit the open transaction.
    Commit,
    /// Discard the transaction, if one is open, without committing it, and
    /// surface the failure. This ends the operation.
    Abandon(Failure),
    /// The transaction is committed: hand out the result. This ends the
    /// operation.
    Finish(Output),
}

/// The state of an operation between two steps.
#[derive(Debug, Clone, PartialEq)]
pub enum UnitOfWork {
    /// Nothing has been done yet.
    Idle { trace: PgTraceContext, operation: Operation },
    /// The transaction is being opened.
    Beginning { trace: PgTraceContext, operation: Operation },
    /// The trace context is being applied.
    Tracing { operation: Operation },
    /// The greeting is being inserted.
    InsertingMessage,
    /// The log row of the greeting with this id is being inserted.
    InsertingLog { greeting_id: i64 },
    /// The page is being selected.
    SelectingLogEntries,
    /// The newest log entry is being selected.
    SelectingLastLogEntry,
    /// The greeting is being selected.
    SelectingMessage,
    /// The procedure is running.
    Generating,
    /// The transaction is being committed; the result is kept until then.
    Committing { output: Output },
    /// The operation has ended, well or badly.
    Finished,
}

impl Operation {
    /// The first statement after the trace context, and the state in which
    /// its answer is awaited.
    pub open spec fn opening(self) -> (UnitOfWork, Step) {
        match self {
            Operation::Store { message_id, greeting } => (
                UnitOfWork::InsertingMessage,
                Step::Execute(Statement::InsertMessage { message_id, greeting }),
            ),
            Operation::ListLogEntries { direction, offset, limit } => (
                UnitOfWork::SelectingLogEntries,
                Step::Execute(Statement::SelectLogEntries { direction, offset, limit }),
            ),
            Operation::LastLogEntry => (
                UnitOfWork::SelectingLastLogEntry,
                Step::Execute(Statement::SelectLastLogEntry),
            ),
            Operation::FindMessage { id } => (
                UnitOfWork::SelectingMessage,
                Step::Execute(Statement::SelectMessage { id }),
            ),
            Operation::GenerateLog => (UnitOfWork::Generating, Step::Execute(Statement::GenerateLog)),
        }
    }

    fn opening_step(self) -> (next: (UnitOfWork, Step))
        ensures
            next == self.opening(),
    {
        match self {
            Operation::Store { message_id, greeting } => (
                UnitOfWork::InsertingMessage,
                Step::Execute(Statement::InsertMessage { message_id, greeting }),
            ),
            Operation::ListLogEntries { direction, offset, limit } => (
                UnitOfWork::SelectingLogEntries,
                Step::Execute(Statement::SelectLogEntries { direction, offset, limit }),
            ),
            Operation::LastLogEntry => (
                UnitOfWork::SelectingLastLogEntry,
                Step::Execute(Statement::SelectLastLogEntry),
            ),
            Operation::FindMessage { id } => (
                UnitOfWork::SelectingMessage,
                Step::Execute(Statement::SelectMessage { id }),
            ),
            Operation::GenerateLog => (UnitOfWork::Generating, Step::Execute(Statement::GenerateLog)),
        }
    }
}

/// How an operation ends when the reply does not let it go on: with the
/// database's failure, or, for a reply that does not answer the step in
/// flight, as a breach of protocol.
pub open spec fn broken_off(reply: Reply) -> (UnitOfWork, Step) {
    match reply {
        Reply::Failed(message) => (UnitOfWork::Finished, Step::Abandon(Failure::Database(message))),
        _ => (UnitOfWork::Finished, Step::Abandon(Failure::Protocol)),
    }
}

fn break_off(reply: Reply) -> (next: (UnitOfWork, Step))
    ensures
        next == broken_off(reply),
{
    match reply {
        Reply::Failed(message) => (UnitOfWork::Finished, Step::Abandon(Failure::Database(message))),
        _ => (UnitOfWork::Finished, Step::Abandon(Failure::Protocol)),
    }
}

impl UnitOfWork {
    /// An operation of which nothing has been done yet.
    pub fn new(trace: PgTraceContext, operation: Operation) -> (unit: UnitOfWork)
        ensures
            unit == (UnitOfWork::Idle { trace, operation }),
    {
        UnitOfWork::Idle { trace, operation }
    }

    /// Whether a transaction is open: from the moment the database has opened
    /// it until it is committed or abandoned.
    pub open spec fn in_transaction(self) -> bool {
        !(self is Idle || self is Beginning || self is Finished)
    }

    /// The state after `reply`, and the step to perform next.
    pub open spec fn next(self, reply: Reply) -> (UnitOfWork, Step) {
        match self {
            UnitOfWork::Idle { trace, operation } => match reply {
                Reply::Ready => (UnitOfWork::Beginning { trace, operation }, Step::Begin),
                _ => (UnitOfWork::Finished, Step::Abandon(Failure::Protocol)),
            },
            UnitOfWork::Beginning { trace, operation } => match reply {
                Reply::Done => (
                    UnitOfWork::Tracing { operation },
                    Step::Execute(Statement::SetTrace { trace }),
                ),
                _ => broken_off(reply),
            },
            UnitOfWork::Tracing { operation } => match reply {
                Reply::Done => operation.opening(),
                _ => broken_off(reply),
            },
            UnitOfWork::InsertingMessage => match reply {
                Reply::Inserted(id) => (
                    UnitOfWork::InsertingLog { greeting_id: id },
                    Step::Execute(Statement::InsertLog { greeting_id: id }),
                ),
                _ => broken_off(reply),
            },
            UnitOfWork::InsertingLog { greeting_id } => match reply {
                Reply::Done => (
                    UnitOfWork::Committing { output: Output::Stored { greeting_id } },
                    Step::Commit,
                ),
                _ => broken_off(reply),
            },
            UnitOfWork::SelectingLogEntries => match reply {
                Reply::LogEntries(entries) => (
                    UnitOfWork::Committing { output: Output::LogEntries(entries) },
                    Step::Commit,
                ),
                _ => broken_off(reply),
            },
            UnitOfWork::SelectingLastLogEntry => match reply {
                Reply::LogEntry(entry) => (
                    UnitOfWork::Committing { output: Output::LastLogEntry(entry) },
                    Step::Commit,
                ),
                _ => broken_off(reply),
            },
            UnitOfWork::SelectingMessage => match reply {
                Reply::Message(message) => (
                    UnitOfWork::Committing { output: Output::Message(message) },
                    Step::Commit,
                ),
                _ => broken_off(reply),
            },
            UnitOfWork::Generating => match reply {
                Reply::Done => (
                    UnitOfWork::Committing { output: Output::Generated },
                    Step::Commit,
                ),
                _ => broken_off(reply),
            },
            UnitOfWork::Committing { output } => match reply {
                Reply::Done => (UnitOfWork::Finished, Step::Finish(output)),
                _ => broken_off(reply),
            },
            UnitOfWork::Finished => (UnitOfWork::Finished, Step::Abandon(Failure::Protocol)),
        }
    }

    /// Takes the database's answer to the step in flight and decides the
    /// next one. An answer of failure, or one of the wrong kind, ends the
    /// operation with [`Step::Abandon`]; so does any answer to an operation
    /// that has ended.
    pub fn advance(self, reply: Reply) -> (next: (UnitOfWork, Step))
        ensures
            next == self.next(reply),
    {
        match self {
            UnitOfWork::Idle { trace, operation } => match reply {
                Reply::Ready => (UnitOfWork::Beginning { trace, operation }, Step::Begin),
                _ => (UnitOfWork::Finished, Step::Abandon(Failure::Protocol)),
            },
            UnitOfWork::Beginning { trace, operation } => match reply {
                Reply::Done => (
                    UnitOfWork::Tracing { operation },
                    Step::Execute(Statement::SetTrace { trace }),
                ),
                other => break_off(other),
            },
            UnitOfWork::Tracing { operation } => match reply {
                Reply::Done => operation.opening_step(),
                other => break_off(other),
            },
            UnitOfWork::InsertingMessage => match reply {
                Reply::Inserted(id) => (
                    UnitOfWork::InsertingLog { greeting_id: id },
                    Step::Execute(Statement::InsertLog { greeting_id: id }),
                ),
                other => break_off(other),
            },
            UnitOfWork::InsertingLog { greeting_id } => match reply {
                Reply::Done => (
                    UnitOfWork::Committing { output: Output::Stored { greeting_id } },
                    Step::Commit,
                ),
                other => break_off(other),
            },
            UnitOfWork::SelectingLogEntries => match reply {
                Reply::LogEntries(entries) => (
                    UnitOfWork::Committing { output: Output::LogEntries(entries) },
                    Step::Commit,
                ),
                other => break_off(other),
            },
            UnitOfWork::SelectingLastLogEntry => match reply {
                Reply::LogEntry(entry) => (
                    UnitOfWork::Committing { output: Output::LastLogEntry(entry) },
                    Step::Commit,
                ),
                other => break_off(other),
            },
            UnitOfWork::SelectingMessage => match reply {
                Reply::Message(message) => (
                    UnitOfWork::Committing { output: Output::Message(message) },
                    Step::Commit,
                ),
                other => break_off(other),
            },
            UnitOfWork::Generating => match reply {
                Reply::Done => (
                    UnitOfWork::Committing { output: Output::Generated },
                    Step::Commit,
                ),
                other => break_off(other),
            },
            UnitOfWork::Committing { output } => match reply {
                Reply::Done => (UnitOfWork::Finished, Step::Finish(output)),
                other => break_off(other),
            },
            UnitOfWork::Finished => (UnitOfWork::Finished, Step::Abandon(Failure::Protocol)),
        }
    }
}

impl UnitOfWork {
    /// The state after the first `n` of `replies`.
    pub open spec fn state_after(self, replies: Seq<Reply>, n: nat) -> UnitOfWork
        decreases n,
    {
        if n == 0 {
            self
        } else {
            self.state_after(replies, (n - 1) as nat).next(replies[n - 1]).0
        }
    }

    /// The step handed out in answer to `replies[i]`.
    pub open spec fn step_at(self, replies: Seq<Reply>, i: nat) -> Step {
        self.state_after(replies, i).next(replies[i as int]).1
    }

    /// How far an operation has come. Every reply takes it further, until it
    /// has ended.
    pub open spec fn rank(self) -> nat {
        match self {
            UnitOfWork::Idle { .. } => 0,
            UnitOfWork::Beginning { .. } => 1,
            UnitOfWork::Tracing { .. } => 2,
            UnitOfWork::InsertingMessage => 3,
            UnitOfWork::SelectingLogEntries => 3,
            UnitOfWork::SelectingLastLogEntry => 3,
            UnitOfWork::SelectingMessage => 3,
            UnitOfWork::Generating => 3,
            UnitOfWork::InsertingLog { .. } => 4,
            UnitOfWork::Committing { .. } => 5,
            UnitOfWork::Finished => 6,
        }
    }
}

/// After `n` replies an operation has come at least `n` further, or has ended.
pub proof fn lemma_rank_after(unit: UnitOfWork, replies: Seq<Reply>, n: nat)
    ensures
        unit.state_after(replies, n).rank() >= unit.rank() + n || unit.state_after(replies, n)
            is Finished,
    decreases n,
{
    if n > 0 {
        lemma_rank_after(unit, replies, (n - 1) as nat);
    }
}

/// An operation that has ended stays ended.
pub proof fn lemma_finished_stays(unit: UnitOfWork, replies: Seq<Reply>, n: nat, m: nat)
    requires
        n <= m,
        unit.state_after(replies, n) is Finished,
    ensures
        unit.state_after(replies, m) is Finished,
    decreases m,
{
    if n < m {
        lemma_finished_stays(unit, replies, n, (m - 1) as nat);
    }
}

/// Whatever is executed in a transaction is executed under the trace
/// context: in every run of an operation, whatever the database answers, the
/// first step is to begin, the first statement is the one that applies the
/// operation's trace context, and no later statement applies one again.
pub proof fn law_trace_context_first(
    trace: PgTraceContext,
    operation: Operation,
    replies: Seq<Reply>,
    i: nat,
)
    requires
        (UnitOfWork::Idle { trace, operation }).step_at(replies, i) is Execute,
    ensures
        i >= 1,
        (UnitOfWork::Idle { trace, operation }).step_at(replies, 0) == Step::Begin,
        (UnitOfWork::Idle { trace, operation }).step_at(replies, 1) == Step::Execute(
            Statement::SetTrace { trace },
        ),
        (UnitOfWork::Idle { trace, operation }).step_at(replies, i)->Execute_0.is_trace() <==> i
            == 1,
{
    let unit = UnitOfWork::Idle { trace, operation };
    reveal_with_fuel(UnitOfWork::state_after, 3);
    lemma_rank_after(unit, replies, i);
    if i >= 2 {
        if unit.state_after(replies, 2) is Finished {
            lemma_finished_stays(unit, replies, 2, i);
        }
    }
}

/// A failure ends the operation: from the reply that reports one, every
/// step is to abandon. Nothing is begun, executed or committed after it.
pub proof fn law_failure_abandons(unit: UnitOfWork, replies: Seq<Reply>, j: nat, i: nat)
    requires
        j <= i,
        j < replies.len(),
        replies[j as int] is Failed,
    ensures
        unit.step_at(replies, i) is Abandon,
        unit.state_after(replies, i + 1) is Finished,
{
    assert(unit.state_after(replies, j + 1) is Finished) by {
        reveal_with_fuel(UnitOfWork::state_after, 2);
    }
    lemma_finished_stays(unit, replies, j + 1, i + 1);
    if j < i {
        lemma_finished_stays(unit, replies, j + 1, i);
    }
    reveal_with_fuel(UnitOfWork::state_after, 2);
}

/// A failure leaves no result: in a run in which the database reports a
/// failure while the operation has not ended, no step is to finish.
pub proof fn law_no_result_after_failure(unit: UnitOfWork, replies: Seq<Reply>, j: nat, i: nat)
    requires
        j < replies.len(),
        replies[j as int] is Failed,
        !(unit.state_after(replies, j) is Finished),
    ensures
        !(unit.step_at(replies, i) is Finish),
{
    if j <= i {
        law_failure_abandons(unit, replies, j, i);
    } else if unit.step_at(replies, i) is Finish {
        assert(unit.state_after(replies, i + 1) is Finished) by {
            reveal_with_fuel(UnitOfWork::state_after, 2);
        }
        lemma_finished_stays(unit, replies, i + 1, j);
    }
}

/// An operation that has been abandoned is not taken up again: after a step
/// to abandon, every step is to abandon.
pub proof fn law_abandoned_for_good(unit: UnitOfWork, replies: Seq<Reply>, j: nat, i: nat)
    requires
        j <= i,
        unit.step_at(replies, j) is Abandon,
    ensures
        unit.step_at(replies, i) is Abandon,
{
    assert(unit.state_after(replies, j + 1) is Finished) by {
        reveal_with_fuel(UnitOfWork::state_after, 2);
    }
    if j < i {
        lemma_finished_stays(unit, replies, j + 1, i);
    }
}

/// A transaction is committed at most once, and only when all went well: in
/// a run in which the step in answer to `replies[i]` is to commit, every
/// earlier step was to begin or to execute, no reply so far reports a
/// failure, and no other step of the run is to commit.
pub proof fn law_commit_once_after_success(
    unit: UnitOfWork,
    replies: Seq<Reply>,
    i: nat,
    j: nat,
)
    requires
        i < replies.len(),
        unit.step_at(replies, i) is Commit,
    ensures
        j <= i ==> !(replies[j as int] is Failed),
        j < i ==> unit.step_at(replies, j) is Begin || unit.step_at(replies, j) is Execute,
        j != i ==> !(unit.step_at(replies, j) is Commit),
{
    if j <= i {
        if replies[j as int] is Failed {
            law_failure_abandons(unit, replies, j, i);
        }
    }
    if j < i {
        lemma_steps_before_commit(unit, replies, i, j);
    } else if j > i {
        assert(unit.state_after(replies, i + 1) is Committing) by {
            reveal_with_fuel(UnitOfWork::state_after, 2);
        }
        lemma_commit_is_last(unit, replies, i + 1, j);
    }
}

/// Once a commit is under way, the steps are to finish or to abandon.
proof fn lemma_commit_is_last(unit: UnitOfWork, replies: Seq<Reply>, n: nat, j: nat)
    requires
        n <= j,
        unit.state_after(replies, n) is Committing,
    ensures
        unit.step_at(replies, j) is Finish || unit.step_at(replies, j) is Abandon,
{
    if n < j {
        assert(unit.state_after(replies, n + 1) is Finished) by {
            reveal_with_fuel(UnitOfWork::state_after, 2);
        }
        lemma_finished_stays(unit, replies, n + 1, j);
    }
}

/// Before a step to commit, every step is to begin or to execute.
proof fn lemma_steps_before_commit(unit: UnitOfWork, replies: Seq<Reply>, i: nat, j: nat)
    requires
        j < i,
        unit.step_at(replies, i) is Commit,
    ensures
        unit.step_at(replies, j) is Begin || unit.step_at(replies, j) is Execute,
{
    let before = unit.state_after(replies, j);
    let after = unit.state_after(replies, j + 1);
    assert(after == before.next(replies[j as int]).0) by {
        reveal_with_fuel(UnitOfWork::state_after, 2);
    }
    if after is Finished {
        lemma_finished_stays(unit, replies, j + 1, i);
    } else if after is Committing {
        lemma_commit_is_last(unit, replies, j + 1, i);
    }
}

/// A result is handed out only for a transaction that is committed: the
/// step to finish answers the database's word that the commit went
/// through, and comes directly after the step to commit.
pub proof fn law_finish_after_commit(unit: UnitOfWork, replies: Seq<Reply>, i: nat)
    requires
        !(unit is Committing),
        unit.step_at(replies, i) is Finish,
    ensures
        i >= 1,
        unit.step_at(replies, (i - 1) as nat) is Commit,
        replies[i as int] is Done,
{
    reveal_with_fuel(UnitOfWork::state_after, 2);
}

/// The replies of a run in which the database does all it is asked to, for
/// an operation whose one statement is answered by `answer`.
pub open spec fn smooth_replies(answer: Reply) -> Seq<Reply> {
    seq![Reply::Ready, Reply::Done, Reply::Done, answer, Reply::Done]
}

/// Storing a greeting, whatever the database answers. The greeting is
/// inserted at most once, as the third step. The log row is inserted at most
/// once, as the fourth step, for the id under which the database has just
/// reported the greeting inserted. The commit comes only after both, and
/// the operation finishes only as stored under that id.
pub proof fn law_store_run(
    trace: PgTraceContext,
    message_id: u128,
    greeting: GreetingCmdEntity,
    replies: Seq<Reply>,
    i: nat,
)
    ensures
        ({
            let unit = UnitOfWork::Idle {
                trace,
                operation: Operation::Store { message_id, greeting },
            };
            let step = unit.step_at(replies, i);
            &&& step is Execute ==> i == 1 || i == 2 || i == 3
            &&& step is Execute && i == 2 ==> step == Step::Execute(
                Statement::InsertMessage { message_id, greeting },
            )
            &&& step is Execute && i == 3 ==> replies[3] is Inserted && step == Step::Execute(
                Statement::InsertLog { greeting_id: replies[3]->Inserted_0 },
            ) && unit.step_at(replies, 2) is Execute
            &&& step is Commit ==> i == 4 && unit.step_at(replies, 3) is Execute
            &&& step is Finish ==> i == 5 && replies[3] is Inserted && step == Step::Finish(
                Output::Stored { greeting_id: replies[3]->Inserted_0 },
            )
        }),
{
    let unit = UnitOfWork::Idle { trace, operation: Operation::Store { message_id, greeting } };
    reveal_with_fuel(UnitOfWork::state_after, 7);
    lemma_rank_after(unit, replies, i);
    if i >= 6 {
        if unit.state_after(replies, 6) is Finished {
            lemma_finished_stays(unit, replies, 6, i);
        }
    }
}

/// Whether `answer` is of the kind that answers the one statement of the
/// reading operation, and `output` is what it holds.
pub open spec fn read_result(operation: Operation, answer: Reply, output: Output) -> bool {
    match operation {
        Operation::ListLogEntries { .. } => answer matches Reply::LogEntries(entries) && output
            == Output::LogEntries(entries),
        Operation::LastLogEntry => answer matches Reply::LogEntry(entry) && output
            == Output::LastLogEntry(entry),
        Operation::FindMessage { .. } => answer matches Reply::Message(message) && output
            == Output::Message(message),
        _ => false,
    }
}

/// Reading, whatever the database answers. Besides the trace context a
/// reading operation executes one statement, the select of what it is to
/// read, as its third step, and never an insert or the procedure. It
/// commits as the fourth step, and finishes only with what the database
/// answered to the select, unchanged and in the same order.
pub proof fn law_read_run(
    trace: PgTraceContext,
    operation: Operation,
    replies: Seq<Reply>,
    i: nat,
)
    requires
        operation is ListLogEntries || operation is LastLogEntry || operation is FindMessage,
    ensures
        ({
            let unit = UnitOfWork::Idle { trace, operation };
            let step = unit.step_at(replies, i);
            &&& step is Execute ==> i == 1 || i == 2
            &&& step is Execute && i == 2 ==> step == operation.opening().1
            &&& step is Commit ==> i == 3
            &&& step matches Step::Finish(output) ==> i == 4 && read_result(
                operation,
                replies[3],
                output,
            )
        }),
{
    let unit = UnitOfWork::Idle { trace, operation };
    reveal_with_fuel(UnitOfWork::state_after, 6);
    lemma_rank_after(unit, replies, i);
    if i >= 5 {
        if unit.state_after(replies, 5) is Finished {
            lemma_finished_stays(unit, replies, 5, i);
        }
    }
}

/// One run of the generating procedure, whatever the database answers.
/// Besides the trace context it executes one statement, the call of the
/// procedure, as its third step; it commits as the fourth.
pub proof fn law_generation_run(trace: PgTraceContext, replies: Seq<Reply>, i: nat)
    ensures
        ({
            let unit = UnitOfWork::Idle { trace, operation: Operation::GenerateLog };
            let step = unit.step_at(replies, i);
            &&& step is Execute ==> i == 1 || i == 2
            &&& step is Execute && i == 2 ==> step == Step::Execute(Statement::GenerateLog)
            &&& step is Commit ==> i == 3
            &&& step is Finish ==> i == 4 && step == Step::Finish(Output::Generated)
        }),
{
    let unit = UnitOfWork::Idle { trace, operation: Operation::GenerateLog };
    reveal_with_fuel(UnitOfWork::state_after, 6);
    lemma_rank_after(unit, replies, i);
    if i >= 5 {
        if unit.state_after(replies, 5) is Finished {
            lemma_finished_stays(unit, replies, 5, i);
        }
    }
}

/// When the database does all it is asked to, storing a greeting takes six
/// steps: begin, apply the trace context, insert the greeting, insert its
/// log row under the id returned, commit, finish.
pub proof fn law_store_goes_through(
    trace: PgTraceContext,
    message_id: u128,
    greeting: GreetingCmdEntity,
    id: i64,
)
    ensures
        ({
            let unit = UnitOfWork::Idle {
                trace,
                operation: Operation::Store { message_id, greeting },
            };
            let replies = seq![
                Reply::Ready,
                Reply::Done,
                Reply::Done,
                Reply::Inserted(id),
                Reply::Done,
                Reply::Done,
            ];
            &&& unit.step_at(replies, 0) == Step::Begin
            &&& unit.step_at(replies, 1) == Step::Execute(Statement::SetTrace { trace })
            &&& unit.step_at(replies, 2) == Step::Execute(
                Statement::InsertMessage { message_id, greeting },
            )
            &&& unit.step_at(replies, 3) == Step::Execute(Statement::InsertLog { greeting_id: id })
            &&& unit.step_at(replies, 4) == Step::Commit
            &&& unit.step_at(replies, 5) == Step::Finish(Output::Stored { greeting_id: id })
            &&& forall|n: nat| 1 < n < 6 ==> #[trigger] unit.state_after(replies, n).in_transaction()
            &&& unit.state_after(replies, 6) == UnitOfWork::Finished
        }),
{
    reveal_with_fuel(UnitOfWork::state_after, 7);
}

/// When the database does all it is asked to, an operation other than
/// storing takes five steps: begin, apply the trace context, execute the
/// operation's one statement, commit, finish.
pub proof fn law_single_statement_goes_through(
    trace: PgTraceContext,
    operation: Operation,
    answer: Reply,
)
    requires
        !(operation is Store),
        operation.opening().0.next(answer).1 is Commit,
    ensures
        ({
            let unit = UnitOfWork::Idle { trace, operation };
            let replies = smooth_replies(answer);
            &&& unit.step_at(replies, 0) == Step::Begin
            &&& unit.step_at(replies, 1) == Step::Execute(Statement::SetTrace { trace })
            &&& unit.step_at(replies, 2) == operation.opening().1
            &&& unit.step_at(replies, 3) == Step::Commit
            &&& unit.step_at(replies, 4) is Finish
            &&& forall|n: nat| 1 < n < 5 ==> #[trigger] unit.state_after(replies, n).in_transaction()
            &&& unit.state_after(replies, 5) == UnitOfWork::Finished
        }),
{
    reveal_with_fuel(UnitOfWork::state_after, 6);
}

} // verus!
