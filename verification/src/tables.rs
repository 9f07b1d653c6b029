//! What the statements mean.
//!
//! This crate sends statements; a database executes them. The definitions
//! here say, over a plain model of the two tables, what a database that
//! does as it is asked answers to each statement and what the statement
//! leaves behind. The laws that follow are laws of that meaning: they hold
//! of every database that answers as [`Tables::answers`] and
//! [`Tables::writes`] say.

use chrono::NaiveDateTime;
use vstd::prelude::*;

use crate::greeting_command::{uuid_value, GreetingCmdEntity};
use crate::greeting_pg_trace::PgTraceContext;
use crate::greeting_query::{
    lemma_directions_differ, page_plan, GreetingQueryEntity, LoggEntryEntity, LoggQueryEntity,
};
use crate::statement::Statement;
use crate::DbError;
use crate::transaction::{
    law_no_result_after_failure, law_read_run, law_store_run, Operation, Output, Reply, Step,
    UnitOfWork,
};

verus! {

/// A row of the message table: the greeting as it was handed in, and the
/// value of its message id.
pub struct MessageRow {
    pub message_id: u128,
    pub greeting: GreetingCmdEntity,
}

/// A row of the log table.
pub struct LogRow {
    pub id: i64,
    pub greeting_id: i64,
    pub created: NaiveDateTime,
}

/// The two tables: the messages by their id, and the log in the order of
/// insertion.
pub struct Tables {
    pub messages: Map<i64, MessageRow>,
    pub log: Seq<LogRow>,
}

/// Ids grow along the rows. They need not be consecutive.
pub open spec fn ascending(rows: Seq<LogRow>) -> bool {
    forall|i: int, j: int| 0 <= i < j < rows.len() ==> rows[i].id < rows[j].id
}

/// Ids fall along the rows.
pub open spec fn descending(rows: Seq<LogRow>) -> bool {
    forall|i: int, j: int| 0 <= i < j < rows.len() ==> rows[i].id > rows[j].id
}

/// Whether a row with this id lies on the side of `offset` that the
/// direction names. The offset itself lies on both sides.
pub open spec fn within(forward: bool, offset: i64, id: i64) -> bool {
    if forward {
        id >= offset
    } else {
        id <= offset
    }
}

/// Whether a row with id `near` comes before one with id `far` when
/// travelling in the direction named.
pub open spec fn nearer(forward: bool, near: i64, far: i64) -> bool {
    if forward {
        near < far
    } else {
        near > far
    }
}

/// The rows of `rows` on the side of `offset` that the direction names.
pub open spec fn reached(rows: Seq<LogRow>, forward: bool, offset: i64) -> Seq<LogRow> {
    rows.filter(|row: LogRow| within(forward, offset, row.id))
}

/// The page at `offset`: of the rows that lie on the side named, the
/// nearest first, and no more than `limit` of them. `rows` is taken to be
/// ascending, so that travelling backward is reading in reverse.
pub open spec fn page(rows: Seq<LogRow>, forward: bool, offset: i64, limit: nat) -> Seq<LogRow> {
    let nearest_first = if forward {
        reached(rows, forward, offset)
    } else {
        reached(rows, forward, offset).reverse()
    };
    if limit < nearest_first.len() {
        nearest_first.take(limit as int)
    } else {
        nearest_first
    }
}

/// Filtering keeps the order and invents nothing.
pub proof fn lemma_filter_ascending(rows: Seq<LogRow>, keep: spec_fn(LogRow) -> bool)
    requires
        ascending(rows),
    ensures
        ascending(rows.filter(keep)),
        forall|i: int| 0 <= i < rows.filter(keep).len() ==> rows.contains(#[trigger] rows.filter(keep)[i]),
        forall|i: int| 0 <= i < rows.filter(keep).len() ==> keep(#[trigger] rows.filter(keep)[i]),
        forall|k: int| 0 <= k < rows.len() && keep(rows[k]) ==> rows.filter(keep).contains(#[trigger] rows[k]),
    decreases rows.len(),
{
    reveal(Seq::filter);
    if rows.len() > 0 {
        let front = rows.drop_last();
        let last = rows.last();
        lemma_filter_ascending(front, keep);
        let kept = front.filter(keep);
        assert forall|i: int| 0 <= i < kept.len() implies rows.contains(#[trigger] kept[i])
            && kept[i].id < last.id by {
            assert(front.contains(kept[i]));
            let k = choose|k: int| 0 <= k < front.len() && front[k] == kept[i];
            assert(rows[k] == kept[i]);
        }
        assert forall|k: int| 0 <= k < rows.len() && keep(rows[k]) implies rows.filter(
            keep,
        ).contains(#[trigger] rows[k]) by {
            if k < front.len() {
                assert(front[k] == rows[k]);
                assert(kept.contains(front[k]));
                let m = choose|m: int| 0 <= m < kept.len() && kept[m] == front[k];
                assert(rows.filter(keep)[m] == rows[k]);
            } else {
                assert(rows.filter(keep)[kept.len() as int] == rows[k]);
            }
        }
        if keep(last) {
            assert(rows.filter(keep)[kept.len() as int] == last);
            assert(rows[rows.len() - 1] == last);
        }
    }
}

/// Travelling forward: the page holds rows of the table only, each with an
/// id that is at least the offset, in ascending order of id, and no more of
/// them than the limit.
pub proof fn law_forward_page(rows: Seq<LogRow>, offset: i64, limit: nat)
    requires
        ascending(rows),
    ensures
        page(rows, true, offset, limit).len() <= limit,
        ascending(page(rows, true, offset, limit)),
        forall|i: int|
            0 <= i < page(rows, true, offset, limit).len() ==> (#[trigger] page(
                rows,
                true,
                offset,
                limit,
            )[i]).id >= offset && rows.contains(page(rows, true, offset, limit)[i]),
{
    lemma_filter_ascending(rows, |row: LogRow| within(true, offset, row.id));
}

/// Travelling backward: the page holds rows of the table only, each with an
/// id that is at most the offset, in descending order of id, and no more of
/// them than the limit.
pub proof fn law_backward_page(rows: Seq<LogRow>, offset: i64, limit: nat)
    requires
        ascending(rows),
    ensures
        page(rows, false, offset, limit).len() <= limit,
        descending(page(rows, false, offset, limit)),
        forall|i: int|
            0 <= i < page(rows, false, offset, limit).len() ==> (#[trigger] page(
                rows,
                false,
                offset,
                limit,
            )[i]).id <= offset && rows.contains(page(rows, false, offset, limit)[i]),
{
    lemma_filter_ascending(rows, |row: LogRow| within(false, offset, row.id));
}

/// An offset beyond every row gives the empty page: forward when every id
/// is below the offset, backward when every id is above it.
pub proof fn law_page_beyond_the_rows(rows: Seq<LogRow>, forward: bool, offset: i64, limit: nat)
    requires
        ascending(rows),
        forall|k: int| 0 <= k < rows.len() ==> !within(forward, offset, #[trigger] rows[k].id),
    ensures
        page(rows, forward, offset, limit).len() == 0,
{
    let keep = |row: LogRow| within(forward, offset, row.id);
    lemma_filter_ascending(rows, keep);
    if rows.filter(keep).len() > 0 {
        let first = rows.filter(keep)[0];
        assert(rows.contains(first));
        let k = choose|k: int| 0 <= k < rows.len() && rows[k] == first;
        assert(!within(forward, offset, rows[k].id));
    }
}

/// Forward and backward are mirror images, and the row at the offset
/// belongs to both: where the table has a row with the offset as its id,
/// a page of at least one row starts with that row, whichever the direction.
pub proof fn law_page_starts_at_offset(
    rows: Seq<LogRow>,
    forward: bool,
    offset: i64,
    limit: nat,
    k: int,
)
    requires
        ascending(rows),
        0 <= k < rows.len(),
        rows[k].id == offset,
        limit >= 1,
    ensures
        page(rows, forward, offset, limit).len() >= 1,
        page(rows, forward, offset, limit)[0] == rows[k],
{
    let keep = |row: LogRow| within(forward, offset, row.id);
    lemma_filter_ascending(rows, keep);
    let kept = rows.filter(keep);
    assert(keep(rows[k]));
    assert(kept.contains(rows[k]));
    let m = choose|m: int| 0 <= m < kept.len() && kept[m] == rows[k];
    if forward {
        if m > 0 {
            assert(keep(kept[0]));
            assert(kept[0].id < kept[m].id);
        }
    } else {
        if m < kept.len() - 1 {
            assert(keep(kept[kept.len() - 1]));
            assert(kept[m].id < kept[kept.len() - 1].id);
        }
    }
}

/// A page leaves out no row that is nearer than one it holds: a row of the
/// table on the side named is on the page, or the page is full and every
/// row on it is nearer.
pub proof fn law_page_keeps_nearest(
    rows: Seq<LogRow>,
    forward: bool,
    offset: i64,
    limit: nat,
    k: int,
)
    requires
        ascending(rows),
        0 <= k < rows.len(),
        within(forward, offset, rows[k].id),
    ensures
        page(rows, forward, offset, limit).contains(rows[k]) || (page(
            rows,
            forward,
            offset,
            limit,
        ).len() == limit && forall|i: int|
            0 <= i < limit ==> nearer(
                forward,
                (#[trigger] page(rows, forward, offset, limit)[i]).id,
                rows[k].id,
            )),
{
    let keep = |row: LogRow| within(forward, offset, row.id);
    lemma_filter_ascending(rows, keep);
    let kept = rows.filter(keep);
    let shown = page(rows, forward, offset, limit);
    assert(keep(rows[k]));
    assert(kept.contains(rows[k]));
    let m = choose|m: int| 0 <= m < kept.len() && kept[m] == rows[k];
    let at = if forward {
        m
    } else {
        kept.len() - 1 - m
    };
    if at < shown.len() {
        assert(shown[at] == rows[k]);
    } else {
        assert forall|i: int| 0 <= i < limit implies nearer(
            forward,
            (#[trigger] shown[i]).id,
            rows[k].id,
        ) by {
            if forward {
                assert(shown[i] == kept[i]);
            } else {
                assert(shown[i] == kept[kept.len() - 1 - i]);
            }
        }
    }
}

/// Whether `found` is the greeting of `row` as it is read back: the texts and
/// the time of creation are those handed in, and the id denotes the same UUID
/// as the message id handed in, in whatever notation. For the time this
/// takes a database that keeps the time as exactly as it was given.
pub open spec fn reads_back(found: GreetingQueryEntity, row: MessageRow) -> bool {
    &&& uuid_value(found.id@) == Some(row.message_id)
    &&& found.to@ == row.greeting.to@
    &&& found.from@ == row.greeting.from@
    &&& found.heading@ == row.greeting.heading@
    &&& found.message@ == row.greeting.message@
    &&& found.created == row.greeting.created
}

impl Tables {
    /// The ids of the log grow in the order of insertion.
    pub open spec fn wf(self) -> bool {
        ascending(self.log)
    }

    /// The log as the join with the messages shows it: the rows whose
    /// greeting exists.
    pub open spec fn joined(self) -> Seq<LogRow> {
        self.log.filter(|row: LogRow| self.messages.dom().contains(row.greeting_id))
    }

    /// Whether `entry` is `row` as the join shows it.
    pub open spec fn shows(self, entry: LoggEntryEntity, row: LogRow) -> bool {
        &&& entry.id == row.id
        &&& entry.greeting_id == row.greeting_id
        &&& entry.created == row.created
        &&& self.messages.dom().contains(row.greeting_id)
        &&& uuid_value(entry.message_id@) == Some(self.messages[row.greeting_id].message_id)
    }

    /// Whether `entries` are `rows`, one for one and in the same order.
    pub open spec fn shows_all(self, entries: Seq<LoggEntryEntity>, rows: Seq<LogRow>) -> bool {
        &&& entries.len() == rows.len()
        &&& forall|i: int| 0 <= i < rows.len() ==> self.shows(#[trigger] entries[i], rows[i])
    }

    /// Whether `reply` is what a database that holds these tables answers to
    /// a statement that reads. A page is answered for a limit that is not
    /// negative and a direction that is one of the two.
    pub open spec fn answers(self, statement: Statement, reply: Reply) -> bool {
        match statement {
            Statement::SelectLogEntries { direction, offset, limit } => {
                &&& limit >= 0
                &&& direction.is_forward() || direction.is_backward()
                &&& reply matches Reply::LogEntries(entries)
                &&& self.shows_all(
                    entries@,
                    page(self.joined(), direction.is_forward(), offset, limit as nat),
                )
            },
            Statement::SelectLastLogEntry => {
                &&& reply matches Reply::LogEntry(newest)
                &&& match newest {
                    Some(entry) => self.joined().len() > 0 && self.shows(
                        entry,
                        self.joined().last(),
                    ),
                    None => self.joined().len() == 0,
                }
            },
            Statement::SelectMessage { id } => {
                &&& reply matches Reply::Message(message)
                &&& match message {
                    Some(found) => self.messages.dom().contains(id) && reads_back(
                        found,
                        self.messages[id],
                    ),
                    None => !self.messages.dom().contains(id),
                }
            },
            _ => false,
        }
    }

    /// Whether a database that holds these tables, on answering an insert
    /// with `reply`, holds `after`. A greeting gets an id that no greeting
    /// has; a log row gets an id above every id of the log, and refers to a
    /// greeting that exists.
    pub open spec fn writes(self, statement: Statement, reply: Reply, after: Tables) -> bool {
        match statement {
            Statement::InsertMessage { message_id, greeting } => {
                &&& reply matches Reply::Inserted(id)
                &&& !self.messages.dom().contains(id)
                &&& after.messages == self.messages.insert(id, MessageRow { message_id, greeting })
                &&& after.log == self.log
            },
            Statement::InsertLog { greeting_id } => {
                &&& reply is Done
                &&& self.messages.dom().contains(greeting_id)
                &&& after.messages == self.messages
                &&& after.log.len() == self.log.len() + 1
                &&& after.log.drop_last() == self.log
                &&& after.log.last().greeting_id == greeting_id
                &&& forall|k: int| 0 <= k < self.log.len() ==> self.log[k].id < after.log.last().id
            },
            _ => false,
        }
    }

    /// Whether a database that held these tables holds `after` once it has
    /// answered the two inserts of a store with `inserted` and `logged`.
    pub open spec fn stores(
        self,
        message_id: u128,
        greeting: GreetingCmdEntity,
        inserted: Reply,
        logged: Reply,
        after: Tables,
    ) -> bool {
        exists|between: Tables|
            {
                &&& inserted is Inserted
                &&& #[trigger] self.writes(
                    Statement::InsertMessage { message_id, greeting },
                    inserted,
                    between,
                )
                &&& between.writes(
                    Statement::InsertLog { greeting_id: inserted->Inserted_0 },
                    logged,
                    after,
                )
            }
    }
}

/// The answer to a page query, travelling forward: entries with an id that
/// is at least the offset, in ascending order of id, no more than the limit.
pub proof fn law_forward_answer(
    tables: Tables,
    statement: Statement,
    entries: Vec<LoggEntryEntity>,
)
    requires
        tables.wf(),
        statement matches Statement::SelectLogEntries { direction, .. } && direction.is_forward(),
        tables.answers(statement, Reply::LogEntries(entries)),
    ensures
        entries@.len() <= statement->SelectLogEntries_limit,
        forall|i: int|
            0 <= i < entries@.len() ==> (#[trigger] entries@[i]).id
                >= statement->SelectLogEntries_offset,
        forall|i: int, j: int|
            0 <= i < j < entries@.len() ==> (#[trigger] entries@[i]).id < (
            #[trigger] entries@[j]).id,
{
    let offset = statement->SelectLogEntries_offset;
    let limit = statement->SelectLogEntries_limit as nat;
    lemma_filter_ascending(
        tables.log,
        |row: LogRow| tables.messages.dom().contains(row.greeting_id),
    );
    law_forward_page(tables.joined(), offset, limit);
    let rows = page(tables.joined(), true, offset, limit);
    assert forall|i: int| 0 <= i < entries@.len() implies (#[trigger] entries@[i]).id
        >= offset by {
        assert(tables.shows(entries@[i], rows[i]));
    }
    assert forall|i: int, j: int| 0 <= i < j < entries@.len() implies (#[trigger] entries@[i]).id
        < (#[trigger] entries@[j]).id by {
        assert(tables.shows(entries@[i], rows[i]));
        assert(tables.shows(entries@[j], rows[j]));
    }
}

/// The answer to a page query, travelling backward: entries with an id that
/// is at most the offset, in descending order of id, no more than the limit.
pub proof fn law_backward_answer(
    tables: Tables,
    statement: Statement,
    entries: Vec<LoggEntryEntity>,
)
    requires
        tables.wf(),
        statement matches Statement::SelectLogEntries { direction, .. } && direction.is_backward(),
        tables.answers(statement, Reply::LogEntries(entries)),
    ensures
        entries@.len() <= statement->SelectLogEntries_limit,
        forall|i: int|
            0 <= i < entries@.len() ==> (#[trigger] entries@[i]).id
                <= statement->SelectLogEntries_offset,
        forall|i: int, j: int|
            0 <= i < j < entries@.len() ==> (#[trigger] entries@[i]).id > (
            #[trigger] entries@[j]).id,
{
    let offset = statement->SelectLogEntries_offset;
    let limit = statement->SelectLogEntries_limit as nat;
    lemma_directions_differ();
    lemma_filter_ascending(
        tables.log,
        |row: LogRow| tables.messages.dom().contains(row.greeting_id),
    );
    law_backward_page(tables.joined(), offset, limit);
    let rows = page(tables.joined(), false, offset, limit);
    assert forall|i: int| 0 <= i < entries@.len() implies (#[trigger] entries@[i]).id
        <= offset by {
        assert(tables.shows(entries@[i], rows[i]));
    }
    assert forall|i: int, j: int| 0 <= i < j < entries@.len() implies (#[trigger] entries@[i]).id
        > (#[trigger] entries@[j]).id by {
        assert(tables.shows(entries@[i], rows[i]));
        assert(tables.shows(entries@[j], rows[j]));
    }
}

/// Travelling forward from an offset above every id of the log, the answer
/// is the empty page, and it is an answer: a page, not a failure.
pub proof fn law_answer_beyond_the_log(tables: Tables, statement: Statement, reply: Reply)
    requires
        tables.wf(),
        statement matches Statement::SelectLogEntries { direction, offset, .. }
            && direction.is_forward() && forall|k: int|
            0 <= k < tables.log.len() ==> (#[trigger] tables.log[k]).id < offset,
        tables.answers(statement, reply),
    ensures
        reply matches Reply::LogEntries(entries) && entries@.len() == 0,
{
    let offset = statement->SelectLogEntries_offset;
    let limit = statement->SelectLogEntries_limit as nat;
    let has_greeting = |row: LogRow| tables.messages.dom().contains(row.greeting_id);
    lemma_filter_ascending(tables.log, has_greeting);
    let joined = tables.joined();
    assert forall|k: int| 0 <= k < joined.len() implies !within(
        true,
        offset,
        #[trigger] joined[k].id,
    ) by {
        assert(tables.log.contains(joined[k]));
        let m = choose|m: int| 0 <= m < tables.log.len() && tables.log[m] == joined[k];
        assert(tables.log[m].id < offset);
    }
    law_page_beyond_the_rows(joined, true, offset, limit);
}

/// Reading a page forward, from the cursor to the result: when the page at
/// `logg_query` is read on a database that holds `tables` and the run
/// finishes, the result is entries with an id that is at least the offset,
/// in ascending order of id, no more than the limit.
pub proof fn law_listed_forward(
    trace: PgTraceContext,
    logg_query: LoggQueryEntity,
    unit: UnitOfWork,
    replies: Seq<Reply>,
    tables: Tables,
)
    requires
        logg_query.direction@ == "forward"@,
        page_plan(trace, logg_query, Ok::<UnitOfWork, DbError>(unit)),
        unit.step_at(replies, 4) is Finish,
        tables.wf(),
        tables.answers(unit->Idle_operation.opening().1->Execute_0, replies[3]),
    ensures
        unit.step_at(replies, 4) matches Step::Finish(Output::LogEntries(entries))
            && entries@.len() <= logg_query.limit && (forall|i: int|
            0 <= i < entries@.len() ==> (#[trigger] entries@[i]).id >= logg_query.offset)
            && (forall|i: int, j: int|
            0 <= i < j < entries@.len() ==> (#[trigger] entries@[i]).id < (
            #[trigger] entries@[j]).id),
{
    let operation = unit->Idle_operation;
    law_read_run(trace, operation, replies, 4);
    law_forward_answer(tables, operation.opening().1->Execute_0, replies[3]->LogEntries_0);
}

/// Reading a page backward, from the cursor to the result: when the page at
/// `logg_query` is read on a database that holds `tables` and the run
/// finishes, the result is entries with an id that is at most the offset,
/// in descending order of id, no more than the limit.
pub proof fn law_listed_backward(
    trace: PgTraceContext,
    logg_query: LoggQueryEntity,
    unit: UnitOfWork,
    replies: Seq<Reply>,
    tables: Tables,
)
    requires
        logg_query.direction@ == "backward"@,
        page_plan(trace, logg_query, Ok::<UnitOfWork, DbError>(unit)),
        unit.step_at(replies, 4) is Finish,
        tables.wf(),
        tables.answers(unit->Idle_operation.opening().1->Execute_0, replies[3]),
    ensures
        unit.step_at(replies, 4) matches Step::Finish(Output::LogEntries(entries))
            && entries@.len() <= logg_query.limit && (forall|i: int|
            0 <= i < entries@.len() ==> (#[trigger] entries@[i]).id <= logg_query.offset)
            && (forall|i: int, j: int|
            0 <= i < j < entries@.len() ==> (#[trigger] entries@[i]).id > (
            #[trigger] entries@[j]).id),
{
    let operation = unit->Idle_operation;
    lemma_directions_differ();
    law_read_run(trace, operation, replies, 4);
    law_backward_answer(tables, operation.opening().1->Execute_0, replies[3]->LogEntries_0);
}

/// On an empty log the newest entry is none, and that is an answer.
pub proof fn law_newest_of_empty_log(tables: Tables, reply: Reply)
    requires
        tables.log.len() == 0,
        tables.answers(Statement::SelectLastLogEntry, reply),
    ensures
        reply == Reply::LogEntry(None),
{
    tables.log.lemma_filter_len(|row: LogRow| tables.messages.dom().contains(row.greeting_id));
}

/// A store adds one greeting and one log row, and the log row is the
/// greeting's: the messages are those there were and the new one, under the
/// id returned; the log is the log there was and one row more, which
/// refers to that id; and the ids of the log still grow.
pub proof fn law_store_adds_one_of_each(
    before: Tables,
    message_id: u128,
    greeting: GreetingCmdEntity,
    id: i64,
    after: Tables,
)
    requires
        before.wf(),
        before.stores(message_id, greeting, Reply::Inserted(id), Reply::Done, after),
    ensures
        !before.messages.dom().contains(id),
        after.messages == before.messages.insert(id, MessageRow { message_id, greeting }),
        after.log.len() == before.log.len() + 1,
        after.log.drop_last() == before.log,
        after.log.last().greeting_id == id,
        after.wf(),
        after.joined().len() > 0,
        after.joined().last() == after.log.last(),
{
    assert forall|i: int, j: int| 0 <= i < j < after.log.len() implies after.log[i].id
        < after.log[j].id by {
        assert(after.log.drop_last()[i] == after.log[i]);
        if j < after.log.len() - 1 {
            assert(after.log.drop_last()[j] == after.log[j]);
        }
    }
    reveal(Seq::filter);
}

/// After a store, the newest log entry is the one of the greeting stored.
pub proof fn law_newest_after_store(
    before: Tables,
    message_id: u128,
    greeting: GreetingCmdEntity,
    id: i64,
    after: Tables,
    reply: Reply,
)
    requires
        before.wf(),
        before.stores(message_id, greeting, Reply::Inserted(id), Reply::Done, after),
        after.answers(Statement::SelectLastLogEntry, reply),
    ensures
        reply matches Reply::LogEntry(Some(entry)) && entry.greeting_id == id && uuid_value(
            entry.message_id@,
        ) == Some(message_id),
{
    law_store_adds_one_of_each(before, message_id, greeting, id, after);
}

/// After a store, the greeting is found under the id returned, as it was
/// handed in.
pub proof fn law_found_as_stored(
    before: Tables,
    message_id: u128,
    greeting: GreetingCmdEntity,
    id: i64,
    after: Tables,
    reply: Reply,
)
    requires
        before.stores(message_id, greeting, Reply::Inserted(id), Reply::Done, after),
        after.answers(Statement::SelectMessage { id }, reply),
    ensures
        reply matches Reply::Message(Some(found)) && reads_back(
            found,
            MessageRow { message_id, greeting },
        ),
{
}

/// Store, then find under the id returned: what is found is what was
/// handed in. The store is one that finished, on a database that held
/// `before` and wrote as asked; the lookup is one that finished, on the
/// database as the store left it.
pub proof fn law_store_then_find(
    trace: PgTraceContext,
    greeting: GreetingCmdEntity,
    stored: Seq<Reply>,
    before: Tables,
    after: Tables,
    lookup_trace: PgTraceContext,
    looked_up: Seq<Reply>,
)
    requires
        uuid_value(greeting.message_id@) is Some,
        (UnitOfWork::Idle {
            trace,
            operation: Operation::Store {
                message_id: uuid_value(greeting.message_id@).unwrap(),
                greeting,
            },
        }).step_at(stored, 5) is Finish,
        before.stores(
            uuid_value(greeting.message_id@).unwrap(),
            greeting,
            stored[3],
            stored[4],
            after,
        ),
        (UnitOfWork::Idle {
            trace: lookup_trace,
            operation: Operation::FindMessage { id: stored[3]->Inserted_0 },
        }).step_at(looked_up, 4) is Finish,
        after.answers(Statement::SelectMessage { id: stored[3]->Inserted_0 }, looked_up[3]),
    ensures
        (UnitOfWork::Idle {
            trace: lookup_trace,
            operation: Operation::FindMessage { id: stored[3]->Inserted_0 },
        }).step_at(looked_up, 4) matches Step::Finish(Output::Message(Some(found)))
            && reads_back(
            found,
            MessageRow { message_id: uuid_value(greeting.message_id@).unwrap(), greeting },
        ),
{
    let message_id = uuid_value(greeting.message_id@).unwrap();
    let id = stored[3]->Inserted_0;
    law_store_run(trace, message_id, greeting, stored, 5);
    law_read_run(lookup_trace, Operation::FindMessage { id }, looked_up, 4);
}

/// Whether the run of an operation has finished within its first `n` steps,
/// which is to say that its transaction is committed.
pub open spec fn committed(unit: UnitOfWork, replies: Seq<Reply>, n: nat) -> bool {
    exists|i: nat| i < n && #[trigger] unit.step_at(replies, i) is Finish
}

/// What a database that held `before` holds for all to see after the first
/// `n` steps of a run, where `written` is what the statements of the run
/// have made of the tables inside its transaction: all of it once the
/// transaction is committed, none of it before and none of it ever when the
/// transaction is abandoned.
pub open spec fn left_behind(
    before: Tables,
    written: Tables,
    unit: UnitOfWork,
    replies: Seq<Reply>,
    n: nat,
) -> Tables {
    if committed(unit, replies, n) {
        written
    } else {
        before
    }
}

/// A store is all or nothing. When the database reports a failure while the
/// store has not ended, at whichever step, the tables are left as they were:
/// no greeting without its log row, no log row without its greeting.
pub proof fn law_failed_store_leaves_nothing(
    before: Tables,
    written: Tables,
    trace: PgTraceContext,
    message_id: u128,
    greeting: GreetingCmdEntity,
    replies: Seq<Reply>,
    j: nat,
    n: nat,
)
    requires
        j < replies.len(),
        replies[j as int] is Failed,
        !((UnitOfWork::Idle {
            trace,
            operation: Operation::Store { message_id, greeting },
        }).state_after(replies, j) is Finished),
    ensures
        left_behind(
            before,
            written,
            UnitOfWork::Idle { trace, operation: Operation::Store { message_id, greeting } },
            replies,
            n,
        ) == before,
{
    let unit = UnitOfWork::Idle { trace, operation: Operation::Store { message_id, greeting } };
    assert forall|i: nat| i < n implies !(#[trigger] unit.step_at(replies, i) is Finish) by {
        law_no_result_after_failure(unit, replies, j, i);
    }
}

/// A store that goes through leaves behind the greeting and its log row:
/// once the run has finished, the tables for all to see are those that the
/// two inserts have written.
pub proof fn law_finished_store_leaves_both(
    before: Tables,
    written: Tables,
    trace: PgTraceContext,
    message_id: u128,
    greeting: GreetingCmdEntity,
    replies: Seq<Reply>,
    n: nat,
)
    requires
        committed(
            UnitOfWork::Idle { trace, operation: Operation::Store { message_id, greeting } },
            replies,
            n,
        ),
        before.stores(message_id, greeting, replies[3], replies[4], written),
    ensures
        n >= 6,
        replies[3] is Inserted,
        left_behind(
            before,
            written,
            UnitOfWork::Idle { trace, operation: Operation::Store { message_id, greeting } },
            replies,
            n,
        ) == written,
        written.messages == before.messages.insert(
            replies[3]->Inserted_0,
            MessageRow { message_id, greeting },
        ),
        written.log.len() == before.log.len() + 1,
        written.log.last().greeting_id == replies[3]->Inserted_0,
{
    let unit = UnitOfWork::Idle { trace, operation: Operation::Store { message_id, greeting } };
    let i = choose|i: nat| i < n && #[trigger] unit.step_at(replies, i) is Finish;
    law_store_run(trace, message_id, greeting, replies, i);
}

} // verus!
