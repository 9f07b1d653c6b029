//! The read path: paging through the log, the newest log entry, one message.

use chrono::NaiveDateTime;
use vstd::prelude::*;

use crate::greeting_pg_trace::PgTraceContext;
use crate::transaction::{Operation, UnitOfWork};
use crate::DbError;
use crate::Failure;

verus! {

/// How a direction of travel through the log is written in a query: the
/// keyword that orders the rows and the operator that holds a row's id
/// against the offset.
#[derive(Debug, Clone, PartialEq, Eq)]
pub struct SqlDirection {
    pub order: String,
    pub operator: String,
}

/// Whether `direction` names one of the two directions of travel.
pub open spec fn is_direction(direction: Seq<char>) -> bool {
    direction == "forward"@ || direction == "backward"@
}

impl SqlDirection {
    /// Ascending from the offset: rows whose id is at least the offset.
    pub open spec fn is_forward(self) -> bool {
        self.order@ == "ASC"@ && self.operator@ == ">="@
    }

    /// Descending from the offset: rows whose id is at most the offset.
    pub open spec fn is_backward(self) -> bool {
        self.order@ == "DESC"@ && self.operator@ == "<="@
    }

    /// Whether this is how `direction` is written in a query.
    pub open spec fn resolves(self, direction: Seq<char>) -> bool {
        if direction == "forward"@ {
            self.is_forward()
        } else {
            direction == "backward"@ && self.is_backward()
        }
    }

    /// Resolves a direction given by name. `forward` and `backward` are the
    /// only names; any other is refused, and no direction is assumed for it.
    pub fn value_of(direction: &str) -> (resolved: Result<SqlDirection, DbError>)
        ensures
            is_direction(direction@) <==> resolved is Ok,
            resolved matches Ok(sql) ==> sql.resolves(direction@),
            resolved matches Err(error) ==> error.message() == Failure::Direction.message(),
    {
        let name = direction.to_owned();
        if name == "forward".to_owned() {
            Ok(SqlDirection { order: "ASC".to_owned(), operator: ">=".to_owned() })
        } else if name == "backward".to_owned() {
            proof {
                lemma_directions_differ();
            }
            Ok(SqlDirection { order: "DESC".to_owned(), operator: "<=".to_owned() })
        } else {
            Err(DbError::from(Failure::Direction))
        }
    }
}

/// The two directions are two: neither their names nor the way they are
/// written in a query coincide.
pub proof fn lemma_directions_differ()
    ensures
        "forward"@ != "backward"@,
        "ASC"@ != "DESC"@,
        ">="@ != "<="@,
{
    reveal_strlit("forward");
    reveal_strlit("backward");
    reveal_strlit("ASC");
    reveal_strlit("DESC");
    reveal_strlit(">=");
    reveal_strlit("<=");
    assert("forward"@.len() != "backward"@.len());
    assert("ASC"@.len() != "DESC"@.len());
    assert(">="@[0] != "<="@[0]);
}

/// A cursor into the log: the boundary id, which is itself part of the page,
/// the greatest number of rows wanted, and the direction of travel by name.
#[derive(Debug, Clone, PartialEq, Eq)]
pub struct LoggQueryEntity {
    pub offset: i64,
    pub limit: i64,
    pub direction: String,
}

/// One row of the log, with the message id of the greeting it refers to.
#[derive(Debug, Clone, PartialEq)]
pub struct LoggEntryEntity {
    pub id: i64,
    pub greeting_id: i64,
    pub message_id: String,
    pub created: NaiveDateTime,
}

/// A stored greeting as it is read back. `id` is its message id.
#[derive(Debug, Clone, PartialEq)]
pub struct GreetingQueryEntity {
    pub id: String,
    pub to: String,
    pub from: String,
    pub heading: String,
    pub message: String,
    pub created: NaiveDateTime,
}

/// What reading the page at `logg_query` comes to: the operation that reads
/// it, with the direction resolved, or a refusal where the direction is
/// unknown.
pub open spec fn page_plan(
    trace: PgTraceContext,
    logg_query: LoggQueryEntity,
    planned: Result<UnitOfWork, DbError>,
) -> bool {
    if is_direction(logg_query.direction@) {
        &&& planned matches Ok(UnitOfWork::Idle {
            trace: context,
            operation: Operation::ListLogEntries { direction, offset, limit },
        })
        &&& context == trace
        &&& direction.resolves(logg_query.direction@)
        &&& offset == logg_query.offset
        &&& limit == logg_query.limit
    } else {
        planned is Err && planned->Err_0.message() == Failure::Direction.message()
    }
}

/// Sets up the reading of one page of the log: in one transaction, under the
/// trace context, the rows on the side of the offset that the direction
/// names, the offset's own row included, nearest first, no more than the
/// limit. An unknown direction is refused before anything is sent: no
/// operation comes into being, so no transaction is opened for it.
pub fn list_log_entries(trace: PgTraceContext, logg_query: LoggQueryEntity) -> (planned: Result<
    UnitOfWork,
    DbError,
>)
    ensures
        page_plan(trace, logg_query, planned),
{
    match SqlDirection::value_of(logg_query.direction.as_str()) {
        Ok(direction) => Ok(
            UnitOfWork::new(
                trace,
                Operation::ListLogEntries {
                    direction,
                    offset: logg_query.offset,
                    limit: logg_query.limit,
                },
            ),
        ),
        Err(error) => Err(error),
    }
}

/// Sets up the reading of the newest log entry: in one transaction, under
/// the trace context, the row with the greatest id, or none for an empty log.
pub fn last_log_entry(trace: PgTraceContext) -> (unit: UnitOfWork)
    ensures
        unit == (UnitOfWork::Idle { trace, operation: Operation::LastLogEntry }),
{
    UnitOfWork::new(trace, Operation::LastLogEntry)
}

/// Sets up the reading of the greeting with the id given: in one
/// transaction, under the trace context, that greeting, or none where there
/// is no such id.
pub fn find_message(trace: PgTraceContext, id: i64) -> (unit: UnitOfWork)
    ensures
        unit == (UnitOfWork::Idle { trace, operation: Operation::FindMessage { id } }),
{
    UnitOfWork::new(trace, Operation::FindMessage { id })
}

} // verus!
