//! Transactional data access for greeting messages and their audit log.
//!
//! The crate decides what is sent to the database and in which order; it
//! never talks to a database itself. Every operation is a
//! [`transaction::UnitOfWork`]: a small state machine that a driver advances
//! by performing the step it is handed and reporting what the database
//! answered.

use vstd::prelude::*;

pub mod generation;
pub mod greeting_command;
pub mod greeting_pg_trace;
pub mod greeting_query;
pub mod statement;
pub mod tables;
pub mod transaction;

use crate::greeting_pg_trace::PgTraceContext;
use crate::transaction::{Operation, UnitOfWork};

verus! {

/// Sets up one run of the procedure that generates log rows: in one
/// transaction, under the trace context, a single call, which takes nothing
/// and hands nothing back.
pub fn generate_logg(trace: PgTraceContext) -> (unit: UnitOfWork)
    ensures
        unit == (UnitOfWork::Idle { trace, operation: Operation::GenerateLog }),
{
    UnitOfWork::new(trace, Operation::GenerateLog)
}

/// Why an operation did not come to a result.
#[derive(Debug, Clone, PartialEq, Eq)]
pub enum Failure {
    /// The message id of a greeting is not a UUID.
    Precondition,
    /// The pagination direction is neither `forward` nor `backward`.
    Direction,
    /// The database failed a begin, a statement or a commit; its message.
    Database(String),
    /// The driver reported something that does not answer the step in flight.
    Protocol,
}

impl Failure {
    /// The message under which the failure is surfaced.
    pub open spec fn message(self) -> Seq<char> {
        match self {
            Failure::Precondition => "Invalid message id"@,
            Failure::Direction => "Invalid direction"@,
            Failure::Database(message) => message@,
            Failure::Protocol => "Unexpected reply"@,
        }
    }
}

/// The uniform error of this crate: every failure is reduced to a message.
#[derive(Debug)]
pub struct DbError {
    pub error_message: String,
}

impl DbError {
    /// The message as a sequence of characters.
    pub open spec fn message(self) -> Seq<char> {
        self.error_message@
    }
}

impl From<&str> for DbError {
    fn from(value: &str) -> (error: Self)
        ensures
            error.message() == value@,
    {
        DbError { error_message: value.to_owned() }
    }
}

impl vstd::std_specs::convert::FromSpecImpl<&str> for DbError {
    open spec fn obeys_from_spec() -> bool {
        false
    }

    open spec fn from_spec(value: &str) -> Self {
        arbitrary()
    }
}

impl From<Failure> for DbError {
    fn from(value: Failure) -> (error: Self)
        ensures
            error.message() == value.message(),
    {
        match value {
            Failure::Precondition => DbError { error_message: "Invalid message id".to_owned() },
            Failure::Direction => DbError { error_message: "Invalid direction".to_owned() },
            Failure::Database(message) => DbError { error_message: message },
            Failure::Protocol => DbError { error_message: "Unexpected reply".to_owned() },
        }
    }
}

impl vstd::std_specs::convert::FromSpecImpl<Failure> for DbError {
    open spec fn obeys_from_spec() -> bool {
        false
    }

    open spec fn from_spec(value: Failure) -> Self {
        arbitrary()
    }
}

} // verus!
