//! The write path: storing a greeting together with its log row.

use std::collections::HashMap;

use chrono::NaiveDateTime;
use vstd::prelude::*;

use crate::greeting_pg_trace::PgTraceContext;
use crate::transaction::{Operation, UnitOfWork};
use crate::DbError;
use crate::Failure;

verus! {

/// A point in time without a zone, as chrono represents it. Values of this
/// type are carried through unchanged; nothing here looks inside one.
#[verifier::external_type_specification]
#[verifier::external_body]
pub struct ExNaiveDateTime(chrono::NaiveDateTime);

/// `NaiveDateTime` is `Copy`, and chrono derives its `Clone`: a clone is the
/// same point in time.
pub assume_specification[ <chrono::NaiveDateTime as Clone>::clone ](
    moment: &chrono::NaiveDateTime,
) -> (copy: chrono::NaiveDateTime)
    ensures
        copy == *moment,
;

/// A greeting as a caller hands it in for storing.
#[derive(Debug, Clone, PartialEq)]
pub struct GreetingCmdEntity {
    pub external_reference: String,
    pub message_id: String,
    pub to: String,
    pub from: String,
    pub heading: String,
    pub message: String,
    pub created: NaiveDateTime,
    pub events_created: HashMap<String, NaiveDateTime>,
}

/// The 128-bit value that `text` denotes as a UUID; `None` where `text` is
/// not a UUID in any of the notations the `uuid` crate reads.
pub uninterp spec fn uuid_value(text: Seq<char>) -> Option<u128>;

/// Calls `uuid::Uuid::parse_str` and hands the identifier out as the integer
/// that `Uuid::as_u128` gives for it. Trusted: the result is a function of
/// the text alone, named [`uuid_value`].
#[verifier::external_body]
fn parse_uuid(text: &str) -> (value: Option<u128>)
    ensures
        value == uuid_value(text@),
{
    match uuid::Uuid::parse_str(text) {
        Ok(id) => Some(id.as_u128()),
        Err(_) => None,
    }
}

/// What storing `greeting` comes to, given the value that its message id
/// denotes: the operation that stores it, or a refusal where the message id
/// denotes none.
pub open spec fn store_plan(
    trace: PgTraceContext,
    greeting: GreetingCmdEntity,
    message_id: Option<u128>,
    planned: Result<UnitOfWork, DbError>,
) -> bool {
    match message_id {
        Some(value) => planned == Ok::<UnitOfWork, DbError>(
            UnitOfWork::Idle {
                trace,
                operation: Operation::Store { message_id: value, greeting },
            },
        ),
        None => planned is Err && planned->Err_0.message() == Failure::Precondition.message(),
    }
}

/// Sets up the storing of `greeting`, whose message id has been read as
/// `message_id`. With a value, the result is an operation of which nothing
/// has been done yet; without one the greeting is refused, and since no
/// operation comes into being, no transaction is opened for it.
pub fn store_parsed(
    trace: PgTraceContext,
    greeting: GreetingCmdEntity,
    message_id: Option<u128>,
) -> (planned: Result<UnitOfWork, DbError>)
    ensures
        store_plan(trace, greeting, message_id, planned),
{
    match message_id {
        Some(value) => Ok(
            UnitOfWork::new(trace, Operation::Store { message_id: value, greeting }),
        ),
        None => Err(DbError::from(Failure::Precondition)),
    }
}

/// Sets up the storing of `greeting`: in one transaction, under the trace
/// context, the greeting is inserted and then its log row. A greeting whose
/// message id is not a UUID is refused before anything is sent.
pub fn store(trace: PgTraceContext, greeting: GreetingCmdEntity) -> (planned: Result<
    UnitOfWork,
    DbError,
>)
    ensures
        store_plan(trace, greeting, uuid_value(greeting.message_id@), planned),
{
    let message_id = parse_uuid(greeting.message_id.as_str());
    store_parsed(trace, greeting, message_id)
}

} // verus!
