//! The statements that an operation sends to the database, and their text.

use chrono::NaiveDateTime;
use vstd::prelude::*;

use crate::greeting_command::GreetingCmdEntity;
use crate::greeting_pg_trace::PgTraceContext;
use crate::greeting_query::SqlDirection;

verus! {

/// A query under construction: sqlx's `QueryBuilder` for Postgres. It holds
/// the text written so far and the values bound so far.
#[verifier::external_body]
pub struct SqlBuilder {
    inner: sqlx::QueryBuilder<'static, sqlx::Postgres>,
}

/// The text that a builder holds.
pub uninterp spec fn sql_text(builder: SqlBuilder) -> Seq<char>;

/// The values that a builder has bound, in the order of binding.
pub uninterp spec fn bound_values(builder: SqlBuilder) -> Seq<i64>;

/// The decimal digit for `d`, which is below ten.
pub open spec fn digit(d: nat) -> char {
    seq!['0', '1', '2', '3', '4', '5', '6', '7', '8', '9'][d as int]
}

/// `n` in decimal, without sign or padding.
pub open spec fn decimal(n: nat) -> Seq<char>
    decreases n,
{
    if n < 10 {
        seq![digit(n)]
    } else {
        decimal(n / 10).push(digit(n % 10))
    }
}

/// How Postgres writes the `n`-th parameter of a statement: `$n`.
pub open spec fn placeholder(n: nat) -> Seq<char> {
    seq!['$'] + decimal(n)
}

/// `QueryBuilder::new`: a builder that holds `init` and has bound nothing.
#[verifier::external_body]
fn builder_new(init: &str) -> (builder: SqlBuilder)
    ensures
        sql_text(builder) == init@,
        bound_values(builder) == Seq::<i64>::empty(),
{
    SqlBuilder { inner: sqlx::QueryBuilder::new(init) }
}

/// `QueryBuilder::push`: appends `sql` to the text as it is; binds nothing.
#[verifier::external_body]
fn builder_push(builder: &mut SqlBuilder, sql: &str)
    ensures
        sql_text(*final(builder)) == sql_text(*old(builder)) + sql@,
        bound_values(*final(builder)) == bound_values(*old(builder)),
{
    builder.inner.push(sql);
}

/// `QueryBuilder::push_bind` with an `i64`: binds `value` as the next
/// parameter and appends that parameter's placeholder to the text.
#[verifier::external_body]
fn builder_push_bind(builder: &mut SqlBuilder, value: i64)
    ensures
        bound_values(*final(builder)) == bound_values(*old(builder)).push(value),
        sql_text(*final(builder)) == sql_text(*old(builder)) + placeholder(
            bound_values(*old(builder)).len() + 1,
        ),
{
    builder.inner.push_bind(value);
}

/// `QueryBuilder::into_sql`: the text that the builder holds.
#[verifier::external_body]
fn builder_into_sql(builder: SqlBuilder) -> (sql: String)
    ensures
        sql@ == sql_text(builder),
{
    builder.inner.into_sql()
}

/// The first two placeholders, written out.
pub proof fn lemma_placeholders()
    ensures
        placeholder(1) == "$1"@,
        placeholder(2) == "$2"@,
{
    reveal_strlit("$1");
    reveal_strlit("$2");
    assert(placeholder(1) =~= "$1"@);
    assert(placeholder(2) =~= "$2"@);
}

/// One statement of an operation, with the values it binds.
#[derive(Debug, Clone, PartialEq)]
pub enum Statement {
    /// Applies the trace context to the transaction.
    SetTrace { trace: PgTraceContext },
    /// Inserts a greeting and asks for the id the database gives it. Binds
    /// the message id, the external reference, recipient, sender, heading,
    /// the greeting as a whole, and the time of creation.
    InsertMessage { message_id: u128, greeting: GreetingCmdEntity },
    /// Inserts the log row of the greeting with the id bound.
    InsertLog { greeting_id: i64 },
    /// Selects a page of the log. Binds the offset, then the limit.
    SelectLogEntries { direction: SqlDirection, offset: i64, limit: i64 },
    /// Selects the log row with the greatest id.
    SelectLastLogEntry,
    /// Selects the greeting with the id bound.
    SelectMessage { id: i64 },
    /// Calls the procedure that generates log rows.
    GenerateLog,
}

/// A value bound to a parameter of a statement.
#[derive(Debug, Clone, PartialEq)]
pub enum Parameter {
    /// A UUID, by its 128-bit value.
    Uuid(u128),
    /// A text.
    Text(String),
    /// An integer.
    Integer(i64),
    /// A point in time.
    Moment(NaiveDateTime),
    /// A greeting as a whole, to be stored as one document.
    Document(GreetingCmdEntity),
}

/// The columns of a log entry and the join that supplies the message id.
pub open spec fn log_entry_select() -> Seq<char> {
    "SELECT log.id, log.greeting_id, message.message_id, log.created FROM log JOIN message ON log.greeting_id = message.id"@
}

/// The text of a page query: rows whose id stands in `operator` to the first
/// parameter, ordered by id as `order` says, at most as many as the second
/// parameter.
pub open spec fn log_page_text(operator: Seq<char>, order: Seq<char>) -> Seq<char> {
    log_entry_select() + " WHERE log.id "@ + operator + " "@ + "$1"@ + " ORDER BY log.id "@ + order
        + " LIMIT "@ + "$2"@
}

impl Statement {
    /// The text of the statement.
    pub open spec fn text(self) -> Seq<char> {
        match self {
            Statement::SetTrace { trace } => trace.rendered(),
            Statement::InsertMessage { .. } =>
                "INSERT INTO message(message_id, external_reference, \"to\", \"from\", heading, message, created) VALUES ($1, $2, $3, $4, $5, $6, $7) RETURNING id"@,
            Statement::InsertLog { .. } => "INSERT INTO log(greeting_id) VALUES ($1)"@,
            Statement::SelectLogEntries { direction, .. } => log_page_text(
                direction.operator@,
                direction.order@,
            ),
            Statement::SelectLastLogEntry => log_entry_select() + " ORDER BY log.id DESC LIMIT 1"@,
            Statement::SelectMessage { .. } =>
                "SELECT message_id, \"to\", \"from\", heading, message ->> 'message', created FROM message WHERE id = $1"@,
            Statement::GenerateLog => "do $$ begin perform public.generate_logg(); end $$;"@,
        }
    }

    /// The values that the statement binds: the first to `$1`, the second to
    /// `$2`, and so on.
    pub open spec fn parameters(self) -> Seq<Parameter> {
        match self {
            Statement::InsertMessage { message_id, greeting } => seq![
                Parameter::Uuid(message_id),
                Parameter::Text(greeting.external_reference),
                Parameter::Text(greeting.to),
                Parameter::Text(greeting.from),
                Parameter::Text(greeting.heading),
                Parameter::Document(greeting),
                Parameter::Moment(greeting.created),
            ],
            Statement::InsertLog { greeting_id } => seq![Parameter::Integer(greeting_id)],
            Statement::SelectLogEntries { offset, limit, .. } => seq![
                Parameter::Integer(offset),
                Parameter::Integer(limit),
            ],
            Statement::SelectMessage { id } => seq![Parameter::Integer(id)],
            _ => Seq::empty(),
        }
    }

    /// Hands out the values that the statement binds, in the order of their
    /// parameters.
    pub fn into_parameters(self) -> (parameters: Vec<Parameter>)
        ensures
            parameters@ == self.parameters(),
    {
        let mut parameters: Vec<Parameter> = Vec::new();
        match self {
            Statement::InsertMessage { message_id, greeting } => {
                let created = greeting.created;
                parameters.push(Parameter::Uuid(message_id));
                parameters.push(Parameter::Text(greeting.external_reference.clone()));
                parameters.push(Parameter::Text(greeting.to.clone()));
                parameters.push(Parameter::Text(greeting.from.clone()));
                parameters.push(Parameter::Text(greeting.heading.clone()));
                parameters.push(Parameter::Document(greeting));
                parameters.push(Parameter::Moment(created));
            },
            Statement::InsertLog { greeting_id } => {
                parameters.push(Parameter::Integer(greeting_id));
            },
            Statement::SelectLogEntries { offset, limit, .. } => {
                parameters.push(Parameter::Integer(offset));
                parameters.push(Parameter::Integer(limit));
            },
            Statement::SelectMessage { id } => {
                parameters.push(Parameter::Integer(id));
            },
            _ => {},
        }
        parameters
    }

    /// Whether this is the statement that applies a trace context.
    pub open spec fn is_trace(self) -> bool {
        self is SetTrace
    }

    /// Writes the statement out.
    pub fn sql(&self) -> (sql: String)
        ensures
            sql@ == self.text(),
    {
        match self {
            Statement::SetTrace { trace } => trace.to_sql(),
            Statement::InsertMessage { .. } =>
                "INSERT INTO message(message_id, external_reference, \"to\", \"from\", heading, message, created) VALUES ($1, $2, $3, $4, $5, $6, $7) RETURNING id".to_owned(),
            Statement::InsertLog { .. } => "INSERT INTO log(greeting_id) VALUES ($1)".to_owned(),
            Statement::SelectLogEntries { direction, offset, limit } => {
                log_page_sql(direction, *offset, *limit)
            },
            Statement::SelectLastLogEntry => {
                let mut sql =
                    "SELECT log.id, log.greeting_id, message.message_id, log.created FROM log JOIN message ON log.greeting_id = message.id".to_owned();
                sql.append(" ORDER BY log.id DESC LIMIT 1");
                sql
            },
            Statement::SelectMessage { .. } =>
                "SELECT message_id, \"to\", \"from\", heading, message ->> 'message', created FROM message WHERE id = $1".to_owned(),
            Statement::GenerateLog => "do $$ begin perform public.generate_logg(); end $$;".to_owned(),
        }
    }
}

/// Writes the page query for a direction. The offset and the limit are
/// bound, in this order, so that the text holds their placeholders and not
/// the values.
pub fn log_page_sql(direction: &SqlDirection, offset: i64, limit: i64) -> (sql: String)
    ensures
        sql@ == log_page_text(direction.operator@, direction.order@),
{
    let mut builder = builder_new(
        "SELECT log.id, log.greeting_id, message.message_id, log.created FROM log JOIN message ON log.greeting_id = message.id",
    );
    builder_push(&mut builder, " WHERE log.id ");
    builder_push(&mut builder, direction.operator.as_str());
    builder_push(&mut builder, " ");
    builder_push_bind(&mut builder, offset);
    builder_push(&mut builder, " ORDER BY log.id ");
    builder_push(&mut builder, direction.order.as_str());
    builder_push(&mut builder, " LIMIT ");
    builder_push_bind(&mut builder, limit);
    proof {
        lemma_placeholders();
    }
    builder_into_sql(builder)
}

} // verus!
