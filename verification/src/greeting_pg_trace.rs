//! The trace context that every transaction announces to the database session.

use vstd::prelude::*;

verus! {

/// A distributed-tracing correlation context: the trace and the span under
/// which the statements of one transaction are to be attributed.
#[derive(Debug, Clone, PartialEq, Eq)]
pub struct PgTraceContext {
    pub trace_id: String,
    pub parent_span_id: String,
}

/// The text of the statement that sets the session-local trace context to the
/// traceparent `00-<trace_id>-<parent_span_id>-01`.
pub open spec fn trace_statement(trace_id: Seq<char>, parent_span_id: Seq<char>) -> Seq<char> {
    "SET LOCAL pg_tracing.trace_context = 'traceparent=''00-"@ + trace_id + "-"@ + parent_span_id
        + "-01'''"@
}

impl PgTraceContext {
    /// The statement text for this context.
    pub open spec fn rendered(self) -> Seq<char> {
        trace_statement(self.trace_id@, self.parent_span_id@)
    }

    /// Renders the statement that applies this context to the current
    /// transaction. The identifiers are interpolated as they are.
    pub fn to_sql(&self) -> (sql: String)
        ensures
            sql@ == self.rendered(),
    {
        let mut sql = "SET LOCAL pg_tracing.trace_context = 'traceparent=''00-".to_owned();
        sql.append(self.trace_id.as_str());
        sql.append("-");
        sql.append(self.parent_span_id.as_str());
        sql.append("-01'''");
        sql
    }
}

} // verus!
