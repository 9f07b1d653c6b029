use greeting_db::greeting_pg_trace::PgTraceContext;

fn context(trace_id: &str, parent_span_id: &str) -> PgTraceContext {
    PgTraceContext { trace_id: trace_id.to_string(), parent_span_id: parent_span_id.to_string() }
}

#[test]
fn trace_statement_has_fixed_version_and_flags() {
    let trace = context("0af7651916cd43dd8448eb211c80319c", "b7ad6b7169203331");
    assert_eq!(
        trace.to_sql(),
        "SET LOCAL pg_tracing.trace_context = 'traceparent=''00-0af7651916cd43dd8448eb211c80319c-b7ad6b7169203331-01'''"
    );
}

#[test]
fn trace_statement_of_empty_identifiers() {
    assert_eq!(
        context("", "").to_sql(),
        "SET LOCAL pg_tracing.trace_context = 'traceparent=''00---01'''"
    );
}

#[test]
fn trace_statement_interpolates_identifiers_as_they_are() {
    let sql = context("a'b", "c-d").to_sql();
    assert_eq!(sql, "SET LOCAL pg_tracing.trace_context = 'traceparent=''00-a'b-c-d-01'''");
}

#[test]
fn trace_statement_keeps_identifiers_apart() {
    assert_ne!(context("ab", "c").to_sql(), context("a", "bc").to_sql());
}

#[test]
fn trace_statement_leaves_the_context_untouched() {
    let trace = context("1", "2");
    let first = trace.to_sql();
    let second = trace.to_sql();
    assert_eq!(first, second);
    assert_eq!(trace, context("1", "2"));
}
