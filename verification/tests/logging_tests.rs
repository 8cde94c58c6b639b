use fckn_gay::clock::timestamp_from;
use fckn_gay::logging::build_error_chain;

fn chain(displays: &[&str]) -> (String, Vec<String>) {
    let v: Vec<String> = displays.iter().map(|s| s.to_string()).collect();
    build_error_chain(&v)
}

#[test]
fn single_error_no_causes() {
    let (root, causes) = chain(&["something broke"]);
    assert_eq!(root, "something broke");
    assert!(causes.is_empty());
}

#[test]
fn wrapping_error_deduplicates() {
    let (root, causes) = chain(&["query failed: db offline", "db offline"]);
    assert_eq!(root, "query failed");
    assert_eq!(causes.as_slice(), &["db offline"]);
}

#[test]
fn three_levels_with_dedup() {
    let (root, causes) = chain(&[
        "query failed: db error: connection refused",
        "db error: connection refused",
        "connection refused",
    ]);
    assert_eq!(root, "query failed");
    assert_eq!(causes.as_slice(), &["db error", "connection refused"]);
}

#[test]
fn clean_error_no_display_duplication() {
    let (root, causes) = chain(&["request failed", "timeout"]);
    assert_eq!(root, "request failed");
    assert_eq!(causes.as_slice(), &["timeout"]);
}

#[test]
fn pure_wrapper_collapses() {
    let (root, causes) = chain(&[": the real error", "the real error"]);
    assert_eq!(root, "the real error");
    assert!(causes.is_empty(), "expected no causes, got: {causes:?}");
}

#[test]
fn deeply_nested_chain() {
    let mut displays: Vec<String> = (1..=8).rev().map(|d| format!("level-{d}")).collect();
    displays.push("leaf".to_string());
    let (root, causes) = build_error_chain(&displays);
    assert_eq!(root, "level-8");
    assert_eq!(causes.len(), 8);
    assert_eq!(causes.last().unwrap(), "leaf");
}

use fckn_gay::logging::{
    level_label, render_event, EventVisitor, FlattenedFormatter, Level, NullFields, SpanFieldLayer, SpanFieldStorage,
    SpanFields, StringVisitor,
};

fn span(name: &'static str, fields: &[(&'static str, &str)]) -> SpanFields {
    SpanFields { name, fields: fields.iter().map(|(n, v)| (*n, v.to_string())).collect() }
}

#[test]
fn plain_event_line() {
    let line = render_event(
        false,
        "2024-01-02 03:04:05",
        Level::Info,
        "fckn_gay_server::api",
        "fckn_gay",
        "hello",
        &None,
        &vec![],
        &vec![],
    );
    assert_eq!(line, "2024-01-02 03:04:05  INFO hello\n");
}

#[test]
fn foreign_crate_is_tagged_and_fields_flattened() {
    let spans = vec![span("request", &[("method", "GET"), ("path", "/api")]), span("db", &[("path", "users.db")])];
    let line = render_event(
        false,
        "T",
        Level::Warn,
        "hyper::proto::h1",
        "fckn_gay",
        "slow",
        &None,
        &spans,
        &vec![("method", "GET".to_string()), ("empty", String::new())],
    );
    assert_eq!(line, "T  WARN [hyper] slow {method=GET, request.path=/api, db.path=users.db}\n");
}

#[test]
fn causes_are_printed_below() {
    let causes = Some(vec!["db error".to_string(), "connection refused".to_string()]);
    let line = render_event(false, "T", Level::Error, "fckn_gay", "fckn_gay", "query failed", &causes, &vec![], &vec![]);
    assert_eq!(
        line,
        "T ERROR query failed\n                    CAUSE db error\n                    CAUSE connection refused\n"
    );
}

#[test]
fn colored_header() {
    let line = render_event(true, "T", Level::Error, "fckn_gay", "fckn_gay", "", &None, &vec![], &vec![]);
    assert_eq!(line, "\x1b[2mT\x1b[0m \x1b[1m\x1b[31mERROR\x1b[0m \n");
}

#[test]
fn event_visitor_collects_parts() {
    let mut v = EventVisitor::new();
    v.record_text("message", "request failed".to_string());
    v.record_text("log.target", "x".to_string());
    v.record_value("status", "500".to_string());
    v.record_error("error", vec!["query failed: db offline".to_string(), "db offline".to_string()]);
    let (message, causes, fields) = v.into_parts();
    assert_eq!(message, "request failed");
    assert_eq!(causes, Some(vec!["query failed".to_string(), "db offline".to_string()]));
    assert_eq!(fields, vec![("status", "500".to_string())]);
}

#[test]
fn event_without_message_uses_error_root() {
    let mut v = EventVisitor::new();
    v.record_error("error", vec!["boom".to_string()]);
    let (message, causes, fields) = v.into_parts();
    assert_eq!(message, "boom");
    assert_eq!(causes, None);
    assert!(fields.is_empty());
}

#[test]
fn span_layer_merges_recorded_values() {
    let layer = SpanFieldLayer;
    let mut first = StringVisitor::new();
    first.record("user", "alice".to_string());
    first.record("ok", String::new());
    let storage = layer.on_new_span(first);
    let mut later = StringVisitor::new();
    later.record("ok", "true".to_string());
    later.record("status", "200".to_string());
    let storage = layer.on_record(Some(storage), later);
    assert_eq!(
        storage.fields(),
        &vec![("user", "alice".to_string()), ("ok", "true".to_string()), ("status", "200".to_string())]
    );
    let mut only = StringVisitor::new();
    only.record("x", "1".to_string());
    let fresh: SpanFieldStorage = layer.on_record(None, only);
    assert_eq!(fresh.fields(), &vec![("x", "1".to_string())]);
}

#[test]
fn formatter_defaults_and_null_fields() {
    assert_eq!(FlattenedFormatter::default().target_prefix, "fckn_gay");
    assert_eq!(NullFields.format_fields(), "");
    assert_eq!(level_label(Level::Info), " INFO");
    assert_eq!(level_label(Level::Trace), "TRACE");
}

#[test]
fn formatted_event_ends_with_the_line_body() {
    let f = FlattenedFormatter::default();
    let mut v = EventVisitor::new();
    v.record_text("message", "hi".to_string());
    let line = f.format_event(false, Level::Debug, "fckn_gay::x", v, &vec![]);
    assert!(line.ends_with(" DEBUG hi\n"));
    assert_eq!(line.len(), "2024-01-02 03:04:05 DEBUG hi\n".len());
}

#[test]
fn error_chain_reads_at_most_32_levels() {
    let displays: Vec<String> = (0..40).map(|d| format!("level-{d}")).collect();
    let (root, causes) = build_error_chain(&displays);
    assert_eq!(root, "level-0");
    assert_eq!(causes.len(), 31);
    assert_eq!(causes.last().unwrap(), "level-31");
}

#[test]
fn timestamps_are_utc_seconds() {
    assert_eq!(fckn_gay::logging::timestamp_text(Some(0)), "1970-01-01 00:00:00");
    assert_eq!(fckn_gay::logging::timestamp_text(Some(86399)), "1970-01-01 23:59:59");
    assert_eq!(fckn_gay::logging::timestamp_text(Some(-1)), "1969-12-31 23:59:59");
    assert_eq!(fckn_gay::logging::timestamp_text(None), "");
}

#[test]
fn clock_readings_round_down_to_seconds() {
    assert_eq!(timestamp_from(false, 5, 0), Some(5));
    assert_eq!(timestamp_from(false, 5, 999_999_999), Some(5));
    assert_eq!(timestamp_from(true, 1, 0), Some(-1));
    assert_eq!(timestamp_from(true, 1, 500), Some(-2));
    assert_eq!(timestamp_from(false, i64::MAX as u64, 0), Some(i64::MAX));
    assert_eq!(timestamp_from(false, u64::MAX, 0), None);
    assert_eq!(timestamp_from(true, i64::MAX as u64, 0), None);
}

#[test]
fn current_time_is_after_the_epoch() {
    let now = fckn_gay::clock::unix_timestamp();
    assert!(matches!(now, Some(t) if t > 1_600_000_000));
}
