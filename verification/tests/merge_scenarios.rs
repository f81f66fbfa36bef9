use jaeger_proxy::elasticsearch::ESLog;
use jaeger_proxy::json::JsonValue;
use jaeger_proxy::merge::{enrich, merge};
use jaeger_proxy::models::{GetTraceResponse, Log, Process, Span, Trace};

fn span(id: &str, logs: Option<Vec<Log>>) -> Span {
    Span {
        trace_id: "abc".to_string(),
        span_id: id.to_string(),
        parent_span_id: None,
        flags: Some(1),
        operation_name: "op".to_string(),
        references: None,
        start_time: 60_000_000,
        duration: 5,
        tags: None,
        logs,
        process_id: Some("p1".to_string()),
        process: None,
        warnings: None,
    }
}

fn record(cid: Option<&str>, ts: Option<&str>) -> ESLog {
    ESLog {
        x_trace_id: cid.map(|s| s.to_string()),
        timestamp: ts.map(|s| s.to_string()),
        date: None,
        message: Some("hello".to_string()),
        extra: Vec::new(),
    }
}

const GOOD_TS: &str = "2021-01-01T00:00:00.000Z";

#[test]
fn merge_end_to_end_scenario() {
    let trace = Trace {
        trace_id: "abc".to_string(),
        spans: Some(vec![span("s1", Some(vec![]))]),
        processes: vec![(
            "p1".to_string(),
            Process { service_name: "api".to_string(), tags: None },
        )],
        warnings: None,
    };
    let resp = GetTraceResponse { data: Some(vec![trace]), errors: None };
    let records = vec![
        record(Some("api:s1:abc:1"), Some(GOOD_TS)),
        record(Some("api:s2:abc:1"), Some(GOOD_TS)),
    ];
    let (merged, unmatched) = enrich(resp, records);

    let data = merged.data.unwrap();
    assert_eq!(data.len(), 1);
    let spans = data[0].spans.as_ref().unwrap();
    assert_eq!(spans.len(), 1);
    let logs = spans[0].logs.as_ref().unwrap();
    assert_eq!(logs.len(), 1);
    // seconds of 2021-01-01T00:00:00Z, in microseconds
    assert_eq!(logs[0].timestamp, 1_609_459_200_000_000);
    let fields = logs[0].fields.as_ref().unwrap();
    assert_eq!(fields.len(), 1);
    assert_eq!(fields[0].key, "elk");
    assert_eq!(fields[0].type_value, Some("string".to_string()));

    assert_eq!(unmatched.len(), 1);
    assert_eq!(unmatched[0].x_trace_id, Some("api:s2:abc:1".to_string()));
}

#[test]
fn merge_span_without_log_array_left_untouched() {
    let trace = Trace {
        trace_id: "abc".to_string(),
        spans: Some(vec![span("s1", None)]),
        processes: Vec::new(),
        warnings: None,
    };
    let records = vec![record(Some("api:s1:abc:1"), Some(GOOD_TS))];
    let (merged, unmatched) = merge(trace, records);
    let spans = merged.spans.unwrap();
    assert!(spans[0].logs.is_none());
    assert_eq!(unmatched.len(), 1);
}

#[test]
fn merge_malformed_correlation_id_unmatched() {
    let trace = Trace {
        trace_id: "abc".to_string(),
        spans: Some(vec![span("s1", Some(vec![]))]),
        processes: Vec::new(),
        warnings: None,
    };
    let records = vec![
        record(Some("a:b"), Some(GOOD_TS)),
        record(Some("a:b:c:d:e"), Some(GOOD_TS)),
    ];
    let (merged, unmatched) = merge(trace, records);
    let spans = merged.spans.unwrap();
    assert_eq!(spans[0].logs.as_ref().unwrap().len(), 0);
    assert_eq!(unmatched.len(), 2);
}

#[test]
fn merge_absent_correlation_id_unmatched() {
    let trace = Trace {
        trace_id: "abc".to_string(),
        spans: Some(vec![span("s1", Some(vec![]))]),
        processes: Vec::new(),
        warnings: None,
    };
    let records = vec![record(None, Some(GOOD_TS))];
    let (merged, unmatched) = merge(trace, records);
    assert_eq!(merged.spans.unwrap()[0].logs.as_ref().unwrap().len(), 0);
    assert_eq!(unmatched.len(), 1);
}

#[test]
fn merge_unparseable_timestamp_discarded() {
    let trace = Trace {
        trace_id: "abc".to_string(),
        spans: Some(vec![span("s1", Some(vec![]))]),
        processes: Vec::new(),
        warnings: None,
    };
    let records = vec![
        record(Some("api:s1:abc:1"), Some("yesterday at noon")),
        record(Some("api:s1:abc:1"), None),
    ];
    let (merged, unmatched) = merge(trace, records);
    assert_eq!(merged.spans.unwrap()[0].logs.as_ref().unwrap().len(), 0);
    assert_eq!(unmatched.len(), 2);
}

#[test]
fn merge_appends_after_existing_logs() {
    let existing = Log { timestamp: 42, fields: None };
    let trace = Trace {
        trace_id: "abc".to_string(),
        spans: Some(vec![span("s1", Some(vec![existing]))]),
        processes: Vec::new(),
        warnings: None,
    };
    let records = vec![record(Some("api:s1:abc:1"), Some(GOOD_TS))];
    let (merged, unmatched) = merge(trace, records);
    let spans = merged.spans.unwrap();
    let logs = spans[0].logs.as_ref().unwrap();
    assert_eq!(logs.len(), 2);
    assert_eq!(logs[0].timestamp, 42);
    assert_eq!(logs[1].timestamp, 1_609_459_200_000_000);
    assert_eq!(unmatched.len(), 0);
}

#[test]
fn merge_preserves_every_other_field() {
    let trace = Trace {
        trace_id: "abc".to_string(),
        spans: Some(vec![span("s1", Some(vec![]))]),
        processes: vec![(
            "p1".to_string(),
            Process { service_name: "api".to_string(), tags: None },
        )],
        warnings: Some(vec!["w".to_string()]),
    };
    let records = vec![record(Some("api:s1:abc:1"), Some(GOOD_TS))];
    let (merged, _) = merge(trace, records);
    assert_eq!(merged.trace_id, "abc");
    assert_eq!(merged.processes.len(), 1);
    assert_eq!(merged.processes[0].0, "p1");
    assert_eq!(merged.warnings, Some(vec!["w".to_string()]));
    let spans = merged.spans.unwrap();
    assert_eq!(spans[0].span_id, "s1");
    assert_eq!(spans[0].start_time, 60_000_000);
    assert_eq!(spans[0].duration, 5);
    assert_eq!(spans[0].flags, Some(1));
    assert_eq!(spans[0].process_id, Some("p1".to_string()));
}

#[test]
fn wrap_record_builds_elk_field() {
    let mut r = record(Some("api:s1:abc:1"), Some(GOOD_TS));
    r.date = Some("2021-01-01T00:00:00.000".to_string());
    r.extra.push(("level".to_string(), JsonValue::Str("info".to_string())));
    let log = Log::from_es(r).unwrap();
    assert_eq!(log.timestamp, 1_609_459_200_000_000);
    let fields = log.fields.unwrap();
    assert_eq!(fields.len(), 1);
    assert_eq!(fields[0].key, "elk");
    assert_eq!(fields[0].type_value, Some("string".to_string()));
    match &fields[0].value {
        JsonValue::Obj(entries) => {
            assert_eq!(entries.len(), 5);
            assert_eq!(entries[0].0, "x_trace_id");
            assert!(matches!(&entries[0].1, JsonValue::Str(s) if s == "api:s1:abc:1"));
            assert_eq!(entries[1].0, "@timestamp");
            assert_eq!(entries[2].0, "date");
            assert_eq!(entries[3].0, "message");
            assert_eq!(entries[4].0, "level");
        }
        other => panic!("expected an object, got {:?}", other),
    }
}

#[test]
fn wrap_record_without_timestamp_is_discarded() {
    assert!(Log::from_es(record(Some("api:s1:abc:1"), None)).is_none());
    assert!(Log::from_es(record(Some("api:s1:abc:1"), Some("not a time"))).is_none());
}

#[test]
fn enrich_without_traces_changes_nothing() {
    let resp = GetTraceResponse { data: None, errors: None };
    let records = vec![record(Some("api:s1:abc:1"), Some(GOOD_TS))];
    let (merged, unmatched) = enrich(resp, records);
    assert!(merged.data.is_none());
    assert_eq!(unmatched.len(), 1);

    let empty = GetTraceResponse { data: Some(vec![]), errors: None };
    let records = vec![record(Some("api:s1:abc:1"), Some(GOOD_TS))];
    let (merged, unmatched) = enrich(empty, records);
    assert_eq!(merged.data.unwrap().len(), 0);
    assert_eq!(unmatched.len(), 1);
}

#[test]
fn merge_routes_past_earlier_spans() {
    let trace = Trace {
        trace_id: "abc".to_string(),
        spans: Some(vec![span("s1", None), span("s2", Some(vec![]))]),
        processes: Vec::new(),
        warnings: None,
    };
    let records = vec![
        record(Some("api:s2:abc:1"), Some(GOOD_TS)),
        record(Some("api:s1:abc:1"), Some(GOOD_TS)),
    ];
    let (merged, unmatched) = merge(trace, records);
    let spans = merged.spans.unwrap();
    // the record for the second span attaches there; the record for
    // the first span finds no log array and stays unmatched
    assert!(spans[0].logs.is_none());
    assert_eq!(spans[1].logs.as_ref().unwrap().len(), 1);
    assert_eq!(unmatched.len(), 1);
    assert_eq!(unmatched[0].x_trace_id, Some("api:s1:abc:1".to_string()));
}
