use jaeger_proxy::correlate::{span_id_of_correlation, split_correlation};
use jaeger_proxy::elasticsearch::ESClient;
use jaeger_proxy::models::{GetTraceResponse, Span, Trace};
use jaeger_proxy::proxy::{rewrite_url, strip_content_encoding};
use jaeger_proxy::window::compute_window;

fn span(id: &str, start_time: u64) -> Span {
    Span {
        trace_id: "t".to_string(),
        span_id: id.to_string(),
        parent_span_id: None,
        flags: None,
        operation_name: "op".to_string(),
        references: None,
        start_time,
        duration: 5,
        tags: None,
        logs: None,
        process_id: None,
        process: None,
        warnings: None,
    }
}

fn trace_with(spans: Option<Vec<Span>>) -> Trace {
    Trace {
        trace_id: "t".to_string(),
        spans,
        processes: Vec::new(),
        warnings: None,
    }
}

#[test]
fn window_single_span_unit_conversion() {
    let resp = GetTraceResponse {
        data: Some(vec![trace_with(Some(vec![span("s1", 1_000_000)]))]),
        errors: None,
    };
    assert_eq!(compute_window(&resp), Some((1000, 601000)));
}

#[test]
fn window_empty_response() {
    let none = GetTraceResponse { data: None, errors: None };
    assert_eq!(compute_window(&none), None);
    let no_traces = GetTraceResponse { data: Some(vec![]), errors: None };
    assert_eq!(compute_window(&no_traces), None);
    let no_spans = GetTraceResponse {
        data: Some(vec![trace_with(None), trace_with(Some(vec![]))]),
        errors: None,
    };
    assert_eq!(compute_window(&no_spans), None);
}

#[test]
fn window_min_across_all_traces() {
    let resp = GetTraceResponse {
        data: Some(vec![
            trace_with(Some(vec![span("a", 5_000_000), span("b", 9_000_000)])),
            trace_with(Some(vec![span("c", 2_000_000)])),
        ]),
        errors: None,
    };
    let (from, to) = compute_window(&resp).unwrap();
    assert_eq!(from, 2000);
    assert_eq!(to, 602000);
    assert_eq!(to - from, 600_000);
}

#[test]
fn window_idempotent() {
    let resp = GetTraceResponse {
        data: Some(vec![trace_with(Some(vec![span("a", 7_777_777)]))]),
        errors: None,
    };
    let first = compute_window(&resp);
    let second = compute_window(&resp);
    assert_eq!(first, second);
    assert_eq!(first, Some((7777, 607777)));
}

#[test]
fn correlation_well_formed() {
    assert_eq!(
        span_id_of_correlation("svc:spanA:traceX:1"),
        Some("spanA".to_string())
    );
}

#[test]
fn correlation_empty_parts_kept() {
    assert_eq!(span_id_of_correlation(":b::1"), Some("b".to_string()));
}

#[test]
fn correlation_malformed() {
    assert_eq!(span_id_of_correlation("a:b:c"), None);
    assert_eq!(span_id_of_correlation("a:b:c:d:e"), None);
    assert_eq!(span_id_of_correlation("abc"), None);
    assert_eq!(span_id_of_correlation(""), None);
}

#[test]
fn split_keeps_all_parts() {
    assert_eq!(
        split_correlation("a:b:c:d"),
        vec!["a".to_string(), "b".to_string(), "c".to_string(), "d".to_string()]
    );
    assert_eq!(split_correlation("abc"), vec!["abc".to_string()]);
}

#[test]
fn strip_content_encoding_only() {
    let headers = vec![
        ("content-type".to_string(), "application/json".to_string()),
        ("content-encoding".to_string(), "gzip".to_string()),
        ("x-extra".to_string(), "1".to_string()),
    ];
    let out = strip_content_encoding(headers);
    assert_eq!(
        out,
        vec![
            ("content-type".to_string(), "application/json".to_string()),
            ("x-extra".to_string(), "1".to_string()),
        ]
    );
}

#[test]
fn strip_content_encoding_any_case() {
    let headers = vec![("Content-Encoding".to_string(), "gzip".to_string())];
    assert_eq!(strip_content_encoding(headers), vec![]);
}

#[test]
fn rewrite_url_keeps_path_and_query() {
    let u = rewrite_url("http", "jaeger", 16686, "/foo?x=1");
    assert_eq!(u, "http://jaeger:16686/foo?x=1");
}

#[test]
fn rewrite_url_port_digits() {
    assert_eq!(rewrite_url("http", "h", 80, "/"), "http://h:80/");
    assert_eq!(rewrite_url("https", "h", 0, ""), "https://h:0");
    assert_eq!(rewrite_url("http", "h", 65535, "/a"), "http://h:65535/a");
}

#[test]
fn search_path_joins_indexes() {
    let client = ESClient::new(
        "http://es:9200".to_string(),
        vec![
            "access_log-*".to_string(),
            "python_*".to_string(),
            "node_*".to_string(),
            "csharp_*".to_string(),
        ],
    );
    assert_eq!(client.search_path(), "access_log-*,python_*,node_*,csharp_*/_search");
}

#[test]
fn search_path_single_index() {
    let client = ESClient::new("http://es:9200".to_string(), vec!["only_*".to_string()]);
    assert_eq!(client.search_path(), "only_*/_search");
}
