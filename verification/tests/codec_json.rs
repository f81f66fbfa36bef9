use jaeger_proxy::codec::resp_to_json;
use jaeger_proxy::elasticsearch::ESClient;
use jaeger_proxy::json::JsonValue;
use jaeger_proxy::models::{
    Error, GetTraceResponse, KeyValue, Log, Process, Reference, Span, Trace,
};

fn to_value(v: &JsonValue) -> serde_json::Value {
    match v {
        JsonValue::Null => serde_json::Value::Null,
        JsonValue::Bool(b) => serde_json::Value::Bool(*b),
        JsonValue::UInt(n) => serde_json::Value::Number(serde_json::Number::from(*n)),
        JsonValue::Int(n) => serde_json::Value::Number(serde_json::Number::from(*n)),
        JsonValue::NumText(s) => serde_json::from_str(s).unwrap(),
        JsonValue::Str(s) => serde_json::Value::String(s.clone()),
        JsonValue::Arr(a) => serde_json::Value::Array(a.iter().map(to_value).collect()),
        JsonValue::Obj(f) => {
            let mut m = serde_json::Map::new();
            for (k, x) in f.iter() {
                m.insert(k.clone(), to_value(x));
            }
            serde_json::Value::Object(m)
        }
    }
}

fn sample_response() -> GetTraceResponse {
    let log = Log {
        timestamp: 7,
        fields: Some(vec![KeyValue {
            key: "event".to_string(),
            type_value: Some("string".to_string()),
            value: JsonValue::Str("boot".to_string()),
        }]),
    };
    let span = Span {
        trace_id: "abc".to_string(),
        span_id: "s1".to_string(),
        parent_span_id: Some("s0".to_string()),
        flags: Some(1),
        operation_name: "GET /".to_string(),
        references: Some(vec![Reference {
            ref_type: "CHILD_OF".to_string(),
            trace_id: "abc".to_string(),
            span_id: "s0".to_string(),
        }]),
        start_time: 1_000_000,
        duration: 2_000,
        tags: None,
        logs: Some(vec![log]),
        process_id: Some("p1".to_string()),
        process: None,
        warnings: None,
    };
    let trace = Trace {
        trace_id: "abc".to_string(),
        spans: Some(vec![span]),
        processes: vec![(
            "p1".to_string(),
            Process { service_name: "api".to_string(), tags: None },
        )],
        warnings: Some(vec!["late".to_string()]),
    };
    GetTraceResponse {
        data: Some(vec![trace]),
        errors: Some(vec![Error {
            code: -3,
            msg: "partial".to_string(),
            trace_id: "abc".to_string(),
        }]),
    }
}

#[test]
fn response_json_has_expected_shape() {
    let v = to_value(&resp_to_json(sample_response()));
    let expected: serde_json::Value = serde_json::from_str(
        r#"{
        "data": [
            {
                "traceID": "abc",
                "spans": [
                    {
                        "traceID": "abc",
                        "spanID": "s1",
                        "parentSpanID": "s0",
                        "flags": 1,
                        "operationName": "GET /",
                        "references": [
                            {"refType": "CHILD_OF", "traceID": "abc", "spanID": "s0"}
                        ],
                        "startTime": 1000000,
                        "duration": 2000,
                        "tags": null,
                        "logs": [
                            {
                                "timestamp": 7,
                                "fields": [
                                    {"key": "event", "type": "string", "value": "boot"}
                                ]
                            }
                        ],
                        "processID": "p1",
                        "process": null,
                        "warnings": null
                    }
                ],
                "processes": {"p1": {"serviceName": "api", "tags": null}},
                "warnings": ["late"]
            }
        ],
        "errors": [
            {"code": -3, "msg": "partial", "traceID": "abc"}
        ]
    }"#,
    )
    .unwrap();
    assert_eq!(v, expected);
}

#[test]
fn response_json_round_trips_through_text() {
    let v = to_value(&resp_to_json(sample_response()));
    let text = serde_json::to_string(&v).unwrap();
    let back: serde_json::Value = serde_json::from_str(&text).unwrap();
    assert_eq!(back, v);
}

#[test]
fn empty_response_serializes_to_nulls() {
    let v = to_value(&resp_to_json(GetTraceResponse { data: None, errors: None }));
    let expected: serde_json::Value =
        serde_json::from_str(r#"{"data": null, "errors": null}"#).unwrap();
    assert_eq!(v, expected);
}

#[test]
fn query_matches_search_contract() {
    let q = to_value(&ESClient::get_query("traceX", 1000, 601000));
    let expected: serde_json::Value = serde_json::from_str(
        r#"{
        "query": {
            "bool": {
                "must": [
                    {"query_string": {"query": "traceX"}},
                    {
                        "range": {
                            "@timestamp": {
                                "gte": 1000,
                                "lte": 601000,
                                "format": "epoch_millis"
                            }
                        }
                    }
                ]
            }
        }
    }"#,
    )
    .unwrap();
    assert_eq!(q, expected);
}

#[test]
fn numbers_carry_through_faithfully() {
    let resp = GetTraceResponse {
        data: Some(vec![Trace {
            trace_id: "abc".to_string(),
            spans: Some(vec![Span {
                trace_id: "abc".to_string(),
                span_id: "s1".to_string(),
                parent_span_id: None,
                flags: None,
                operation_name: "op".to_string(),
                references: None,
                start_time: u64::MAX,
                duration: 0,
                tags: Some(vec![
                    KeyValue {
                        key: "ratio".to_string(),
                        type_value: None,
                        value: JsonValue::NumText("1.5".to_string()),
                    },
                    KeyValue {
                        key: "offset".to_string(),
                        type_value: None,
                        value: JsonValue::Int(-7),
                    },
                ]),
                logs: None,
                process_id: None,
                process: None,
                warnings: None,
            }]),
            processes: Vec::new(),
            warnings: None,
        }]),
        errors: None,
    };
    let v = to_value(&resp_to_json(resp));
    let span = &v["data"][0]["spans"][0];
    assert_eq!(span["startTime"], serde_json::Value::from(u64::MAX));
    let tags = span["tags"].as_array().unwrap();
    assert_eq!(tags[0]["value"], serde_json::Value::from(1.5));
    assert_eq!(tags[1]["value"], serde_json::Value::from(-7));
}
