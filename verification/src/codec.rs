//! The JSON mapping of the trace model.
//!
//! Each model type maps to the JSON object shape the tracing backend
//! uses (external field names such as `traceID`, `startTime`); absent
//! optional fields map to `null`; open-ended values are carried
//! verbatim. A spec-level decoder recovers a response from its
//! encoding: the mapping loses nothing.

use crate::elasticsearch::{opt_str_json, spec_opt_str_json};
use crate::json::{
    json_view, lemma_arr_view_is_deep, lemma_obj_view_is_deep, JsonValue, SpecJson,
};
use crate::models::{
    Error, ErrorView, GetTraceResponse, GetTraceResponseView, KeyValue, KeyValueView, Log,
    LogView, Process, ProcessView, Reference, ReferenceView, Span, SpanView, Trace, TraceView,
};
use crate::seqs::lemma_map_push;
use vstd::prelude::*;
use vstd::string::StringExecFns;

verus! {

/// `null` for an absent sequence, the encoded array otherwise.
pub open spec fn spec_opt_arr<A>(o: Option<Seq<A>>, enc: spec_fn(A) -> SpecJson) -> SpecJson {
    match o {
        Option::None => SpecJson::Null,
        Option::Some(s) => SpecJson::Arr(s.map_values(enc)),
    }
}

/// A string as a JSON string.
pub open spec fn str_json_fn() -> spec_fn(Seq<char>) -> SpecJson {
    |s: Seq<char>| SpecJson::Str(s)
}

/// The JSON shape of an error entry.
pub open spec fn spec_error_json(e: ErrorView) -> SpecJson {
    SpecJson::Obj(
        seq![
            ("code"@, SpecJson::Int(e.code as i64)),
            ("msg"@, SpecJson::Str(e.msg)),
            ("traceID"@, SpecJson::Str(e.trace_id)),
        ],
    )
}

pub open spec fn error_json_fn() -> spec_fn(ErrorView) -> SpecJson {
    |e: ErrorView| spec_error_json(e)
}

/// The JSON shape of a span reference.
pub open spec fn spec_reference_json(r: ReferenceView) -> SpecJson {
    SpecJson::Obj(
        seq![
            ("refType"@, SpecJson::Str(r.ref_type)),
            ("traceID"@, SpecJson::Str(r.trace_id)),
            ("spanID"@, SpecJson::Str(r.span_id)),
        ],
    )
}

pub open spec fn reference_json_fn() -> spec_fn(ReferenceView) -> SpecJson {
    |r: ReferenceView| spec_reference_json(r)
}

/// The JSON shape of a log or tag field.
pub open spec fn spec_kv_json(k: KeyValueView) -> SpecJson {
    SpecJson::Obj(
        seq![
            ("key"@, SpecJson::Str(k.key)),
            ("type"@, spec_opt_str_json(k.type_value)),
            ("value"@, k.value),
        ],
    )
}

pub open spec fn kv_json_fn() -> spec_fn(KeyValueView) -> SpecJson {
    |k: KeyValueView| spec_kv_json(k)
}

/// The JSON shape of a span log line.
pub open spec fn spec_log_json(l: LogView) -> SpecJson {
    SpecJson::Obj(
        seq![
            ("timestamp"@, SpecJson::UInt(l.timestamp)),
            ("fields"@, spec_opt_arr(l.fields, kv_json_fn())),
        ],
    )
}

pub open spec fn log_json_fn() -> spec_fn(LogView) -> SpecJson {
    |l: LogView| spec_log_json(l)
}

/// The JSON shape of a process.
pub open spec fn spec_process_json(p: ProcessView) -> SpecJson {
    SpecJson::Obj(
        seq![
            ("serviceName"@, SpecJson::Str(p.service_name)),
            ("tags"@, spec_opt_arr(p.tags, kv_json_fn())),
        ],
    )
}

/// The JSON shape of a span.
pub open spec fn spec_span_json(s: SpanView) -> SpecJson {
    SpecJson::Obj(
        seq![
            ("traceID"@, SpecJson::Str(s.trace_id)),
            ("spanID"@, SpecJson::Str(s.span_id)),
            ("parentSpanID"@, spec_opt_str_json(s.parent_span_id)),
            ("flags"@, match s.flags {
                Option::None => SpecJson::Null,
                Option::Some(n) => SpecJson::UInt(n as u64),
            }),
            ("operationName"@, SpecJson::Str(s.operation_name)),
            ("references"@, spec_opt_arr(s.references, reference_json_fn())),
            ("startTime"@, SpecJson::UInt(s.start_time)),
            ("duration"@, SpecJson::UInt(s.duration)),
            ("tags"@, spec_opt_arr(s.tags, kv_json_fn())),
            ("logs"@, spec_opt_arr(s.logs, log_json_fn())),
            ("processID"@, spec_opt_str_json(s.process_id)),
            ("process"@, match s.process {
                Option::None => SpecJson::Null,
                Option::Some(p) => spec_process_json(p),
            }),
            ("warnings"@, spec_opt_arr(s.warnings, str_json_fn())),
        ],
    )
}

pub open spec fn span_json_fn() -> spec_fn(SpanView) -> SpecJson {
    |s: SpanView| spec_span_json(s)
}

/// A process-table entry as a JSON object field.
pub open spec fn process_entry_fn() -> spec_fn((Seq<char>, ProcessView)) -> (
    Seq<char>,
    SpecJson,
) {
    |p: (Seq<char>, ProcessView)| (p.0, spec_process_json(p.1))
}

/// The JSON shape of a trace.
pub open spec fn spec_trace_json(t: TraceView) -> SpecJson {
    SpecJson::Obj(
        seq![
            ("traceID"@, SpecJson::Str(t.trace_id)),
            ("spans"@, spec_opt_arr(t.spans, span_json_fn())),
            ("processes"@, SpecJson::Obj(t.processes.map_values(process_entry_fn()))),
            ("warnings"@, spec_opt_arr(t.warnings, str_json_fn())),
        ],
    )
}

pub open spec fn trace_json_fn() -> spec_fn(TraceView) -> SpecJson {
    |t: TraceView| spec_trace_json(t)
}

/// The JSON shape of a whole trace-detail response.
pub open spec fn spec_resp_json(r: GetTraceResponseView) -> SpecJson {
    SpecJson::Obj(
        seq![
            ("data"@, spec_opt_arr(r.data, trace_json_fn())),
            ("errors"@, spec_opt_arr(r.errors, error_json_fn())),
        ],
    )
}

/// An error entry as JSON, as `spec_error_json` says.
fn error_to_json(e: Error) -> (v: JsonValue)
    ensures
        json_view(v) == spec_error_json(e.deep_view()),
{
    let ghost xv = e.deep_view();
    let Error { code, msg, trace_id } = e;
    let mut f: Vec<(String, JsonValue)> = Vec::new();
    f.push((String::from_str("code"), JsonValue::Int(code as i64)));
    f.push((String::from_str("msg"), JsonValue::Str(msg)));
    f.push((String::from_str("traceID"), JsonValue::Str(trace_id)));
    proof {
        lemma_obj_view_is_deep(f);
        assert(f.deep_view() =~= seq![
            ("code"@, SpecJson::Int(xv.code as i64)),
            ("msg"@, SpecJson::Str(xv.msg)),
            ("traceID"@, SpecJson::Str(xv.trace_id)),
        ]);
    }
    JsonValue::Obj(f)
}

/// A span reference as JSON, as `spec_reference_json` says.
fn reference_to_json(r: Reference) -> (v: JsonValue)
    ensures
        json_view(v) == spec_reference_json(r.deep_view()),
{
    let ghost xv = r.deep_view();
    let Reference { ref_type, trace_id, span_id } = r;
    let mut f: Vec<(String, JsonValue)> = Vec::new();
    f.push((String::from_str("refType"), JsonValue::Str(ref_type)));
    f.push((String::from_str("traceID"), JsonValue::Str(trace_id)));
    f.push((String::from_str("spanID"), JsonValue::Str(span_id)));
    proof {
        lemma_obj_view_is_deep(f);
        assert(f.deep_view() =~= seq![
            ("refType"@, SpecJson::Str(xv.ref_type)),
            ("traceID"@, SpecJson::Str(xv.trace_id)),
            ("spanID"@, SpecJson::Str(xv.span_id)),
        ]);
    }
    JsonValue::Obj(f)
}

/// A log or tag field as JSON, as `spec_kv_json` says.
fn kv_to_json(k: KeyValue) -> (v: JsonValue)
    ensures
        json_view(v) == spec_kv_json(k.deep_view()),
{
    let ghost xv = k.deep_view();
    let KeyValue { key, type_value, value } = k;
    let mut f: Vec<(String, JsonValue)> = Vec::new();
    f.push((String::from_str("key"), JsonValue::Str(key)));
    f.push((String::from_str("type"), opt_str_json(type_value)));
    f.push((String::from_str("value"), value));
    proof {
        lemma_obj_view_is_deep(f);
        assert(f.deep_view() =~= seq![
            ("key"@, SpecJson::Str(xv.key)),
            ("type"@, spec_opt_str_json(xv.type_value)),
            ("value"@, xv.value),
        ]);
    }
    JsonValue::Obj(f)
}

/// The fields of a log line as JSON values, in order.
fn kvs_to_json(xs: Vec<KeyValue>) -> (out: Vec<JsonValue>)
    ensures
        out.deep_view() == xs.deep_view().map_values(kv_json_fn()),
{
    let ghost xv = xs.deep_view();
    let mut xs = xs;
    let mut out: Vec<JsonValue> = Vec::new();
    while xs.len() > 0
        invariant
            xs.deep_view().len() <= xv.len(),
            forall|j: int|
                0 <= j < xs.deep_view().len() ==> xs.deep_view()[j] == xv[xv.len()
                    - xs.deep_view().len() + j],
            out.deep_view() == xv.subrange(0, xv.len() - xs.deep_view().len()).map_values(
                kv_json_fn(),
            ),
        decreases xs.len(),
    {
        let ghost k = xv.len() - xs.deep_view().len();
        let ghost xprev = xs.deep_view();
        let x = xs.remove(0);
        proof {
            assert(xprev[0] == xv[k]);
            assert(x.deep_view() == xv[k]);
            assert(forall|j: int|
                0 <= j < xs.deep_view().len() ==> xs.deep_view()[j] == xprev[j + 1]);
            assert(xv.subrange(0, k + 1) =~= xv.subrange(0, k).push(xv[k]));
            lemma_map_push(xv.subrange(0, k), kv_json_fn(), xv[k]);
        }
        let j = kv_to_json(x);
        out.push(j);
    }
    proof {
        assert(xv.subrange(0, xv.len() as int) =~= xv);
    }
    out
}

/// An optional field list as JSON: `null` when absent.
fn opt_kvs_to_json(o: Option<Vec<KeyValue>>) -> (v: JsonValue)
    ensures
        json_view(v) == spec_opt_arr(o.deep_view(), kv_json_fn()),
{
    match o {
        Option::None => JsonValue::Null,
        Option::Some(xs) => {
            let arr = kvs_to_json(xs);
            proof {
                lemma_arr_view_is_deep(arr);
            }
            JsonValue::Arr(arr)
        },
    }
}

/// A span log line as JSON, as `spec_log_json` says.
fn log_to_json(l: Log) -> (v: JsonValue)
    ensures
        json_view(v) == spec_log_json(l.deep_view()),
{
    let ghost xv = l.deep_view();
    let Log { timestamp, fields } = l;
    let mut f: Vec<(String, JsonValue)> = Vec::new();
    f.push((String::from_str("timestamp"), JsonValue::UInt(timestamp)));
    f.push((String::from_str("fields"), opt_kvs_to_json(fields)));
    proof {
        lemma_obj_view_is_deep(f);
        assert(f.deep_view() =~= seq![
            ("timestamp"@, SpecJson::UInt(xv.timestamp)),
            ("fields"@, spec_opt_arr(xv.fields, kv_json_fn())),
        ]);
    }
    JsonValue::Obj(f)
}

/// The log lines of a span as JSON values, in order.
fn logs_to_json(xs: Vec<Log>) -> (out: Vec<JsonValue>)
    ensures
        out.deep_view() == xs.deep_view().map_values(log_json_fn()),
{
    let ghost xv = xs.deep_view();
    let mut xs = xs;
    let mut out: Vec<JsonValue> = Vec::new();
    while xs.len() > 0
        invariant
            xs.deep_view().len() <= xv.len(),
            forall|j: int|
                0 <= j < xs.deep_view().len() ==> xs.deep_view()[j] == xv[xv.len()
                    - xs.deep_view().len() + j],
            out.deep_view() == xv.subrange(0, xv.len() - xs.deep_view().len()).map_values(
                log_json_fn(),
            ),
        decreases xs.len(),
    {
        let ghost k = xv.len() - xs.deep_view().len();
        let ghost xprev = xs.deep_view();
        let x = xs.remove(0);
        proof {
            assert(xprev[0] == xv[k]);
            assert(x.deep_view() == xv[k]);
            assert(forall|j: int|
                0 <= j < xs.deep_view().len() ==> xs.deep_view()[j] == xprev[j + 1]);
            assert(xv.subrange(0, k + 1) =~= xv.subrange(0, k).push(xv[k]));
            lemma_map_push(xv.subrange(0, k), log_json_fn(), xv[k]);
        }
        let j = log_to_json(x);
        out.push(j);
    }
    proof {
        assert(xv.subrange(0, xv.len() as int) =~= xv);
    }
    out
}

/// The references of a span as JSON values, in order.
fn references_to_json(xs: Vec<Reference>) -> (out: Vec<JsonValue>)
    ensures
        out.deep_view() == xs.deep_view().map_values(reference_json_fn()),
{
    let ghost xv = xs.deep_view();
    let mut xs = xs;
    let mut out: Vec<JsonValue> = Vec::new();
    while xs.len() > 0
        invariant
            xs.deep_view().len() <= xv.len(),
            forall|j: int|
                0 <= j < xs.deep_view().len() ==> xs.deep_view()[j] == xv[xv.len()
                    - xs.deep_view().len() + j],
            out.deep_view() == xv.subrange(0, xv.len() - xs.deep_view().len()).map_values(
                reference_json_fn(),
            ),
        decreases xs.len(),
    {
        let ghost k = xv.len() - xs.deep_view().len();
        let ghost xprev = xs.deep_view();
        let x = xs.remove(0);
        proof {
            assert(xprev[0] == xv[k]);
            assert(x.deep_view() == xv[k]);
            assert(forall|j: int|
                0 <= j < xs.deep_view().len() ==> xs.deep_view()[j] == xprev[j + 1]);
            assert(xv.subrange(0, k + 1) =~= xv.subrange(0, k).push(xv[k]));
            lemma_map_push(xv.subrange(0, k), reference_json_fn(), xv[k]);
        }
        let j = reference_to_json(x);
        out.push(j);
    }
    proof {
        assert(xv.subrange(0, xv.len() as int) =~= xv);
    }
    out
}

/// A warning list as JSON strings, in order.
fn strings_to_json(xs: Vec<String>) -> (out: Vec<JsonValue>)
    ensures
        out.deep_view() == xs.deep_view().map_values(str_json_fn()),
{
    let ghost xv = xs.deep_view();
    let mut xs = xs;
    let mut out: Vec<JsonValue> = Vec::new();
    while xs.len() > 0
        invariant
            xs.deep_view().len() <= xv.len(),
            forall|j: int|
                0 <= j < xs.deep_view().len() ==> xs.deep_view()[j] == xv[xv.len()
                    - xs.deep_view().len() + j],
            out.deep_view() == xv.subrange(0, xv.len() - xs.deep_view().len()).map_values(
                str_json_fn(),
            ),
        decreases xs.len(),
    {
        let ghost k = xv.len() - xs.deep_view().len();
        let ghost xprev = xs.deep_view();
        let x = xs.remove(0);
        proof {
            assert(xprev[0] == xv[k]);
            assert(x@ == xv[k]);
            assert(forall|j: int|
                0 <= j < xs.deep_view().len() ==> xs.deep_view()[j] == xprev[j + 1]);
            assert(xv.subrange(0, k + 1) =~= xv.subrange(0, k).push(xv[k]));
            lemma_map_push(xv.subrange(0, k), str_json_fn(), xv[k]);
        }
        out.push(JsonValue::Str(x));
    }
    proof {
        assert(xv.subrange(0, xv.len() as int) =~= xv);
    }
    out
}

/// An optional warning list as JSON: `null` when absent.
fn opt_strings_to_json(o: Option<Vec<String>>) -> (v: JsonValue)
    ensures
        json_view(v) == spec_opt_arr(o.deep_view(), str_json_fn()),
{
    match o {
        Option::None => JsonValue::Null,
        Option::Some(xs) => {
            let arr = strings_to_json(xs);
            proof {
                lemma_arr_view_is_deep(arr);
            }
            JsonValue::Arr(arr)
        },
    }
}

/// A process as JSON, as `spec_process_json` says.
fn process_to_json(p: Process) -> (v: JsonValue)
    ensures
        json_view(v) == spec_process_json(p.deep_view()),
{
    let ghost xv = p.deep_view();
    let Process { service_name, tags } = p;
    let mut f: Vec<(String, JsonValue)> = Vec::new();
    f.push((String::from_str("serviceName"), JsonValue::Str(service_name)));
    f.push((String::from_str("tags"), opt_kvs_to_json(tags)));
    proof {
        lemma_obj_view_is_deep(f);
        assert(f.deep_view() =~= seq![
            ("serviceName"@, SpecJson::Str(xv.service_name)),
            ("tags"@, spec_opt_arr(xv.tags, kv_json_fn())),
        ]);
    }
    JsonValue::Obj(f)
}

/// A span as JSON, as `spec_span_json` says.
fn span_to_json(s: Span) -> (v: JsonValue)
    ensures
        json_view(v) == spec_span_json(s.deep_view()),
{
    let ghost xv = s.deep_view();
    let Span {
        trace_id,
        span_id,
        parent_span_id,
        flags,
        operation_name,
        references,
        start_time,
        duration,
        tags,
        logs,
        process_id,
        process,
        warnings,
    } = s;
    let flags_json = match flags {
        Option::None => JsonValue::Null,
        Option::Some(n) => JsonValue::UInt(n as u64),
    };
    let refs_json = match references {
        Option::None => JsonValue::Null,
        Option::Some(xs) => {
            let arr = references_to_json(xs);
            proof {
                lemma_arr_view_is_deep(arr);
            }
            JsonValue::Arr(arr)
        },
    };
    let logs_json = match logs {
        Option::None => JsonValue::Null,
        Option::Some(xs) => {
            let arr = logs_to_json(xs);
            proof {
                lemma_arr_view_is_deep(arr);
            }
            JsonValue::Arr(arr)
        },
    };
    let process_json = match process {
        Option::None => JsonValue::Null,
        Option::Some(p) => process_to_json(p),
    };
    let mut f: Vec<(String, JsonValue)> = Vec::new();
    f.push((String::from_str("traceID"), JsonValue::Str(trace_id)));
    f.push((String::from_str("spanID"), JsonValue::Str(span_id)));
    f.push((String::from_str("parentSpanID"), opt_str_json(parent_span_id)));
    f.push((String::from_str("flags"), flags_json));
    f.push((String::from_str("operationName"), JsonValue::Str(operation_name)));
    f.push((String::from_str("references"), refs_json));
    f.push((String::from_str("startTime"), JsonValue::UInt(start_time)));
    f.push((String::from_str("duration"), JsonValue::UInt(duration)));
    f.push((String::from_str("tags"), opt_kvs_to_json(tags)));
    f.push((String::from_str("logs"), logs_json));
    f.push((String::from_str("processID"), opt_str_json(process_id)));
    f.push((String::from_str("process"), process_json));
    f.push((String::from_str("warnings"), opt_strings_to_json(warnings)));
    proof {
        lemma_obj_view_is_deep(f);
        assert(f.deep_view() =~= seq![
            ("traceID"@, SpecJson::Str(xv.trace_id)),
            ("spanID"@, SpecJson::Str(xv.span_id)),
            ("parentSpanID"@, spec_opt_str_json(xv.parent_span_id)),
            ("flags"@, match xv.flags {
                Option::None => SpecJson::Null,
                Option::Some(n) => SpecJson::UInt(n as u64),
            }),
            ("operationName"@, SpecJson::Str(xv.operation_name)),
            ("references"@, spec_opt_arr(xv.references, reference_json_fn())),
            ("startTime"@, SpecJson::UInt(xv.start_time)),
            ("duration"@, SpecJson::UInt(xv.duration)),
            ("tags"@, spec_opt_arr(xv.tags, kv_json_fn())),
            ("logs"@, spec_opt_arr(xv.logs, log_json_fn())),
            ("processID"@, spec_opt_str_json(xv.process_id)),
            ("process"@, match xv.process {
                Option::None => SpecJson::Null,
                Option::Some(p) => spec_process_json(p),
            }),
            ("warnings"@, spec_opt_arr(xv.warnings, str_json_fn())),
        ]);
    }
    JsonValue::Obj(f)
}

/// The spans of a trace as JSON values, in order.
fn spans_to_json(xs: Vec<Span>) -> (out: Vec<JsonValue>)
    ensures
        out.deep_view() == xs.deep_view().map_values(span_json_fn()),
{
    let ghost xv = xs.deep_view();
    let mut xs = xs;
    let mut out: Vec<JsonValue> = Vec::new();
    while xs.len() > 0
        invariant
            xs.deep_view().len() <= xv.len(),
            forall|j: int|
                0 <= j < xs.deep_view().len() ==> xs.deep_view()[j] == xv[xv.len()
                    - xs.deep_view().len() + j],
            out.deep_view() == xv.subrange(0, xv.len() - xs.deep_view().len()).map_values(
                span_json_fn(),
            ),
        decreases xs.len(),
    {
        let ghost k = xv.len() - xs.deep_view().len();
        let ghost xprev = xs.deep_view();
        let x = xs.remove(0);
        proof {
            assert(xprev[0] == xv[k]);
            assert(x.deep_view() == xv[k]);
            assert(forall|j: int|
                0 <= j < xs.deep_view().len() ==> xs.deep_view()[j] == xprev[j + 1]);
            assert(xv.subrange(0, k + 1) =~= xv.subrange(0, k).push(xv[k]));
            lemma_map_push(xv.subrange(0, k), span_json_fn(), xv[k]);
        }
        let j = span_to_json(x);
        out.push(j);
    }
    proof {
        assert(xv.subrange(0, xv.len() as int) =~= xv);
    }
    out
}

/// The process table of a trace as JSON object fields, in order.
fn processes_to_json(xs: Vec<(String, Process)>) -> (out: Vec<(String, JsonValue)>)
    ensures
        out.deep_view() == xs.deep_view().map_values(process_entry_fn()),
{
    let ghost xv = xs.deep_view();
    let mut xs = xs;
    let mut out: Vec<(String, JsonValue)> = Vec::new();
    while xs.len() > 0
        invariant
            xs.deep_view().len() <= xv.len(),
            forall|j: int|
                0 <= j < xs.deep_view().len() ==> xs.deep_view()[j] == xv[xv.len()
                    - xs.deep_view().len() + j],
            out.deep_view() == xv.subrange(0, xv.len() - xs.deep_view().len()).map_values(
                process_entry_fn(),
            ),
        decreases xs.len(),
    {
        let ghost k = xv.len() - xs.deep_view().len();
        let ghost xprev = xs.deep_view();
        let x = xs.remove(0);
        proof {
            assert(xprev[0] == xv[k]);
            assert(x.deep_view() == xv[k]);
            assert(forall|j: int|
                0 <= j < xs.deep_view().len() ==> xs.deep_view()[j] == xprev[j + 1]);
            assert(xv.subrange(0, k + 1) =~= xv.subrange(0, k).push(xv[k]));
            lemma_map_push(xv.subrange(0, k), process_entry_fn(), xv[k]);
        }
        let (name, p) = x;
        let j = process_to_json(p);
        out.push((name, j));
    }
    proof {
        assert(xv.subrange(0, xv.len() as int) =~= xv);
    }
    out
}

/// A trace as JSON, as `spec_trace_json` says.
fn trace_to_json(t: Trace) -> (v: JsonValue)
    ensures
        json_view(v) == spec_trace_json(t.deep_view()),
{
    let ghost xv = t.deep_view();
    let Trace { trace_id, spans, processes, warnings } = t;
    let spans_json = match spans {
        Option::None => JsonValue::Null,
        Option::Some(xs) => {
            let arr = spans_to_json(xs);
            proof {
                lemma_arr_view_is_deep(arr);
            }
            JsonValue::Arr(arr)
        },
    };
    let procs = processes_to_json(processes);
    proof {
        lemma_obj_view_is_deep(procs);
    }
    let mut f: Vec<(String, JsonValue)> = Vec::new();
    f.push((String::from_str("traceID"), JsonValue::Str(trace_id)));
    f.push((String::from_str("spans"), spans_json));
    f.push((String::from_str("processes"), JsonValue::Obj(procs)));
    f.push((String::from_str("warnings"), opt_strings_to_json(warnings)));
    proof {
        lemma_obj_view_is_deep(f);
        assert(f.deep_view() =~= seq![
            ("traceID"@, SpecJson::Str(xv.trace_id)),
            ("spans"@, spec_opt_arr(xv.spans, span_json_fn())),
            ("processes"@, SpecJson::Obj(xv.processes.map_values(process_entry_fn()))),
            ("warnings"@, spec_opt_arr(xv.warnings, str_json_fn())),
        ]);
    }
    JsonValue::Obj(f)
}

/// The traces of a response as JSON values, in order.
fn traces_to_json(xs: Vec<Trace>) -> (out: Vec<JsonValue>)
    ensures
        out.deep_view() == xs.deep_view().map_values(trace_json_fn()),
{
    let ghost xv = xs.deep_view();
    let mut xs = xs;
    let mut out: Vec<JsonValue> = Vec::new();
    while xs.len() > 0
        invariant
            xs.deep_view().len() <= xv.len(),
            forall|j: int|
                0 <= j < xs.deep_view().len() ==> xs.deep_view()[j] == xv[xv.len()
                    - xs.deep_view().len() + j],
            out.deep_view() == xv.subrange(0, xv.len() - xs.deep_view().len()).map_values(
                trace_json_fn(),
            ),
        decreases xs.len(),
    {
        let ghost k = xv.len() - xs.deep_view().len();
        let ghost xprev = xs.deep_view();
        let x = xs.remove(0);
        proof {
            assert(xprev[0] == xv[k]);
            assert(x.deep_view() == xv[k]);
            assert(forall|j: int|
                0 <= j < xs.deep_view().len() ==> xs.deep_view()[j] == xprev[j + 1]);
            assert(xv.subrange(0, k + 1) =~= xv.subrange(0, k).push(xv[k]));
            lemma_map_push(xv.subrange(0, k), trace_json_fn(), xv[k]);
        }
        let j = trace_to_json(x);
        out.push(j);
    }
    proof {
        assert(xv.subrange(0, xv.len() as int) =~= xv);
    }
    out
}

/// The errors of a response as JSON values, in order.
fn errors_to_json(xs: Vec<Error>) -> (out: Vec<JsonValue>)
    ensures
        out.deep_view() == xs.deep_view().map_values(error_json_fn()),
{
    let ghost xv = xs.deep_view();
    let mut xs = xs;
    let mut out: Vec<JsonValue> = Vec::new();
    while xs.len() > 0
        invariant
            xs.deep_view().len() <= xv.len(),
            forall|j: int|
                0 <= j < xs.deep_view().len() ==> xs.deep_view()[j] == xv[xv.len()
                    - xs.deep_view().len() + j],
            out.deep_view() == xv.subrange(0, xv.len() - xs.deep_view().len()).map_values(
                error_json_fn(),
            ),
        decreases xs.len(),
    {
        let ghost k = xv.len() - xs.deep_view().len();
        let ghost xprev = xs.deep_view();
        let x = xs.remove(0);
        proof {
            assert(xprev[0] == xv[k]);
            assert(x.deep_view() == xv[k]);
            assert(forall|j: int|
                0 <= j < xs.deep_view().len() ==> xs.deep_view()[j] == xprev[j + 1]);
            assert(xv.subrange(0, k + 1) =~= xv.subrange(0, k).push(xv[k]));
            lemma_map_push(xv.subrange(0, k), error_json_fn(), xv[k]);
        }
        let j = error_to_json(x);
        out.push(j);
    }
    proof {
        assert(xv.subrange(0, xv.len() as int) =~= xv);
    }
    out
}

/// A whole trace-detail response as JSON, as `spec_resp_json` says:
/// the body to relay after enrichment.
pub fn resp_to_json(resp: GetTraceResponse) -> (v: JsonValue)
    ensures
        json_view(v) == spec_resp_json(resp.deep_view()),
{
    let ghost xv = resp.deep_view();
    let GetTraceResponse { data, errors } = resp;
    let data_json = match data {
        Option::None => JsonValue::Null,
        Option::Some(xs) => {
            let arr = traces_to_json(xs);
            proof {
                lemma_arr_view_is_deep(arr);
            }
            JsonValue::Arr(arr)
        },
    };
    let errors_json = match errors {
        Option::None => JsonValue::Null,
        Option::Some(xs) => {
            let arr = errors_to_json(xs);
            proof {
                lemma_arr_view_is_deep(arr);
            }
            JsonValue::Arr(arr)
        },
    };
    let mut f: Vec<(String, JsonValue)> = Vec::new();
    f.push((String::from_str("data"), data_json));
    f.push((String::from_str("errors"), errors_json));
    proof {
        lemma_obj_view_is_deep(f);
        assert(f.deep_view() =~= seq![
            ("data"@, spec_opt_arr(xv.data, trace_json_fn())),
            ("errors"@, spec_opt_arr(xv.errors, error_json_fn())),
        ]);
    }
    JsonValue::Obj(f)
}

/// Decode every member of a JSON array; any failing member fails the
/// whole array.
pub open spec fn spec_decode_all<A>(s: Seq<SpecJson>, dec: spec_fn(SpecJson) -> Option<A>) -> Option<
    Seq<A>,
>
    decreases s.len(),
{
    if s.len() == 0 {
        Some(Seq::<A>::empty())
    } else {
        match spec_decode_all(s.drop_last(), dec) {
            Option::None => None,
            Option::Some(rest) => match dec(s.last()) {
                Option::None => None,
                Option::Some(x) => Some(rest.push(x)),
            },
        }
    }
}

/// Decode every field of a JSON object, keeping the field names.
pub open spec fn spec_decode_entries<A>(
    f: Seq<(Seq<char>, SpecJson)>,
    dec: spec_fn(SpecJson) -> Option<A>,
) -> Option<Seq<(Seq<char>, A)>>
    decreases f.len(),
{
    if f.len() == 0 {
        Some(Seq::<(Seq<char>, A)>::empty())
    } else {
        match spec_decode_entries(f.drop_last(), dec) {
            Option::None => None,
            Option::Some(rest) => match dec(f.last().1) {
                Option::None => None,
                Option::Some(x) => Some(rest.push((f.last().0, x))),
            },
        }
    }
}

/// Decode an optional array: `null` is an absent list.
pub open spec fn spec_opt_arr_of_json<A>(j: SpecJson, dec: spec_fn(SpecJson) -> Option<A>) -> Option<
    Option<Seq<A>>,
> {
    match j {
        SpecJson::Null => Some(None),
        SpecJson::Arr(s) => match spec_decode_all(s, dec) {
            Option::None => None,
            Option::Some(v) => Some(Some(v)),
        },
        _ => None,
    }
}

/// Decode an optional string: `null` is an absent string.
pub open spec fn spec_opt_str_of_json(j: SpecJson) -> Option<Option<Seq<char>>> {
    match j {
        SpecJson::Null => Some(None),
        SpecJson::Str(s) => Some(Some(s)),
        _ => None,
    }
}

/// Decode a JSON string.
pub open spec fn spec_str_of_json(j: SpecJson) -> Option<Seq<char>> {
    match j {
        SpecJson::Str(s) => Some(s),
        _ => None,
    }
}

pub open spec fn str_of_json_fn() -> spec_fn(SpecJson) -> Option<Seq<char>> {
    |j: SpecJson| spec_str_of_json(j)
}

/// Decode an optional span-flag word: `null` is an absent word.
pub open spec fn spec_flags_of_json(j: SpecJson) -> Option<Option<u32>> {
    match j {
        SpecJson::Null => Some(None),
        SpecJson::UInt(n) => if n <= u32::MAX {
            Some(Some(n as u32))
        } else {
            None
        },
        _ => None,
    }
}

/// Decode an error entry from its JSON shape.
pub open spec fn spec_error_of_json(j: SpecJson) -> Option<ErrorView> {
    match j {
        SpecJson::Obj(f) => if f.len() == 3 && f[0].0 == "code"@ && f[1].0 == "msg"@ && f[2].0
            == "traceID"@ {
            match (f[0].1, f[1].1, f[2].1) {
                (SpecJson::Int(c), SpecJson::Str(m), SpecJson::Str(t)) => if i32::MIN <= c
                    && c <= i32::MAX {
                    Some(ErrorView { code: c as i32, msg: m, trace_id: t })
                } else {
                    None
                },
                _ => None,
            }
        } else {
            None
        },
        _ => None,
    }
}

pub open spec fn error_of_json_fn() -> spec_fn(SpecJson) -> Option<ErrorView> {
    |j: SpecJson| spec_error_of_json(j)
}

/// Decode a span reference from its JSON shape.
pub open spec fn spec_reference_of_json(j: SpecJson) -> Option<ReferenceView> {
    match j {
        SpecJson::Obj(f) => if f.len() == 3 && f[0].0 == "refType"@ && f[1].0 == "traceID"@
            && f[2].0 == "spanID"@ {
            match (f[0].1, f[1].1, f[2].1) {
                (SpecJson::Str(rt), SpecJson::Str(t), SpecJson::Str(s)) => Some(
                    ReferenceView { ref_type: rt, trace_id: t, span_id: s },
                ),
                _ => None,
            }
        } else {
            None
        },
        _ => None,
    }
}

pub open spec fn reference_of_json_fn() -> spec_fn(SpecJson) -> Option<ReferenceView> {
    |j: SpecJson| spec_reference_of_json(j)
}

/// Decode a log or tag field from its JSON shape; the value comes
/// back verbatim.
pub open spec fn spec_kv_of_json(j: SpecJson) -> Option<KeyValueView> {
    match j {
        SpecJson::Obj(f) => if f.len() == 3 && f[0].0 == "key"@ && f[1].0 == "type"@ && f[2].0
            == "value"@ {
            match f[0].1 {
                SpecJson::Str(k) => match spec_opt_str_of_json(f[1].1) {
                    Option::None => None,
                    Option::Some(tv) => Some(
                        KeyValueView { key: k, type_value: tv, value: f[2].1 },
                    ),
                },
                _ => None,
            }
        } else {
            None
        },
        _ => None,
    }
}

pub open spec fn kv_of_json_fn() -> spec_fn(SpecJson) -> Option<KeyValueView> {
    |j: SpecJson| spec_kv_of_json(j)
}

/// Decode a span log line from its JSON shape.
pub open spec fn spec_log_of_json(j: SpecJson) -> Option<LogView> {
    match j {
        SpecJson::Obj(f) => if f.len() == 2 && f[0].0 == "timestamp"@ && f[1].0 == "fields"@ {
            match f[0].1 {
                SpecJson::UInt(ts) => match spec_opt_arr_of_json(f[1].1, kv_of_json_fn()) {
                    Option::None => None,
                    Option::Some(fs) => Some(LogView { timestamp: ts, fields: fs }),
                },
                _ => None,
            }
        } else {
            None
        },
        _ => None,
    }
}

pub open spec fn log_of_json_fn() -> spec_fn(SpecJson) -> Option<LogView> {
    |j: SpecJson| spec_log_of_json(j)
}

/// Decode a process from its JSON shape.
pub open spec fn spec_process_of_json(j: SpecJson) -> Option<ProcessView> {
    match j {
        SpecJson::Obj(f) => if f.len() == 2 && f[0].0 == "serviceName"@ && f[1].0 == "tags"@ {
            match f[0].1 {
                SpecJson::Str(n) => match spec_opt_arr_of_json(f[1].1, kv_of_json_fn()) {
                    Option::None => None,
                    Option::Some(tags) => Some(ProcessView { service_name: n, tags }),
                },
                _ => None,
            }
        } else {
            None
        },
        _ => None,
    }
}

pub open spec fn process_of_json_fn() -> spec_fn(SpecJson) -> Option<ProcessView> {
    |j: SpecJson| spec_process_of_json(j)
}

/// Decode an optional process: `null` is an absent process.
pub open spec fn spec_opt_process_of_json(j: SpecJson) -> Option<Option<ProcessView>> {
    match j {
        SpecJson::Null => Some(None),
        _ => match spec_process_of_json(j) {
            Option::None => None,
            Option::Some(p) => Some(Some(p)),
        },
    }
}

/// Decode a span from its JSON shape.
pub open spec fn spec_span_of_json(j: SpecJson) -> Option<SpanView> {
    match j {
        SpecJson::Obj(f) => if f.len() == 13 && f[0].0 == "traceID"@ && f[1].0 == "spanID"@
            && f[2].0 == "parentSpanID"@ && f[3].0 == "flags"@ && f[4].0 == "operationName"@
            && f[5].0 == "references"@ && f[6].0 == "startTime"@ && f[7].0 == "duration"@
            && f[8].0 == "tags"@ && f[9].0 == "logs"@ && f[10].0 == "processID"@ && f[11].0
            == "process"@ && f[12].0 == "warnings"@ {
            match (f[0].1, f[1].1, f[4].1, f[6].1, f[7].1) {
                (
                    SpecJson::Str(tid),
                    SpecJson::Str(sid),
                    SpecJson::Str(op),
                    SpecJson::UInt(start),
                    SpecJson::UInt(dur),
                ) => match spec_opt_str_of_json(f[2].1) {
                    Option::None => None,
                    Option::Some(parent) => match spec_flags_of_json(f[3].1) {
                        Option::None => None,
                        Option::Some(fl) => match spec_opt_arr_of_json(
                            f[5].1,
                            reference_of_json_fn(),
                        ) {
                            Option::None => None,
                            Option::Some(refs) => match spec_opt_arr_of_json(
                                f[8].1,
                                kv_of_json_fn(),
                            ) {
                                Option::None => None,
                                Option::Some(tags) => match spec_opt_arr_of_json(
                                    f[9].1,
                                    log_of_json_fn(),
                                ) {
                                    Option::None => None,
                                    Option::Some(logs) => match spec_opt_str_of_json(f[10].1) {
                                        Option::None => None,
                                        Option::Some(pid) => match spec_opt_process_of_json(
                                            f[11].1,
                                        ) {
                                            Option::None => None,
                                            Option::Some(pr) => match spec_opt_arr_of_json(
                                                f[12].1,
                                                str_of_json_fn(),
                                            ) {
                                                Option::None => None,
                                                Option::Some(warn) => Some(
                                                    SpanView {
                                                        trace_id: tid,
                                                        span_id: sid,
                                                        parent_span_id: parent,
                                                        flags: fl,
                                                        operation_name: op,
                                                        references: refs,
                                                        start_time: start,
                                                        duration: dur,
                                                        tags,
                                                        logs,
                                                        process_id: pid,
                                                        process: pr,
                                                        warnings: warn,
                                                    },
                                                ),
                                            },
                                        },
                                    },
                                },
                            },
                        },
                    },
                },
                _ => None,
            }
        } else {
            None
        },
        _ => None,
    }
}

pub open spec fn span_of_json_fn() -> spec_fn(SpecJson) -> Option<SpanView> {
    |j: SpecJson| spec_span_of_json(j)
}

/// Decode a trace from its JSON shape.
pub open spec fn spec_trace_of_json(j: SpecJson) -> Option<TraceView> {
    match j {
        SpecJson::Obj(f) => if f.len() == 4 && f[0].0 == "traceID"@ && f[1].0 == "spans"@
            && f[2].0 == "processes"@ && f[3].0 == "warnings"@ {
            match (f[0].1, f[2].1) {
                (SpecJson::Str(tid), SpecJson::Obj(entries)) => match spec_opt_arr_of_json(
                    f[1].1,
                    span_of_json_fn(),
                ) {
                    Option::None => None,
                    Option::Some(spans) => match spec_decode_entries(
                        entries,
                        process_of_json_fn(),
                    ) {
                        Option::None => None,
                        Option::Some(procs) => match spec_opt_arr_of_json(
                            f[3].1,
                            str_of_json_fn(),
                        ) {
                            Option::None => None,
                            Option::Some(warn) => Some(
                                TraceView {
                                    trace_id: tid,
                                    spans,
                                    processes: procs,
                                    warnings: warn,
                                },
                            ),
                        },
                    },
                },
                _ => None,
            }
        } else {
            None
        },
        _ => None,
    }
}

pub open spec fn trace_of_json_fn() -> spec_fn(SpecJson) -> Option<TraceView> {
    |j: SpecJson| spec_trace_of_json(j)
}

/// Decode a whole trace-detail response from its JSON shape.
pub open spec fn spec_resp_of_json(j: SpecJson) -> Option<GetTraceResponseView> {
    match j {
        SpecJson::Obj(f) => if f.len() == 2 && f[0].0 == "data"@ && f[1].0 == "errors"@ {
            match spec_opt_arr_of_json(f[0].1, trace_of_json_fn()) {
                Option::None => None,
                Option::Some(data) => match spec_opt_arr_of_json(f[1].1, error_of_json_fn()) {
                    Option::None => None,
                    Option::Some(errors) => Some(GetTraceResponseView { data, errors }),
                },
            }
        } else {
            None
        },
        _ => None,
    }
}

/// Decoding the encodings of a value sequence recovers the sequence,
/// whenever decoding recovers each value.
pub proof fn lemma_decode_all_of_map<A>(
    vs: Seq<A>,
    enc: spec_fn(A) -> SpecJson,
    dec: spec_fn(SpecJson) -> Option<A>,
)
    requires
        forall|a: A| #[trigger] dec(enc(a)) == Some(a),
    ensures
        spec_decode_all(vs.map_values(enc), dec) == Some(vs),
    decreases vs.len(),
{
    if vs.len() == 0 {
        assert(vs.map_values(enc) =~= Seq::<SpecJson>::empty());
        assert(vs =~= Seq::<A>::empty());
    } else {
        lemma_decode_all_of_map(vs.drop_last(), enc, dec);
        assert(vs.map_values(enc).drop_last() =~= vs.drop_last().map_values(enc));
        assert(vs.map_values(enc).last() == enc(vs.last()));
        assert(vs.drop_last().push(vs.last()) =~= vs);
    }
}

/// Decoding the encodings of an object's fields recovers them,
/// whenever decoding recovers each value.
pub proof fn lemma_decode_entries_of_map<A>(
    vs: Seq<(Seq<char>, A)>,
    ef: spec_fn((Seq<char>, A)) -> (Seq<char>, SpecJson),
    enc: spec_fn(A) -> SpecJson,
    dec: spec_fn(SpecJson) -> Option<A>,
)
    requires
        forall|a: A| #[trigger] dec(enc(a)) == Some(a),
        forall|p: (Seq<char>, A)| #[trigger] ef(p) == (p.0, enc(p.1)),
    ensures
        spec_decode_entries(vs.map_values(ef), dec) == Some(vs),
    decreases vs.len(),
{
    if vs.len() == 0 {
        assert(vs.map_values(ef) =~= Seq::<(Seq<char>, SpecJson)>::empty());
        assert(vs =~= Seq::<(Seq<char>, A)>::empty());
    } else {
        lemma_decode_entries_of_map(vs.drop_last(), ef, enc, dec);
        assert(vs.map_values(ef).drop_last() =~= vs.drop_last().map_values(ef));
        assert(vs.map_values(ef).last() == ef(vs.last()));
        assert(vs.drop_last().push(vs.last()) =~= vs);
    }
}

/// Decoding an encoded optional array recovers it, whenever decoding
/// recovers each member.
pub proof fn lemma_opt_arr_rt<A>(
    o: Option<Seq<A>>,
    enc: spec_fn(A) -> SpecJson,
    dec: spec_fn(SpecJson) -> Option<A>,
)
    requires
        forall|a: A| #[trigger] dec(enc(a)) == Some(a),
    ensures
        spec_opt_arr_of_json(spec_opt_arr(o, enc), dec) == Some(o),
{
    match o {
        Option::None => {
        },
        Option::Some(s) => {
            lemma_decode_all_of_map(s, enc, dec);
        },
    }
}

/// Decoding an encoded error entry recovers it.
pub proof fn lemma_error_rt(e: ErrorView)
    ensures
        spec_error_of_json(spec_error_json(e)) == Some(e),
{
}

/// Decoding an encoded span reference recovers it.
pub proof fn lemma_reference_rt(r: ReferenceView)
    ensures
        spec_reference_of_json(spec_reference_json(r)) == Some(r),
{
}

/// Decoding an encoded log or tag field recovers it.
pub proof fn lemma_kv_rt(k: KeyValueView)
    ensures
        spec_kv_of_json(spec_kv_json(k)) == Some(k),
{
}

/// Decoding an encoded span log line recovers it.
pub proof fn lemma_log_rt(l: LogView)
    ensures
        spec_log_of_json(spec_log_json(l)) == Some(l),
{
    assert forall|a: KeyValueView| #[trigger] kv_of_json_fn()(kv_json_fn()(a)) == Some(a) by {
        lemma_kv_rt(a);
    }
    lemma_opt_arr_rt(l.fields, kv_json_fn(), kv_of_json_fn());
}

/// Decoding an encoded process recovers it.
pub proof fn lemma_process_rt(p: ProcessView)
    ensures
        spec_process_of_json(spec_process_json(p)) == Some(p),
{
    assert forall|a: KeyValueView| #[trigger] kv_of_json_fn()(kv_json_fn()(a)) == Some(a) by {
        lemma_kv_rt(a);
    }
    lemma_opt_arr_rt(p.tags, kv_json_fn(), kv_of_json_fn());
}

/// Decoding an encoded span recovers it.
pub proof fn lemma_span_rt(s: SpanView)
    ensures
        spec_span_of_json(spec_span_json(s)) == Some(s),
{
    assert forall|a: ReferenceView| #[trigger] reference_of_json_fn()(reference_json_fn()(a))
        == Some(a) by {
        lemma_reference_rt(a);
    }
    assert forall|a: KeyValueView| #[trigger] kv_of_json_fn()(kv_json_fn()(a)) == Some(a) by {
        lemma_kv_rt(a);
    }
    assert forall|a: LogView| #[trigger] log_of_json_fn()(log_json_fn()(a)) == Some(a) by {
        lemma_log_rt(a);
    }
    assert forall|a: Seq<char>| #[trigger] str_of_json_fn()(str_json_fn()(a)) == Some(a) by {}
    lemma_opt_arr_rt(s.references, reference_json_fn(), reference_of_json_fn());
    lemma_opt_arr_rt(s.tags, kv_json_fn(), kv_of_json_fn());
    lemma_opt_arr_rt(s.logs, log_json_fn(), log_of_json_fn());
    lemma_opt_arr_rt(s.warnings, str_json_fn(), str_of_json_fn());
    match s.process {
        Option::None => {
        },
        Option::Some(p) => {
            lemma_process_rt(p);
        },
    }
}

/// Decoding an encoded trace recovers it.
pub proof fn lemma_trace_rt(t: TraceView)
    ensures
        spec_trace_of_json(spec_trace_json(t)) == Some(t),
{
    assert forall|a: SpanView| #[trigger] span_of_json_fn()(span_json_fn()(a)) == Some(a) by {
        lemma_span_rt(a);
    }
    assert forall|a: ProcessView| #[trigger] process_of_json_fn()(spec_process_json(a)) == Some(
        a,
    ) by {
        lemma_process_rt(a);
    }
    assert forall|a: Seq<char>| #[trigger] str_of_json_fn()(str_json_fn()(a)) == Some(a) by {}
    lemma_opt_arr_rt(t.spans, span_json_fn(), span_of_json_fn());
    lemma_opt_arr_rt(t.warnings, str_json_fn(), str_of_json_fn());
    lemma_decode_entries_of_map(
        t.processes,
        process_entry_fn(),
        |a: ProcessView| spec_process_json(a),
        process_of_json_fn(),
    );
}

/// The response mapping is lossless: the spec-level decoder recovers
/// any response from its JSON encoding, so re-serializing a response
/// that went through the mapping unchanged yields the same JSON shape.
pub proof fn lemma_resp_json_lossless(r: GetTraceResponseView)
    ensures
        spec_resp_of_json(spec_resp_json(r)) == Some(r),
{
    assert forall|a: TraceView| #[trigger] trace_of_json_fn()(trace_json_fn()(a)) == Some(a) by {
        lemma_trace_rt(a);
    }
    assert forall|a: ErrorView| #[trigger] error_of_json_fn()(error_json_fn()(a)) == Some(a) by {
        lemma_error_rt(a);
    }
    lemma_opt_arr_rt(r.data, trace_json_fn(), trace_of_json_fn());
    lemma_opt_arr_rt(r.errors, error_json_fn(), error_of_json_fn());
}

} // verus!
