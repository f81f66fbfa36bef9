//! The trace data model: traces, spans, processes, span logs, and the
//! trace-detail response envelope, together with their mathematical
//! models (`*View` types, reached through `deep_view`).
//!
//! Field values that are open-ended JSON (tag values, log field values)
//! are carried as [`crate::json::JsonValue`] trees.

use crate::json::{JsonValue, SpecJson};
use vstd::prelude::*;

verus! {

/// An error entry of a trace-detail response.
#[derive(Debug)]
pub struct Error {
    pub code: i32,
    pub msg: String,
    pub trace_id: String,
}

/// A reference from one span to another.
#[derive(Debug)]
pub struct Reference {
    pub ref_type: String,
    pub trace_id: String,
    pub span_id: String,
}

/// One field of a span log or of a tag list: a key, an optional type
/// tag, and an arbitrary JSON value.
#[derive(Debug)]
pub struct KeyValue {
    pub key: String,
    pub type_value: Option<String>,
    pub value: JsonValue,
}

/// A log line attached to a span: a timestamp in microseconds and an
/// optional ordered field list.
#[derive(Debug)]
pub struct Log {
    pub timestamp: u64,
    pub fields: Option<Vec<KeyValue>>,
}

/// One unit of work within a trace.
#[derive(Debug)]
pub struct Span {
    pub trace_id: String,
    pub span_id: String,
    pub parent_span_id: Option<String>,
    pub flags: Option<u32>,
    pub operation_name: String,
    pub references: Option<Vec<Reference>>,
    /// Start time in microseconds since the epoch; authoritative for
    /// the search-window computation.
    pub start_time: u64,
    pub duration: u64,
    pub tags: Option<Vec<KeyValue>>,
    /// The attached log lines. A span without a log array is never
    /// retrofitted with one by the merge.
    pub logs: Option<Vec<Log>>,
    pub process_id: Option<String>,
    pub process: Option<Process>,
    pub warnings: Option<Vec<String>>,
}

/// The process a span ran in.
#[derive(Debug)]
pub struct Process {
    pub service_name: String,
    pub tags: Option<Vec<KeyValue>>,
}

/// A tree of spans sharing one trace identifier. The span order is the
/// order received; the process table maps process ids to processes.
#[derive(Debug)]
pub struct Trace {
    pub trace_id: String,
    pub spans: Option<Vec<Span>>,
    pub processes: Vec<(String, Process)>,
    pub warnings: Option<Vec<String>>,
}

/// The body of a trace-detail response.
#[derive(Debug)]
pub struct GetTraceResponse {
    pub data: Option<Vec<Trace>>,
    pub errors: Option<Vec<Error>>,
}

/// Model of [`Error`].
pub struct ErrorView {
    pub code: i32,
    pub msg: Seq<char>,
    pub trace_id: Seq<char>,
}

/// Model of [`Reference`].
pub struct ReferenceView {
    pub ref_type: Seq<char>,
    pub trace_id: Seq<char>,
    pub span_id: Seq<char>,
}

/// Model of [`KeyValue`].
pub struct KeyValueView {
    pub key: Seq<char>,
    pub type_value: Option<Seq<char>>,
    pub value: SpecJson,
}

/// Model of [`Log`].
pub struct LogView {
    pub timestamp: u64,
    pub fields: Option<Seq<KeyValueView>>,
}

/// Model of [`Span`].
pub struct SpanView {
    pub trace_id: Seq<char>,
    pub span_id: Seq<char>,
    pub parent_span_id: Option<Seq<char>>,
    pub flags: Option<u32>,
    pub operation_name: Seq<char>,
    pub references: Option<Seq<ReferenceView>>,
    pub start_time: u64,
    pub duration: u64,
    pub tags: Option<Seq<KeyValueView>>,
    pub logs: Option<Seq<LogView>>,
    pub process_id: Option<Seq<char>>,
    pub process: Option<ProcessView>,
    pub warnings: Option<Seq<Seq<char>>>,
}

/// Model of [`Process`].
pub struct ProcessView {
    pub service_name: Seq<char>,
    pub tags: Option<Seq<KeyValueView>>,
}

/// Model of [`Trace`].
pub struct TraceView {
    pub trace_id: Seq<char>,
    pub spans: Option<Seq<SpanView>>,
    pub processes: Seq<(Seq<char>, ProcessView)>,
    pub warnings: Option<Seq<Seq<char>>>,
}

/// Model of [`GetTraceResponse`].
pub struct GetTraceResponseView {
    pub data: Option<Seq<TraceView>>,
    pub errors: Option<Seq<ErrorView>>,
}

impl DeepView for Error {
    type V = ErrorView;

    open spec fn deep_view(&self) -> ErrorView {
        ErrorView { code: self.code, msg: self.msg@, trace_id: self.trace_id@ }
    }
}

impl DeepView for Reference {
    type V = ReferenceView;

    open spec fn deep_view(&self) -> ReferenceView {
        ReferenceView {
            ref_type: self.ref_type@,
            trace_id: self.trace_id@,
            span_id: self.span_id@,
        }
    }
}

impl DeepView for KeyValue {
    type V = KeyValueView;

    open spec fn deep_view(&self) -> KeyValueView {
        KeyValueView {
            key: self.key@,
            type_value: self.type_value.deep_view(),
            value: self.value.deep_view(),
        }
    }
}

impl DeepView for Log {
    type V = LogView;

    open spec fn deep_view(&self) -> LogView {
        LogView { timestamp: self.timestamp, fields: self.fields.deep_view() }
    }
}

impl DeepView for Span {
    type V = SpanView;

    open spec fn deep_view(&self) -> SpanView {
        SpanView {
            trace_id: self.trace_id@,
            span_id: self.span_id@,
            parent_span_id: self.parent_span_id.deep_view(),
            flags: self.flags,
            operation_name: self.operation_name@,
            references: self.references.deep_view(),
            start_time: self.start_time,
            duration: self.duration,
            tags: self.tags.deep_view(),
            logs: self.logs.deep_view(),
            process_id: self.process_id.deep_view(),
            process: self.process.deep_view(),
            warnings: self.warnings.deep_view(),
        }
    }
}

impl DeepView for Process {
    type V = ProcessView;

    open spec fn deep_view(&self) -> ProcessView {
        ProcessView { service_name: self.service_name@, tags: self.tags.deep_view() }
    }
}

impl DeepView for Trace {
    type V = TraceView;

    open spec fn deep_view(&self) -> TraceView {
        TraceView {
            trace_id: self.trace_id@,
            spans: self.spans.deep_view(),
            processes: self.processes.deep_view(),
            warnings: self.warnings.deep_view(),
        }
    }
}

impl DeepView for GetTraceResponse {
    type V = GetTraceResponseView;

    open spec fn deep_view(&self) -> GetTraceResponseView {
        GetTraceResponseView { data: self.data.deep_view(), errors: self.errors.deep_view() }
    }
}

} // verus!
