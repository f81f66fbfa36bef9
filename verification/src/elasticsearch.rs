//! The log-search side: the log record model, the wrapping of a record
//! into a span log line, and the construction of the time-windowed
//! full-text query and of the multi-index search path.
//!
//! The query executes against the union of the configured index name
//! patterns; executing it is network I/O and stays outside the
//! library.

use crate::json::{
    json_arr_view, json_obj_view, json_view, lemma_json_arr_view, lemma_json_obj_view,
    lemma_obj_view_is_deep, JsonValue, SpecJson,
};
use crate::models::{KeyValue, KeyValueView, Log, LogView};
use vstd::prelude::*;
use vstd::string::{StrSliceExecFns, StringExecFns};

verus! {

/// A record returned by the log-search backend: an optional
/// correlation id, an optional ingestion timestamp, an optional
/// free-form message, and an open bag of any further indexed fields.
#[derive(Debug)]
pub struct ESLog {
    pub x_trace_id: Option<String>,
    /// Ingestion time, ISO-8601 with fractional seconds and a literal
    /// `Z` suffix; may lag the log line considerably.
    pub timestamp: Option<String>,
    /// Logging time as recorded by the producer; carried, not parsed.
    pub date: Option<String>,
    pub message: Option<String>,
    pub extra: Vec<(String, JsonValue)>,
}

/// Model of [`ESLog`].
pub struct ESLogView {
    pub x_trace_id: Option<Seq<char>>,
    pub timestamp: Option<Seq<char>>,
    pub date: Option<Seq<char>>,
    pub message: Option<Seq<char>>,
    pub extra: Seq<(Seq<char>, SpecJson)>,
}

impl DeepView for ESLog {
    type V = ESLogView;

    open spec fn deep_view(&self) -> ESLogView {
        ESLogView {
            x_trace_id: self.x_trace_id.deep_view(),
            timestamp: self.timestamp.deep_view(),
            date: self.date.deep_view(),
            message: self.message.deep_view(),
            extra: self.extra.deep_view(),
        }
    }
}

/// The epoch milliseconds encoded by an ingestion timestamp, a
/// function of its characters alone; `None` when the text does not
/// match the ingestion-timestamp format.
pub uninterp spec fn ingestion_millis(s: Seq<char>) -> Option<i64>;

/// Relies on chrono's `NaiveDateTime::parse_from_str` with the fixed
/// ingestion-timestamp format, and on `DateTime::timestamp_millis`:
/// both are functions of the characters of `s` alone.
#[verifier::external_body]
pub(crate) fn parse_ingestion_timestamp(s: &str) -> (r: Option<i64>)
    ensures
        r == ingestion_millis(s@),
{
    match chrono::NaiveDateTime::parse_from_str(s, "%Y-%m-%dT%H:%M:%S.%fZ") {
        Ok(dt) => Some(dt.and_utc().timestamp_millis()),
        Err(_) => None,
    }
}

/// `JsonValue::Null` for an absent string, the string otherwise.
pub open spec fn spec_opt_str_json(o: Option<Seq<char>>) -> SpecJson {
    match o {
        Option::None => SpecJson::Null,
        Option::Some(s) => SpecJson::Str(s),
    }
}

/// The JSON object a log record is carried as when it is spliced into
/// a span: the four named fields, then the extra fields in order.
pub open spec fn spec_record_json(r: ESLogView) -> SpecJson {
    SpecJson::Obj(
        seq![
            ("x_trace_id"@, spec_opt_str_json(r.x_trace_id)),
            ("@timestamp"@, spec_opt_str_json(r.timestamp)),
            ("date"@, spec_opt_str_json(r.date)),
            ("message"@, spec_opt_str_json(r.message)),
        ] + r.extra,
    )
}

/// The record timestamp in microseconds, when the parsed milliseconds
/// are representable; negative or overflowing values are rejected.
pub open spec fn spec_timestamp_us(m: i64) -> Option<u64> {
    if 0 <= m && m * 1000 <= u64::MAX {
        Some((m * 1000) as u64)
    } else {
        None
    }
}

/// The span log line a record becomes: the record's ingestion time in
/// microseconds, and a single synthetic field, key `elk`, type tag
/// `string`, value the whole record as JSON. `None` when the record
/// has no parseable ingestion timestamp: such a record is discarded,
/// never a fatal error.
pub open spec fn spec_wrap_record(r: ESLogView) -> Option<LogView> {
    match r.timestamp {
        Option::None => None,
        Option::Some(ts) => match ingestion_millis(ts) {
            Option::None => None,
            Option::Some(m) => match spec_timestamp_us(m) {
                Option::None => None,
                Option::Some(us) => Some(
                    LogView {
                        timestamp: us,
                        fields: Some(
                            seq![
                                KeyValueView {
                                    key: "elk"@,
                                    type_value: Some("string"@),
                                    value: spec_record_json(r),
                                },
                            ],
                        ),
                    },
                ),
            },
        },
    }
}

/// `JsonValue::Null` for an absent string, the string otherwise.
pub(crate) fn opt_str_json(o: Option<String>) -> (v: JsonValue)
    ensures
        json_view(v) == spec_opt_str_json(o.deep_view()),
{
    match o {
        Option::None => JsonValue::Null,
        Option::Some(s) => JsonValue::Str(s),
    }
}

/// The whole record as a JSON object, as `spec_record_json` says.
pub fn record_to_json(es: ESLog) -> (v: JsonValue)
    ensures
        json_view(v) == spec_record_json(es.deep_view()),
{
    let ghost rv = es.deep_view();
    let ESLog { x_trace_id, timestamp, date, message, mut extra } = es;
    let mut fields: Vec<(String, JsonValue)> = Vec::new();
    fields.push((String::from_str("x_trace_id"), opt_str_json(x_trace_id)));
    fields.push((String::from_str("@timestamp"), opt_str_json(timestamp)));
    fields.push((String::from_str("date"), opt_str_json(date)));
    fields.push((String::from_str("message"), opt_str_json(message)));
    let ghost base = fields.deep_view();
    proof {
        assert(base =~= seq![
            ("x_trace_id"@, spec_opt_str_json(rv.x_trace_id)),
            ("@timestamp"@, spec_opt_str_json(rv.timestamp)),
            ("date"@, spec_opt_str_json(rv.date)),
            ("message"@, spec_opt_str_json(rv.message)),
        ]);
    }
    let ghost ev = extra.deep_view();
    fields.append(&mut extra);
    proof {
        lemma_obj_view_is_deep(fields);
        assert(fields.deep_view() =~= base + ev);
    }
    JsonValue::Obj(fields)
}

impl Log {
    /// Wrap a log-search record as a span log line, as
    /// `spec_wrap_record` says; `None` discards a record whose
    /// ingestion timestamp is absent, unparseable, or out of range.
    pub fn from_es(es: ESLog) -> (r: Option<Log>)
        ensures
            r.deep_view() == spec_wrap_record(es.deep_view()),
    {
        let millis: Option<i64> = match &es.timestamp {
            Option::None => None,
            Option::Some(ts) => parse_ingestion_timestamp(ts.as_str()),
        };
        match millis {
            Option::None => None,
            Option::Some(m) => {
                if m >= 0 && (m as u64) <= u64::MAX / 1000 {
                    let us: u64 = (m as u64) * 1000;
                    let value = record_to_json(es);
                    let mut fs: Vec<KeyValue> = Vec::new();
                    fs.push(
                        KeyValue {
                            key: String::from_str("elk"),
                            type_value: Some(String::from_str("string")),
                            value,
                        },
                    );
                    let log = Log { timestamp: us, fields: Some(fs) };
                    proof {
                        assert(log.deep_view().fields matches Some(f) && f =~= seq![
                            KeyValueView {
                                key: "elk"@,
                                type_value: Some("string"@),
                                value: spec_record_json(es.deep_view()),
                            },
                        ]);
                    }
                    Some(log)
                } else {
                    proof {
                        assert(spec_timestamp_us(m) is None);
                    }
                    None
                }
            },
        }
    }
}

/// The log-search client: the backend base URL and the index name
/// patterns the search targets, fixed at startup.
#[derive(Debug)]
pub struct ESClient {
    pub host: String,
    pub indexes: Vec<String>,
}

/// The index patterns joined with commas into one multi-index target.
pub open spec fn spec_join_comma(xs: Seq<Seq<char>>) -> Seq<char>
    decreases xs.len(),
{
    if xs.len() == 0 {
        Seq::empty()
    } else if xs.len() == 1 {
        xs[0]
    } else {
        spec_join_comma(xs.drop_last()) + seq![','] + xs.last()
    }
}

/// The search path: the comma-joined index patterns, then `/_search`.
pub open spec fn spec_search_path(xs: Seq<Seq<char>>) -> Seq<char> {
    spec_join_comma(xs) + "/_search"@
}

/// The boolean search query: a full-text match of the correlation
/// term over all indexed fields, and an inclusive range filter on the
/// ingestion timestamp, in epoch milliseconds.
pub open spec fn spec_query(term: Seq<char>, from: u64, to: u64) -> SpecJson {
    SpecJson::Obj(
        seq![
            ("query"@, SpecJson::Obj(
                seq![
                    ("bool"@, SpecJson::Obj(
                        seq![
                            ("must"@, SpecJson::Arr(
                                seq![
                                    SpecJson::Obj(
                                        seq![
                                            ("query_string"@, SpecJson::Obj(
                                                seq![("query"@, SpecJson::Str(term))],
                                            )),
                                        ],
                                    ),
                                    SpecJson::Obj(
                                        seq![
                                            ("range"@, SpecJson::Obj(
                                                seq![
                                                    ("@timestamp"@, SpecJson::Obj(
                                                        seq![
                                                            ("gte"@, SpecJson::UInt(from)),
                                                            ("lte"@, SpecJson::UInt(to)),
                                                            ("format"@, SpecJson::Str(
                                                                "epoch_millis"@,
                                                            )),
                                                        ],
                                                    )),
                                                ],
                                            )),
                                        ],
                                    ),
                                ],
                            )),
                        ],
                    )),
                ],
            )),
        ],
    )
}

/// An object of one field.
fn obj1(key: &str, v: JsonValue) -> (r: JsonValue)
    ensures
        json_view(r) == SpecJson::Obj(seq![(key@, json_view(v))]),
{
    let mut fields: Vec<(String, JsonValue)> = Vec::new();
    fields.push((String::from_str(key), v));
    proof {
        lemma_json_obj_view(fields, 0);
        assert(json_obj_view(fields, 0) =~= seq![(key@, json_view(v))]);
    }
    JsonValue::Obj(fields)
}

impl ESClient {
    /// A client for the given backend base URL and index patterns.
    pub fn new(host: String, indexes: Vec<String>) -> (c: ESClient)
        ensures
            c.host == host,
            c.indexes == indexes,
    {
        ESClient { host, indexes }
    }

    /// The path of the multi-index search endpoint, as
    /// `spec_search_path` says.
    pub fn search_path(&self) -> (p: String)
        ensures
            p@ == spec_search_path(self.indexes.deep_view()),
    {
        let ghost xs = self.indexes.deep_view();
        let mut out = String::new();
        for i in 0..self.indexes.len()
            invariant
                xs == self.indexes.deep_view(),
                out@ == spec_join_comma(xs.subrange(0, i as int)),
        {
            if i > 0 {
                out.append(",");
            }
            out.append(self.indexes[i].as_str());
            proof {
                reveal_strlit(",");
                assert(xs.subrange(0, i + 1).drop_last() =~= xs.subrange(0, i as int));
                assert(xs.subrange(0, i + 1).last() == xs[i as int]);
                if i == 0 {
                    assert(xs.subrange(0, 1) =~= seq![xs[0]]);
                }
            }
        }
        proof {
            assert(xs.subrange(0, xs.len() as int) =~= xs);
        }
        out.append("/_search");
        out
    }

    /// The search query for a correlation term and a closed
    /// millisecond window, as `spec_query` says.
    pub fn get_query(term: &str, from: u64, to: u64) -> (q: JsonValue)
        ensures
            json_view(q) == spec_query(term@, from, to),
    {
        let query_string = obj1("query_string", obj1("query", JsonValue::Str(String::from_str(term))));
        let mut range_fields: Vec<(String, JsonValue)> = Vec::new();
        range_fields.push((String::from_str("gte"), JsonValue::UInt(from)));
        range_fields.push((String::from_str("lte"), JsonValue::UInt(to)));
        range_fields.push(
            (String::from_str("format"), JsonValue::Str(String::from_str("epoch_millis"))),
        );
        proof {
            lemma_json_obj_view(range_fields, 0);
            assert(json_obj_view(range_fields, 0) =~= seq![
                ("gte"@, SpecJson::UInt(from)),
                ("lte"@, SpecJson::UInt(to)),
                ("format"@, SpecJson::Str("epoch_millis"@)),
            ]);
        }
        let range = obj1("range", obj1("@timestamp", JsonValue::Obj(range_fields)));
        let mut must: Vec<JsonValue> = Vec::new();
        must.push(query_string);
        must.push(range);
        proof {
            lemma_json_arr_view(must, 0);
            assert(json_arr_view(must, 0) =~= seq![
                json_view(must[0]),
                json_view(must[1]),
            ]);
        }
        obj1("query", obj1("bool", obj1("must", JsonValue::Arr(must))))
    }
}

} // verus!
