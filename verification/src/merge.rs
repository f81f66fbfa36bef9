//! The merge engine.
//!
//! Log-search records are routed to spans by the span id embedded in
//! their correlation id, wrapped as synthetic `elk` log fields, and
//! appended to the matched span's existing log array. Spans are
//! visited in order and each record is attached at most once; a span
//! without a pre-existing log array is left untouched and its records
//! stay unmatched. Records never attached anywhere are returned, and
//! only counted, never surfaced to the client.

use crate::correlate::{correlation_span_id, span_id_of_correlation};
use crate::elasticsearch::{
    parse_ingestion_timestamp, spec_wrap_record, ESLog, ESLogView,
};
use crate::models::{
    GetTraceResponse, GetTraceResponseView, Log, LogView, Span, SpanView, Trace, TraceView,
};
use vstd::prelude::*;
use crate::seqs::{lemma_filter_all, lemma_filter_filter, lemma_filter_push, lemma_map_push};

verus! {

/// The record's correlation id routes it to `span_id` and its
/// ingestion timestamp is usable: the record will be attached to a
/// span with that id if the span carries a log array.
pub open spec fn spec_attach_match(r: ESLogView, span_id: Seq<char>) -> bool {
    &&& r.x_trace_id matches Some(cid) && correlation_span_id(cid) == Some(span_id)
    &&& spec_wrap_record(r) is Some
}

/// The records not routed to `span_id`.
pub open spec fn not_match_pred(span_id: Seq<char>) -> spec_fn(ESLogView) -> bool {
    |r: ESLogView| !spec_attach_match(r, span_id)
}

/// The records routed to `span_id`.
pub open spec fn match_pred(span_id: Seq<char>) -> spec_fn(ESLogView) -> bool {
    |r: ESLogView| spec_attach_match(r, span_id)
}

/// The log line a record wraps into.
pub open spec fn wrap_fn() -> spec_fn(ESLogView) -> LogView {
    |r: ESLogView| spec_wrap_record(r)->0
}

/// The log lines a span with id `span_id` gains from `rs`: the wraps
/// of the records routed to it, in record order.
pub open spec fn spec_gained_logs(rs: Seq<ESLogView>, span_id: Seq<char>) -> Seq<LogView> {
    rs.filter(match_pred(span_id)).map_values(wrap_fn())
}

/// One span visited by the merge: a span with a log array takes the
/// records routed to it and lets the rest pass; a span without one
/// takes nothing.
pub open spec fn spec_merge_step(s: SpanView, rs: Seq<ESLogView>) -> (SpanView, Seq<ESLogView>) {
    match s.logs {
        Option::None => (s, rs),
        Option::Some(l) => (
            SpanView {
                trace_id: s.trace_id,
                span_id: s.span_id,
                parent_span_id: s.parent_span_id,
                flags: s.flags,
                operation_name: s.operation_name,
                references: s.references,
                start_time: s.start_time,
                duration: s.duration,
                tags: s.tags,
                logs: Some(l + spec_gained_logs(rs, s.span_id)),
                process_id: s.process_id,
                process: s.process,
                warnings: s.warnings,
            },
            rs.filter(not_match_pred(s.span_id)),
        ),
    }
}

/// The merge over a span sequence: spans are visited in order, each
/// handing the records it did not take to the next.
pub open spec fn spec_merge_spans(ss: Seq<SpanView>, rs: Seq<ESLogView>) -> (
    Seq<SpanView>,
    Seq<ESLogView>,
)
    decreases ss.len(),
{
    if ss.len() == 0 {
        (Seq::<SpanView>::empty(), rs)
    } else {
        let (s0, r1) = spec_merge_step(ss.first(), rs);
        let (rest, r2) = spec_merge_spans(ss.drop_first(), r1);
        (seq![s0] + rest, r2)
    }
}

/// The merge over one trace: its spans merged in order, every other
/// field untouched; a trace without a span array takes nothing.
pub open spec fn spec_merge_trace(t: TraceView, rs: Seq<ESLogView>) -> (
    TraceView,
    Seq<ESLogView>,
)
{
    match t.spans {
        Option::None => (t, rs),
        Option::Some(ss) => {
            let (ns, rem) = spec_merge_spans(ss, rs);
            (
                TraceView {
                    trace_id: t.trace_id,
                    spans: Some(ns),
                    processes: t.processes,
                    warnings: t.warnings,
                },
                rem,
            )
        },
    }
}

/// The merge over every trace of a response, in order, each handing
/// the records it did not take to the next; errors are untouched.
pub open spec fn spec_merge_traces(ts: Seq<TraceView>, rs: Seq<ESLogView>) -> (
    Seq<TraceView>,
    Seq<ESLogView>,
)
    decreases ts.len(),
{
    if ts.len() == 0 {
        (Seq::<TraceView>::empty(), rs)
    } else {
        let (t0, r1) = spec_merge_trace(ts.first(), rs);
        let (rest, r2) = spec_merge_traces(ts.drop_first(), r1);
        (seq![t0] + rest, r2)
    }
}

/// The enrichment of a whole response: every trace merged in order;
/// what no trace took is the unmatched remainder.
pub open spec fn spec_enrich(r: GetTraceResponseView, rs: Seq<ESLogView>) -> (
    GetTraceResponseView,
    Seq<ESLogView>,
)
{
    match r.data {
        Option::None => (r, rs),
        Option::Some(ts) => {
            let (nts, rem) = spec_merge_traces(ts, rs);
            (GetTraceResponseView { data: Some(nts), errors: r.errors }, rem)
        },
    }
}

/// Partition `records` around the span named `span_id`: the wraps of
/// the records routed to it, in order, and the records that pass on.
fn partition_records(records: Vec<ESLog>, span_id: &String) -> (res: (Vec<Log>, Vec<ESLog>))
    ensures
        res.0.deep_view() == spec_gained_logs(records.deep_view(), span_id@),
        res.1.deep_view() == records.deep_view().filter(not_match_pred(span_id@)),
{
    let ghost rv = records.deep_view();
    let mut records = records;
    let mut gained: Vec<Log> = Vec::new();
    let mut kept: Vec<ESLog> = Vec::new();
    while records.len() > 0
        invariant
            records.deep_view().len() <= rv.len(),
            forall|j: int|
                0 <= j < records.deep_view().len() ==> records.deep_view()[j] == rv[rv.len()
                    - records.deep_view().len() + j],
            gained.deep_view() == spec_gained_logs(
                rv.subrange(0, rv.len() - records.deep_view().len()),
                span_id@,
            ),
            kept.deep_view() == rv.subrange(0, rv.len() - records.deep_view().len()).filter(
                not_match_pred(span_id@),
            ),
        decreases records.len(),
    {
        let ghost k = rv.len() - records.deep_view().len();
        let ghost rprev = records.deep_view();
        let r = records.remove(0);
        proof {
            assert(rprev[0] == rv[k]);
            assert(r.deep_view() == rv[k]);
            assert(forall|j: int|
                0 <= j < records.deep_view().len() ==> records.deep_view()[j] == rprev[j + 1]);
            assert(rv.subrange(0, k + 1) =~= rv.subrange(0, k).push(rv[k]));
            lemma_filter_push(rv.subrange(0, k), match_pred(span_id@), rv[k]);
            lemma_filter_push(rv.subrange(0, k), not_match_pred(span_id@), rv[k]);
            lemma_map_push(
                rv.subrange(0, k).filter(match_pred(span_id@)),
                wrap_fn(),
                rv[k],
            );
        }
        let routed: bool = match &r.x_trace_id {
            Option::None => false,
            Option::Some(cid) => match span_id_of_correlation(cid.as_str()) {
                Option::None => false,
                Option::Some(sid) => sid == *span_id,
            },
        };
        let wrap_ok: bool = match &r.timestamp {
            Option::None => false,
            Option::Some(ts) => match parse_ingestion_timestamp(ts.as_str()) {
                Option::None => false,
                Option::Some(m) => m >= 0 && (m as u64) <= u64::MAX / 1000,
            },
        };
        proof {
            assert(wrap_ok == (spec_wrap_record(r.deep_view()) is Some));
            assert((routed && wrap_ok) == spec_attach_match(rv[k], span_id@));
        }
        if routed && wrap_ok {
            match Log::from_es(r) {
                Option::Some(log) => {
                    gained.push(log);
                },
                Option::None => {
                    // unreachable: the timestamp pre-test showed the record wraps
                    proof {
                        assert(false);
                    }
                },
            }
        } else {
            kept.push(r);
        }
    }
    proof {
        assert(rv.subrange(0, rv.len() as int) =~= rv);
    }
    (gained, kept)
}

/// The merge over a span vector, as `spec_merge_spans` says: the
/// spans visited in order, each one with a log array taking the
/// records routed to it and handing the rest on.
fn merge_span_vec(spans: Vec<Span>, records: Vec<ESLog>) -> (res: (Vec<Span>, Vec<ESLog>))
    ensures
        res.0.deep_view() == spec_merge_spans(spans.deep_view(), records.deep_view()).0,
        res.1.deep_view() == spec_merge_spans(spans.deep_view(), records.deep_view()).1,
{
    let ghost ss = spans.deep_view();
    let ghost rv = records.deep_view();
    let mut spans = spans;
    let mut out: Vec<Span> = Vec::new();
    let mut remaining = records;
    while spans.len() > 0
        invariant
            out.deep_view().len() + spans.deep_view().len() == ss.len(),
            forall|j: int|
                0 <= j < spans.deep_view().len() ==> spans.deep_view()[j] == ss[ss.len()
                    - spans.deep_view().len() + j],
            spec_merge_spans(ss.subrange(0, out.deep_view().len() as int), rv) == (
                out.deep_view(),
                remaining.deep_view(),
            ),
        decreases spans.len(),
    {
        let ghost k = out.deep_view().len() as int;
        let ghost sprev = spans.deep_view();
        let ghost rem_v = remaining.deep_view();
        let s = spans.remove(0);
        proof {
            assert(sprev[0] == ss[k]);
            assert(s.deep_view() == ss[k]);
            assert(forall|j: int|
                0 <= j < spans.deep_view().len() ==> spans.deep_view()[j] == sprev[j + 1]);
        }
        let Span {
            trace_id,
            span_id,
            parent_span_id,
            flags,
            operation_name,
            references,
            start_time,
            duration,
            tags,
            logs,
            process_id,
            process,
            warnings,
        } = s;
        let (new_logs, rem2): (Option<Vec<Log>>, Vec<ESLog>) = match logs {
            Option::Some(mut lv) => {
                let ghost l0 = lv.deep_view();
                let (mut gained, kept) = partition_records(remaining, &span_id);
                let ghost g0 = gained.deep_view();
                lv.append(&mut gained);
                proof {
                    assert(lv.deep_view() =~= l0 + g0);
                }
                (Some(lv), kept)
            },
            Option::None => (None, remaining),
        };
        remaining = rem2;
        let s2 = Span {
            trace_id,
            span_id,
            parent_span_id,
            flags,
            operation_name,
            references,
            start_time,
            duration,
            tags,
            logs: new_logs,
            process_id,
            process,
            warnings,
        };
        proof {
            assert((s2.deep_view(), remaining.deep_view()) == spec_merge_step(ss[k], rem_v));
        }
        out.push(s2);
        proof {
            lemma_merge_spans_snoc(ss.subrange(0, k), ss[k], rv);
            assert(ss.subrange(0, k + 1) =~= ss.subrange(0, k).push(ss[k]));
            assert(out.deep_view() =~= spec_merge_spans(ss.subrange(0, k + 1), rv).0);
        }
    }
    proof {
        assert(ss.subrange(0, ss.len() as int) =~= ss);
    }
    (out, remaining)
}

/// Merging the spans `p` and then one more span `x` is merging `p`
/// and letting `x` take from what `p` handed on.
proof fn lemma_merge_spans_snoc(p: Seq<SpanView>, x: SpanView, rs: Seq<ESLogView>)
    ensures
        ({
            let (a, r1) = spec_merge_spans(p, rs);
            let (b, r2) = spec_merge_step(x, r1);
            spec_merge_spans(p.push(x), rs) == (a.push(b), r2)
        }),
    decreases p.len(),
{
    reveal_with_fuel(spec_merge_spans, 3);
    if p.len() == 0 {
        assert(p.push(x).first() == x);
        assert(p.push(x).drop_first() =~= Seq::<SpanView>::empty());
        let (b, r2) = spec_merge_step(x, rs);
        assert(spec_merge_spans(p.push(x), rs).0 =~= seq![b]);
        assert(spec_merge_spans(p, rs).0.push(b) =~= seq![b]);
    } else {
        let (s0, r1) = spec_merge_step(p.first(), rs);
        lemma_merge_spans_snoc(p.drop_first(), x, r1);
        assert(p.push(x).first() == p.first());
        assert(p.push(x).drop_first() =~= p.drop_first().push(x));
        let (a, ra) = spec_merge_spans(p.drop_first(), r1);
        let (b, r2) = spec_merge_step(x, ra);
        assert(spec_merge_spans(p.push(x), rs).0 =~= (seq![s0] + a).push(b));
        assert(spec_merge_spans(p, rs).0.push(b) =~= (seq![s0] + a).push(b));
    }
}

/// Merging the traces `p` and then one more trace `x` is merging `p`
/// and letting `x` take from what `p` handed on.
proof fn lemma_merge_traces_snoc(p: Seq<TraceView>, x: TraceView, rs: Seq<ESLogView>)
    ensures
        ({
            let (a, r1) = spec_merge_traces(p, rs);
            let (b, r2) = spec_merge_trace(x, r1);
            spec_merge_traces(p.push(x), rs) == (a.push(b), r2)
        }),
    decreases p.len(),
{
    reveal_with_fuel(spec_merge_traces, 3);
    if p.len() == 0 {
        assert(p.push(x).first() == x);
        assert(p.push(x).drop_first() =~= Seq::<TraceView>::empty());
        let (b, r2) = spec_merge_trace(x, rs);
        assert(spec_merge_traces(p.push(x), rs).0 =~= seq![b]);
        assert(spec_merge_traces(p, rs).0.push(b) =~= seq![b]);
    } else {
        let (t0, r1) = spec_merge_trace(p.first(), rs);
        lemma_merge_traces_snoc(p.drop_first(), x, r1);
        assert(p.push(x).first() == p.first());
        assert(p.push(x).drop_first() =~= p.drop_first().push(x));
        let (a, ra) = spec_merge_traces(p.drop_first(), r1);
        let (b, r2) = spec_merge_trace(x, ra);
        assert(spec_merge_traces(p.push(x), rs).0 =~= (seq![t0] + a).push(b));
        assert(spec_merge_traces(p, rs).0.push(b) =~= (seq![t0] + a).push(b));
    }
}

/// Merge the records into one trace, as `spec_merge_trace` says:
/// each record with a well-formed correlation id and usable timestamp
/// is appended, wrapped as a single `elk` field, to the log array of
/// the span it routes to; the records not taken come back.
pub fn merge(trace: Trace, records: Vec<ESLog>) -> (res: (Trace, Vec<ESLog>))
    ensures
        res.0.deep_view() == spec_merge_trace(trace.deep_view(), records.deep_view()).0,
        res.1.deep_view() == spec_merge_trace(trace.deep_view(), records.deep_view()).1,
{
    let Trace { trace_id, spans, processes, warnings } = trace;
    match spans {
        Option::None => (Trace { trace_id, spans: None, processes, warnings }, records),
        Option::Some(sp) => {
            let (sp2, rem) = merge_span_vec(sp, records);
            (Trace { trace_id, spans: Some(sp2), processes, warnings }, rem)
        },
    }
}

/// Enrich a whole response, as `spec_enrich` says: every trace is
/// merged in order against the records the traces before it did not
/// take; the records no trace took come back, to be counted and
/// dropped, never surfaced to the client.
pub fn enrich(resp: GetTraceResponse, records: Vec<ESLog>) -> (res: (
    GetTraceResponse,
    Vec<ESLog>,
))
    ensures
        res.0.deep_view() == spec_enrich(resp.deep_view(), records.deep_view()).0,
        res.1.deep_view() == spec_enrich(resp.deep_view(), records.deep_view()).1,
{
    let GetTraceResponse { data, errors } = resp;
    match data {
        Option::None => (GetTraceResponse { data: None, errors }, records),
        Option::Some(traces) => {
            let ghost tv = traces.deep_view();
            let ghost rv = records.deep_view();
            let mut traces = traces;
            let mut out: Vec<Trace> = Vec::new();
            let mut remaining = records;
            while traces.len() > 0
                invariant
                    out.deep_view().len() + traces.deep_view().len() == tv.len(),
                    forall|j: int|
                        0 <= j < traces.deep_view().len() ==> traces.deep_view()[j] == tv[tv.len()
                            - traces.deep_view().len() + j],
                    spec_merge_traces(tv.subrange(0, out.deep_view().len() as int), rv) == (
                        out.deep_view(),
                        remaining.deep_view(),
                    ),
                decreases traces.len(),
            {
                let ghost k = out.deep_view().len() as int;
                let ghost tprev = traces.deep_view();
                let t = traces.remove(0);
                proof {
                    assert(tprev[0] == tv[k]);
                    assert(t.deep_view() == tv[k]);
                    assert(forall|j: int|
                        0 <= j < traces.deep_view().len() ==> traces.deep_view()[j] == tprev[j
                            + 1]);
                }
                let (t2, rem2) = merge(t, remaining);
                remaining = rem2;
                out.push(t2);
                proof {
                    lemma_merge_traces_snoc(tv.subrange(0, k), tv[k], rv);
                    assert(tv.subrange(0, k + 1) =~= tv.subrange(0, k).push(tv[k]));
                    assert(out.deep_view() =~= spec_merge_traces(tv.subrange(0, k + 1), rv).0);
                }
            }
            proof {
                assert(tv.subrange(0, tv.len() as int) =~= tv);
            }
            (GetTraceResponse { data: Some(out), errors }, remaining)
        },
    }
}

/// Span ids are pairwise distinct, as they are within one trace.
pub open spec fn spec_distinct_span_ids(ss: Seq<SpanView>) -> bool {
    forall|i: int, j: int| 0 <= i < j < ss.len() ==> ss[i].span_id != ss[j].span_id
}

/// The record will be attached to this span: the span carries a log
/// array and the record routes to its id with a usable timestamp.
pub open spec fn spec_attachable(r: ESLogView, s: SpanView) -> bool {
    s.logs is Some && spec_attach_match(r, s.span_id)
}

/// The record is attached to some span of the sequence.
pub open spec fn spec_attaches_somewhere(r: ESLogView, ss: Seq<SpanView>) -> bool {
    exists|j: int| 0 <= j < ss.len() && spec_attachable(r, #[trigger] ss[j])
}

/// The records no span of the sequence takes.
pub open spec fn not_attaches_pred(ss: Seq<SpanView>) -> spec_fn(ESLogView) -> bool {
    |r: ESLogView| !spec_attaches_somewhere(r, ss)
}

/// Within one trace span ids are unique. Under that invariant the
/// threading of records through the spans cannot be observed: every
/// span with a log array gains exactly the wraps of the records whose
/// correlation ids route to it, in record order, computed from the
/// whole record list; and the unmatched remainder is exactly the
/// records no span takes. In particular a record with a malformed
/// correlation id routes nowhere, never disturbs the merge, and
/// always stays in the counted remainder.
pub proof fn lemma_merge_spans_distinct(ss: Seq<SpanView>, rs: Seq<ESLogView>)
    requires
        spec_distinct_span_ids(ss),
    ensures
        spec_merge_spans(ss, rs).0.len() == ss.len(),
        forall|j: int|
            0 <= j < ss.len() ==> #[trigger] spec_merge_spans(ss, rs).0[j] == spec_merge_step(
                ss[j],
                rs,
            ).0,
        spec_merge_spans(ss, rs).1 == rs.filter(not_attaches_pred(ss)),
    decreases ss.len(),
{
    if ss.len() == 0 {
        assert(forall|i: int|
            0 <= i < rs.len() ==> #[trigger] not_attaches_pred(ss)(rs[i]) == true);
        lemma_filter_all(rs, not_attaches_pred(ss));
    } else {
        let s0 = ss.first();
        let tail = ss.drop_first();
        let step0 = spec_merge_step(s0, rs);
        let b0 = step0.0;
        let r1 = step0.1;
        assert(forall|k: int| 0 <= k < tail.len() ==> tail[k] == ss[k + 1]);
        assert forall|i: int, j: int| 0 <= i < j < tail.len() implies #[trigger] tail[i].span_id
            != #[trigger] tail[j].span_id by {
            assert(tail[i] == ss[i + 1]);
            assert(tail[j] == ss[j + 1]);
        }
        assert(spec_distinct_span_ids(tail));
        lemma_merge_spans_distinct(tail, r1);

        // a later span draws the same records from `r1` as from `rs`:
        // what the first span removed routes only to the first span.
        assert forall|k: int| 0 <= k < tail.len() implies #[trigger] spec_merge_step(tail[k], r1).0
            == spec_merge_step(tail[k], rs).0 by {
            match tail[k].logs {
                Option::None => {
                },
                Option::Some(_) => {
                    let sid = tail[k].span_id;
                    assert(sid != s0.span_id);
                    match s0.logs {
                        Option::None => {
                        },
                        Option::Some(_) => {
                            lemma_filter_filter(rs, not_match_pred(s0.span_id), match_pred(sid));
                            let conj = |x: ESLogView|
                                not_match_pred(s0.span_id)(x) && match_pred(sid)(x);
                            assert(forall|x: ESLogView| #[trigger] conj(x) == match_pred(sid)(x));
                            assert(conj =~= match_pred(sid));
                        },
                    }
                },
            }
        }

        // the remainder filters agree on every record.
        match s0.logs {
            Option::None => {
                assert(r1 == rs);
                assert forall|x: ESLogView| #[trigger] not_attaches_pred(tail)(x)
                    == not_attaches_pred(ss)(x) by {
                    if spec_attaches_somewhere(x, ss) {
                        let j = choose|j: int|
                            0 <= j < ss.len() && spec_attachable(x, #[trigger] ss[j]);
                        assert(j >= 1);
                        assert(spec_attachable(x, tail[j - 1]));
                    }
                    if spec_attaches_somewhere(x, tail) {
                        let j = choose|j: int|
                            0 <= j < tail.len() && spec_attachable(x, #[trigger] tail[j]);
                        assert(spec_attachable(x, ss[j + 1]));
                    }
                }
                assert(not_attaches_pred(tail) =~= not_attaches_pred(ss));
            },
            Option::Some(_) => {
                lemma_filter_filter(rs, not_match_pred(s0.span_id), not_attaches_pred(tail));
                let conj = |x: ESLogView|
                    not_match_pred(s0.span_id)(x) && not_attaches_pred(tail)(x);
                assert forall|x: ESLogView| #[trigger] conj(x) == not_attaches_pred(ss)(x) by {
                    if spec_attaches_somewhere(x, ss) {
                        let j = choose|j: int|
                            0 <= j < ss.len() && spec_attachable(x, #[trigger] ss[j]);
                        if j == 0 {
                            assert(spec_attach_match(x, s0.span_id));
                        } else {
                            assert(spec_attachable(x, tail[j - 1]));
                        }
                    }
                    if spec_attach_match(x, s0.span_id) {
                        assert(spec_attachable(x, ss[0]));
                    }
                    if spec_attaches_somewhere(x, tail) {
                        let j = choose|j: int|
                            0 <= j < tail.len() && spec_attachable(x, #[trigger] tail[j]);
                        assert(spec_attachable(x, ss[j + 1]));
                    }
                }
                assert(conj =~= not_attaches_pred(ss));
            },
        }

        let rest = spec_merge_spans(tail, r1);
        assert(spec_merge_spans(ss, rs).0 == seq![b0] + rest.0);
        assert forall|j: int| 0 <= j < ss.len() implies #[trigger] spec_merge_spans(ss, rs).0[j]
            == spec_merge_step(ss[j], rs).0 by {
            if j == 0 {
                assert((seq![b0] + rest.0)[0] == b0);
            } else {
                assert((seq![b0] + rest.0)[j] == rest.0[j - 1]);
                assert(rest.0[j - 1] == spec_merge_step(tail[j - 1], r1).0);
            }
        }
    }
}

/// The merge law of one trace: with its span ids unique, every span
/// with a log array gains exactly the records routed to it, and the
/// reported remainder is exactly the records no span takes.
pub proof fn lemma_merge_trace_distinct(t: TraceView, rs: Seq<ESLogView>)
    requires
        t.spans matches Some(ss) && spec_distinct_span_ids(ss),
    ensures
        ({
            let ss = t.spans->0;
            let (nt, rem) = spec_merge_trace(t, rs);
            &&& nt.spans matches Some(ns) && ns.len() == ss.len()
            &&& forall|j: int|
                0 <= j < ss.len() ==> #[trigger] nt.spans->0[j] == spec_merge_step(ss[j], rs).0
            &&& rem == rs.filter(not_attaches_pred(ss))
        }),
{
    lemma_merge_spans_distinct(t.spans->0, rs);
}

/// The merge touches nothing of a span but its log array, and only
/// ever extends that in place: the old log lines stay, in order, at
/// the front.
pub open spec fn spec_span_preserved(old_s: SpanView, new_s: SpanView) -> bool {
    &&& new_s.trace_id == old_s.trace_id
    &&& new_s.span_id == old_s.span_id
    &&& new_s.parent_span_id == old_s.parent_span_id
    &&& new_s.flags == old_s.flags
    &&& new_s.operation_name == old_s.operation_name
    &&& new_s.references == old_s.references
    &&& new_s.start_time == old_s.start_time
    &&& new_s.duration == old_s.duration
    &&& new_s.tags == old_s.tags
    &&& new_s.process_id == old_s.process_id
    &&& new_s.process == old_s.process
    &&& new_s.warnings == old_s.warnings
    &&& match old_s.logs {
        Option::None => new_s.logs is None,
        Option::Some(l) => new_s.logs matches Some(nl) && nl.len() >= l.len() && nl.subrange(
            0,
            l.len() as int,
        ) == l,
    }
}

/// Whatever the records are, the merge only extends log arrays in
/// place: every span keeps its fields, its order, and its old log
/// lines; a span without a log array is never given one.
pub proof fn lemma_merge_spans_preserves(ss: Seq<SpanView>, rs: Seq<ESLogView>)
    ensures
        spec_merge_spans(ss, rs).0.len() == ss.len(),
        forall|j: int|
            0 <= j < ss.len() ==> spec_span_preserved(
                ss[j],
                #[trigger] spec_merge_spans(ss, rs).0[j],
            ),
    decreases ss.len(),
{
    if ss.len() > 0 {
        let s0 = ss.first();
        let tail = ss.drop_first();
        let step0 = spec_merge_step(s0, rs);
        lemma_merge_spans_preserves(tail, step0.1);
        let rest = spec_merge_spans(tail, step0.1);
        assert(spec_span_preserved(s0, step0.0)) by {
            match s0.logs {
                Option::None => {
                },
                Option::Some(l) => {
                    assert((l + spec_gained_logs(rs, s0.span_id)).subrange(0, l.len() as int)
                        =~= l);
                },
            }
        }
        assert forall|j: int| 0 <= j < ss.len() implies spec_span_preserved(
            ss[j],
            #[trigger] spec_merge_spans(ss, rs).0[j],
        ) by {
            if j == 0 {
                assert((seq![step0.0] + rest.0)[0] == step0.0);
            } else {
                assert((seq![step0.0] + rest.0)[j] == rest.0[j - 1]);
                assert(tail[j - 1] == ss[j]);
            }
        }
    }
}

/// The merge of a trace touches nothing but the log arrays of its
/// spans; the trace id, the process table and the warnings come
/// through as they were.
pub proof fn lemma_merge_trace_preserves(t: TraceView, rs: Seq<ESLogView>)
    ensures
        ({
            let nt = spec_merge_trace(t, rs).0;
            &&& nt.trace_id == t.trace_id
            &&& nt.processes == t.processes
            &&& nt.warnings == t.warnings
            &&& t.spans is None ==> nt.spans is None
            &&& t.spans matches Some(ss) ==> nt.spans matches Some(ns) && ns.len() == ss.len()
                && (forall|j: int|
                0 <= j < ss.len() ==> spec_span_preserved(ss[j], #[trigger] ns[j]))
        }),
{
    match t.spans {
        Option::None => {
        },
        Option::Some(ss) => {
            lemma_merge_spans_preserves(ss, rs);
        },
    }
}

} // verus!
