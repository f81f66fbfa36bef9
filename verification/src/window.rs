//! The search-window computation.
//!
//! The window is derived from the minimum span start time observed
//! across the entire trace-detail response (all traces, all spans).
//! The minimum microsecond timestamp is truncated to milliseconds, and
//! the window is that value plus a fixed ten-minute lookahead.

use crate::models::{GetTraceResponse, GetTraceResponseView, SpanView, TraceView};
use crate::WINDOW_MS;
use vstd::prelude::*;

verus! {

/// The smaller of `b` and the running minimum `a` (`b` alone if there
/// is none yet).
pub open spec fn opt_min_u64(a: Option<u64>, b: u64) -> Option<u64> {
    match a {
        Option::None => Some(b),
        Option::Some(x) => if b < x {
            Some(b)
        } else {
            Some(x)
        },
    }
}

/// The running minimum `a` joined with the minimum `b` of another span
/// group.
pub open spec fn opt_join(a: Option<u64>, b: Option<u64>) -> Option<u64> {
    match b {
        Option::None => a,
        Option::Some(y) => opt_min_u64(a, y),
    }
}

/// The minimum start time of a span sequence, `None` when it is empty.
pub open spec fn spans_min_start(s: Seq<SpanView>) -> Option<u64>
    decreases s.len(),
{
    if s.len() == 0 {
        None
    } else {
        opt_min_u64(spans_min_start(s.drop_last()), s.last().start_time)
    }
}

/// The minimum start time of the spans of one trace.
pub open spec fn trace_min_start(t: TraceView) -> Option<u64> {
    match t.spans {
        Option::None => None,
        Option::Some(s) => spans_min_start(s),
    }
}

/// The minimum start time over a trace sequence.
pub open spec fn traces_min_start(ts: Seq<TraceView>) -> Option<u64>
    decreases ts.len(),
{
    if ts.len() == 0 {
        None
    } else {
        opt_join(traces_min_start(ts.drop_last()), trace_min_start(ts.last()))
    }
}

/// The minimum start time over every span of a response.
pub open spec fn resp_min_start(r: GetTraceResponseView) -> Option<u64> {
    match r.data {
        Option::None => None,
        Option::Some(ts) => traces_min_start(ts),
    }
}

/// The search window of a response: the minimum start time truncated
/// from microseconds to milliseconds, and that value plus the fixed
/// lookahead; `None` when the response holds no span at all.
pub open spec fn spec_window(r: GetTraceResponseView) -> Option<(u64, u64)> {
    match resp_min_start(r) {
        Option::None => None,
        Option::Some(m) => Some(((m / 1000) as u64, (m / 1000 + WINDOW_MS) as u64)),
    }
}

/// Compute the search window of a trace-detail response: scan every
/// span of every trace for the minimum start time (microseconds),
/// truncate it to milliseconds, and add the fixed lookahead. Returns
/// `None` exactly when no span exists anywhere in the response.
pub fn compute_window(resp: &GetTraceResponse) -> (w: Option<(u64, u64)>)
    ensures
        w == spec_window(resp.deep_view()),
{
    let mut min: Option<u64> = None;
    if let Some(traces) = &resp.data {
        let ghost tsv: Seq<TraceView> = traces.deep_view();
        for i in 0..traces.len()
            invariant
                tsv == traces.deep_view(),
                min == traces_min_start(tsv.subrange(0, i as int)),
        {
            if let Some(spans) = &traces[i].spans {
                let ghost sv: Seq<SpanView> = spans.deep_view();
                let ghost before: Option<u64> = min;
                for j in 0..spans.len()
                    invariant
                        sv == spans.deep_view(),
                        tsv == traces.deep_view(),
                        i < traces.len(),
                        traces[i as int].spans matches Some(sp) && sp.deep_view() == sv,
                        min == opt_join(before, spans_min_start(sv.subrange(0, j as int))),
                {
                    let start = spans[j].start_time;
                    proof {
                        assert(sv.subrange(0, j + 1).drop_last() =~= sv.subrange(0, j as int));
                        assert(sv.subrange(0, j + 1).last() == sv[j as int]);
                        assert(sv[j as int] == spans[j as int].deep_view());
                    }
                    min = match min {
                        Option::None => Some(start),
                        Option::Some(x) => if start < x {
                            Some(start)
                        } else {
                            Some(x)
                        },
                    };
                }
                proof {
                    assert(sv.subrange(0, sv.len() as int) =~= sv);
                }
            }
            proof {
                assert(tsv.subrange(0, i + 1).drop_last() =~= tsv.subrange(0, i as int));
                assert(tsv.subrange(0, i + 1).last() == tsv[i as int]);
                assert(tsv[i as int] == traces[i as int].deep_view());
            }
        }
        proof {
            assert(tsv.subrange(0, tsv.len() as int) =~= tsv);
        }
    }
    match min {
        Option::None => None,
        Option::Some(m) => {
            let from: u64 = m / 1000;
            Some((from, from + WINDOW_MS))
        },
    }
}

/// Whenever any span exists, the window is exactly `WINDOW_MS`
/// milliseconds wide.
pub proof fn lemma_window_size(r: GetTraceResponseView)
    ensures
        spec_window(r) matches Some(w) ==> w.1 - w.0 == WINDOW_MS,
{
}

/// The minimum the window is built from is the start time of some span
/// of the response, and no span of the response starts earlier.
pub proof fn lemma_min_start_is_min(s: Seq<SpanView>)
    ensures
        spans_min_start(s) is None <==> s.len() == 0,
        spans_min_start(s) matches Some(m) ==> (exists|i: int|
            0 <= i < s.len() && s[i].start_time == m),
        spans_min_start(s) matches Some(m) ==> (forall|i: int|
            0 <= i < s.len() ==> s[i].start_time >= m),
    decreases s.len(),
{
    if s.len() > 0 {
        lemma_min_start_is_min(s.drop_last());
        assert(forall|i: int| 0 <= i < s.len() - 1 ==> s[i] == s.drop_last()[i]);
        assert(s.last() == s[s.len() - 1]);
    }
}

/// The trace holds at least one span.
pub open spec fn trace_has_spans(t: TraceView) -> bool {
    t.spans matches Some(s) && s.len() > 0
}

/// The response holds at least one span, in any of its traces.
pub open spec fn resp_has_spans(r: GetTraceResponseView) -> bool {
    r.data matches Some(ts) && exists|i: int| 0 <= i < ts.len() && trace_has_spans(#[trigger] ts[i])
}

proof fn lemma_traces_min_none(ts: Seq<TraceView>)
    ensures
        traces_min_start(ts) is None <==> (forall|i: int|
            0 <= i < ts.len() ==> !trace_has_spans(#[trigger] ts[i])),
    decreases ts.len(),
{
    if ts.len() > 0 {
        lemma_traces_min_none(ts.drop_last());
        assert(forall|i: int| 0 <= i < ts.len() - 1 ==> ts.drop_last()[i] == ts[i]);
        assert(ts.last() == ts[ts.len() - 1]);
    }
}

/// A response without any span yields no search window, so the
/// enrichment makes no log-search call for it and leaves the response
/// as it came; a response with a span always yields one.
pub proof fn lemma_no_spans_no_window(r: GetTraceResponseView)
    ensures
        spec_window(r) is None <==> !resp_has_spans(r),
{
    match r.data {
        Option::None => {
        },
        Option::Some(ts) => {
            lemma_traces_min_none(ts);
        },
    }
}

} // verus!
