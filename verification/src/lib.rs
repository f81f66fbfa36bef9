//! A verified core for a trace-enrichment proxy.
//!
//! The library sits between a client and a distributed-tracing backend.
//! Most requests pass through unchanged; a trace-detail request is
//! enriched: the trace is fetched, a search window is derived from the
//! earliest span start time, log records are pulled from a log-search
//! backend, and each record is spliced into the span it correlates to.
//!
//! The verified parts are the data model, the JSON mapping of the model,
//! the search-window computation, the correlation-id parsing, the merge
//! engine, the query construction, and the header/URL rules of the
//! passthrough proxy. Network I/O and JSON text encoding live outside
//! the library.

pub mod codec;
pub mod correlate;
pub mod elasticsearch;
pub mod json;
pub mod merge;
pub mod models;
pub mod proxy;
pub mod seqs;
pub mod window;

use vstd::prelude::*;

verus! {

/// The fixed lookahead of the log-search window, in milliseconds.
pub const WINDOW_MS: u64 = 600000;

} // verus!
