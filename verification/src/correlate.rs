//! Correlation-id parsing.
//!
//! A log record carries a colon-delimited correlation id of the form
//! `service:span:trace:sampled`. A record is routed to the span named
//! by the second part, and only ids with exactly four parts are
//! accepted; any other shape is dropped by the merge.

use vstd::prelude::*;
use vstd::string::{StrSliceExecFns, StringExecFns};

verus! {

/// Index of the first `':'` in `s`, or `s.len()` when there is none.
pub open spec fn first_colon_idx(s: Seq<char>) -> nat
    decreases s.len(),
{
    if s.len() == 0 {
        0
    } else if s[0] == ':' {
        0
    } else {
        1 + first_colon_idx(s.drop_first())
    }
}

/// `s` split at every `':'`, empty parts kept.
pub open spec fn split_colon(s: Seq<char>) -> Seq<Seq<char>>
    decreases s.len(),
{
    let i = first_colon_idx(s) as int;
    if i >= s.len() {
        seq![s]
    } else {
        seq![s.subrange(0, i)] + split_colon(s.subrange(i + 1, s.len() as int))
    }
}

/// The span id a correlation id routes to: the second of exactly four
/// colon-delimited parts, `None` for any other number of parts.
pub open spec fn correlation_span_id(s: Seq<char>) -> Option<Seq<char>> {
    let parts = split_colon(s);
    if parts.len() == 4 {
        Some(parts[1])
    } else {
        None
    }
}

/// `first_colon_idx` names the position `i` bounded by no colon on its
/// left and a colon (or the end of `s`) at `i` itself.
pub proof fn lemma_first_colon_at(s: Seq<char>, i: int)
    requires
        0 <= i <= s.len(),
        forall|j: int| 0 <= j < i ==> s[j] != ':',
        i < s.len() ==> s[i] == ':',
    ensures
        first_colon_idx(s) == i,
    decreases s.len(),
{
    if s.len() == 0 {
    } else if s[0] == ':' {
        assert(i == 0);
    } else {
        assert(i > 0);
        let t = s.drop_first();
        assert(forall|j: int| 0 <= j < i - 1 ==> t[j] != ':');
        lemma_first_colon_at(t, i - 1);
    }
}

/// Splitting a string that starts with a colon-free part `u` followed
/// by a colon yields `u` and then the split of the rest.
pub proof fn lemma_split_prepend(u: Seq<char>, v: Seq<char>)
    requires
        forall|j: int| 0 <= j < u.len() ==> u[j] != ':',
    ensures
        split_colon(u + seq![':'] + v) == seq![u] + split_colon(v),
{
    let s = u + seq![':'] + v;
    assert(s[u.len() as int] == ':');
    lemma_first_colon_at(s, u.len() as int);
    assert(s.subrange(0, u.len() as int) =~= u);
    assert(s.subrange(u.len() as int + 1, s.len() as int) =~= v);
}

/// A colon-free string splits into itself alone.
pub proof fn lemma_split_whole(s: Seq<char>)
    requires
        forall|j: int| 0 <= j < s.len() ==> s[j] != ':',
    ensures
        split_colon(s) == seq![s],
{
    lemma_first_colon_at(s, s.len() as int);
}

/// Every well-formed correlation id `service:span:trace:sampled`,
/// whose four parts are colon-free, routes to the span named by its
/// second part; the parsing never rejects such an id.
pub proof fn lemma_correlation_routing(a: Seq<char>, b: Seq<char>, c: Seq<char>, d: Seq<char>)
    requires
        forall|j: int| 0 <= j < a.len() ==> a[j] != ':',
        forall|j: int| 0 <= j < b.len() ==> b[j] != ':',
        forall|j: int| 0 <= j < c.len() ==> c[j] != ':',
        forall|j: int| 0 <= j < d.len() ==> d[j] != ':',
    ensures
        correlation_span_id(a + seq![':'] + (b + seq![':'] + (c + seq![':'] + d))) == Some(b),
{
    let s = a + seq![':'] + (b + seq![':'] + (c + seq![':'] + d));
    lemma_split_prepend(a, b + seq![':'] + (c + seq![':'] + d));
    lemma_split_prepend(b, c + seq![':'] + d);
    lemma_split_prepend(c, d);
    lemma_split_whole(d);
    assert(split_colon(s) == seq![a] + (seq![b] + (seq![c] + seq![d])));
    assert(split_colon(s).len() == 4);
    assert(split_colon(s)[1] == b);
}

/// Split `s` at every colon, empty parts kept, as `split_colon` says.
pub fn split_correlation(s: &str) -> (parts: Vec<String>)
    ensures
        parts.deep_view() == split_colon(s@),
    decreases s@.len(),
{
    let n = s.unicode_len();
    let mut i: usize = 0;
    while i < n && s.get_char(i) != ':'
        invariant
            n == s@.len(),
            i <= n,
            forall|j: int| 0 <= j < i ==> s@[j] != ':',
        decreases n - i,
    {
        i += 1;
    }
    proof {
        lemma_first_colon_at(s@, i as int);
    }
    if i == n {
        let whole = String::from_str(s);
        let parts = vec![whole];
        proof {
            assert(parts.deep_view() =~~= split_colon(s@));
        }
        parts
    } else {
        let head = String::from_str(s.substring_char(0, i));
        let tail = s.substring_char(i + 1, n);
        let mut parts = split_correlation(tail);
        parts.insert(0, head);
        proof {
            assert(parts.deep_view() =~~= split_colon(s@));
        }
        parts
    }
}

/// The span id of a correlation id: the second of exactly four
/// colon-delimited parts, `None` for any other shape.
pub fn span_id_of_correlation(s: &str) -> (r: Option<String>)
    ensures
        r.deep_view() == correlation_span_id(s@),
{
    let mut parts = split_correlation(s);
    if parts.len() == 4 {
        let ghost pv = parts.deep_view();
        let second = parts.remove(1);
        proof {
            assert(second@ == pv[1]);
        }
        Some(second)
    } else {
        None
    }
}

} // verus!
