//! The passthrough rules of the proxy.
//!
//! A relayed request keeps its path and query verbatim; only the host
//! and port are rewritten to the backend's. A relayed response keeps
//! every header except `Content-Encoding`: the body has already been
//! decoded (or re-serialized) on the way through, so the original
//! encoding header would desynchronize the client. The HTTP layer
//! presents header names normalized; the match here folds ASCII case
//! to be safe either way.

use crate::seqs::lemma_filter_push;
use vstd::prelude::*;
use vstd::string::{StrSliceExecFns, StringExecFns};

verus! {

/// ASCII upper-case letters folded to lower case.
pub open spec fn lower_char(c: char) -> char {
    if 'A' <= c && c <= 'Z' {
        (((c as u8) + 32) as char)
    } else {
        c
    }
}

/// A header name folded to ASCII lower case.
pub open spec fn lower_chars(s: Seq<char>) -> Seq<char> {
    s.map_values(|c: char| lower_char(c))
}

/// The name names the `Content-Encoding` header, in any ASCII case.
pub open spec fn is_content_encoding(name: Seq<char>) -> bool {
    lower_chars(name) == "content-encoding"@
}

/// The headers that survive relaying: all of them, in order, except
/// `Content-Encoding`.
pub open spec fn spec_strip_headers(hs: Seq<(Seq<char>, Seq<char>)>) -> Seq<(Seq<char>, Seq<char>)> {
    hs.filter(|h: (Seq<char>, Seq<char>)| !is_content_encoding(h.0))
}

/// Whether `name` names the `Content-Encoding` header, in any ASCII
/// case.
pub fn header_is_content_encoding(name: &String) -> (b: bool)
    ensures
        b == is_content_encoding(name@),
{
    let target = "content-encoding";
    proof {
        reveal_strlit("content-encoding");
    }
    let s = name.as_str();
    let n = s.unicode_len();
    if n != 16 {
        return false;
    }
    for i in 0..n
        invariant
            n == 16,
            n == s@.len(),
            s@ == name@,
            target@ == "content-encoding"@,
            target@.len() == 16,
            forall|j: int| 0 <= j < i ==> lower_char(s@[j]) == target@[j],
    {
        let c = s.get_char(i);
        let lc: char = if c >= 'A' && c <= 'Z' {
            (((c as u8) + 32) as char)
        } else {
            c
        };
        proof {
            reveal_strlit("content-encoding");
        }
        let tc = target.get_char(i);
        if lc != tc {
            proof {
                assert(lower_chars(name@)[i as int] != "content-encoding"@[i as int]);
            }
            return false;
        }
    }
    proof {
        assert(lower_chars(name@) =~= "content-encoding"@);
    }
    true
}

/// Keep every header except `Content-Encoding`, in order, as
/// `spec_strip_headers` says.
pub fn strip_content_encoding(headers: Vec<(String, String)>) -> (out: Vec<(String, String)>)
    ensures
        out.deep_view() == spec_strip_headers(headers.deep_view()),
{
    let ghost hv = headers.deep_view();
    let mut headers = headers;
    let mut out: Vec<(String, String)> = Vec::new();
    while headers.len() > 0
        invariant
            headers.deep_view().len() <= hv.len(),
            forall|j: int|
                0 <= j < headers.deep_view().len() ==> headers.deep_view()[j] == hv[hv.len()
                    - headers.deep_view().len() + j],
            out.deep_view() == spec_strip_headers(
                hv.subrange(0, hv.len() - headers.deep_view().len()),
            ),
        decreases headers.len(),
    {
        let ghost k = hv.len() - headers.deep_view().len();
        let ghost hprev = headers.deep_view();
        let h = headers.remove(0);
        proof {
            assert(hprev[0] == hv[k]);
            assert(h.deep_view() == hv[k]);
            assert(forall|j: int|
                0 <= j < headers.deep_view().len() ==> headers.deep_view()[j] == hprev[j + 1]);
            assert(hv.subrange(0, k + 1) =~= hv.subrange(0, k).push(hv[k]));
            lemma_filter_push(
                hv.subrange(0, k),
                |p: (Seq<char>, Seq<char>)| !is_content_encoding(p.0),
                hv[k],
            );
        }
        if !header_is_content_encoding(&h.0) {
            out.push(h);
        }
    }
    proof {
        assert(hv.subrange(0, hv.len() as int) =~= hv);
    }
    out
}

/// The decimal digit `d` as a character; `d` at most nine.
pub open spec fn digit_char(d: int) -> char {
    if d == 0 {
        '0'
    } else if d == 1 {
        '1'
    } else if d == 2 {
        '2'
    } else if d == 3 {
        '3'
    } else if d == 4 {
        '4'
    } else if d == 5 {
        '5'
    } else if d == 6 {
        '6'
    } else if d == 7 {
        '7'
    } else if d == 8 {
        '8'
    } else {
        '9'
    }
}

/// The decimal digits of `n`, most significant first, no leading
/// zeros (a lone zero for zero).
pub open spec fn spec_decimal(n: int) -> Seq<char>
    decreases n,
{
    if n < 10 {
        seq![digit_char(n)]
    } else {
        spec_decimal(n / 10) + seq![digit_char(n % 10)]
    }
}

/// Append one decimal digit, `d` at most nine.
fn append_digit(d: u16, out: &mut String)
    requires
        d <= 9,
    ensures
        final(out)@ == old(out)@ + seq![digit_char(d as int)],
{
    proof {
        reveal_strlit("0");
        reveal_strlit("1");
        reveal_strlit("2");
        reveal_strlit("3");
        reveal_strlit("4");
        reveal_strlit("5");
        reveal_strlit("6");
        reveal_strlit("7");
        reveal_strlit("8");
        reveal_strlit("9");
    }
    match d {
        0 => out.append("0"),
        1 => out.append("1"),
        2 => out.append("2"),
        3 => out.append("3"),
        4 => out.append("4"),
        5 => out.append("5"),
        6 => out.append("6"),
        7 => out.append("7"),
        8 => out.append("8"),
        _ => out.append("9"),
    }
}

/// Append the decimal digits of `n`, as `spec_decimal` says.
fn append_decimal(n: u16, out: &mut String)
    ensures
        final(out)@ == old(out)@ + spec_decimal(n as int),
    decreases n,
{
    if n >= 10 {
        append_decimal(n / 10, out);
    }
    append_digit(n % 10, out);
}

/// The relay target: the request's scheme, the backend's host and
/// port, and the request's path and query verbatim.
pub open spec fn spec_rewrite_url(
    scheme: Seq<char>,
    host: Seq<char>,
    port: u16,
    path_and_query: Seq<char>,
) -> Seq<char> {
    scheme + "://"@ + host + seq![':'] + spec_decimal(port as int) + path_and_query
}

/// Rewrite a request's target to the backend: only the host and port
/// change; the scheme, path and query are carried verbatim, as
/// `spec_rewrite_url` says.
pub fn rewrite_url(scheme: &str, host: &str, port: u16, path_and_query: &str) -> (u: String)
    ensures
        u@ == spec_rewrite_url(scheme@, host@, port, path_and_query@),
{
    let mut out = String::new();
    out.append(scheme);
    out.append("://");
    out.append(host);
    out.append(":");
    proof {
        reveal_strlit(":");
    }
    append_decimal(port, &mut out);
    out.append(path_and_query);
    out
}

} // verus!
