//! The request-line parser: three whitespace-separated tokens, checked in
//! order (method, request-target, version marker).

use crate::server::Server;
use crate::text::{
    chars_of,
    law_tokens_are_maximal_runs,
    span_bounds,
    token_bounds,
    token_spans,
    tokens,
};
use crate::types::{HttpRequestStatus, ParseError, RequestView};
use vstd::prelude::*;
use vstd::string::StrSliceExecFns;

verus! {

/// The verbs that a request may carry.
pub open spec fn supported_method(m: Seq<char>) -> bool {
    ||| m == seq!['G', 'E', 'T']
    ||| m == seq!['H', 'E', 'A', 'D']
    ||| m == seq!['P', 'O', 'S', 'T']
    ||| m == seq!['P', 'U', 'T']
    ||| m == seq!['D', 'E', 'L', 'E', 'T', 'E']
    ||| m == seq!['C', 'O', 'N', 'N', 'E', 'C', 'T']
    ||| m == seq!['O', 'P', 'T', 'I', 'O', 'N', 'S']
    ||| m == seq!['T', 'R', 'A', 'C', 'E']
    ||| m == seq!['P', 'A', 'T', 'C', 'H']
}

/// What every version marker begins with.
pub open spec fn version_prefix() -> Seq<char> {
    seq!['H', 'T', 'T', 'P', '/']
}

/// A version marker has eight characters, the first five being `HTTP/`.
pub open spec fn version_shaped(t: Seq<char>) -> bool {
    t.len() == 8 && t.subrange(0, 5) == version_prefix()
}

/// The protocol versions that are served.
pub open spec fn supported_version(v: Seq<char>) -> bool {
    v == seq!['1', '.', '1'] || v == seq!['1', '.', '2']
}

/// The index of the first `?` of `t` at or after `i`, or the length of `t`
/// where there is none.
pub open spec fn query_mark(t: Seq<char>, i: int) -> int
    decreases t.len() - i,
{
    if 0 <= i < t.len() && t[i] != '?' {
        query_mark(t, i + 1)
    } else {
        i
    }
}

/// The request-target up to its first `?`.
pub open spec fn target_path(t: Seq<char>) -> Seq<char> {
    t.subrange(0, query_mark(t, 0))
}

/// What follows the first `?` of the request-target, if it has one.
pub open spec fn target_query(t: Seq<char>) -> Option<Seq<char>> {
    if query_mark(t, 0) < t.len() {
        Some(t.subrange(query_mark(t, 0) + 1, t.len() as int))
    } else {
        None
    }
}

/// What a request line parses to.
pub open spec fn parse(line: Seq<char>) -> Result<RequestView, ParseError> {
    let t = tokens(line);
    if t.len() != 3 {
        Err(ParseError::MalformedStatusLine)
    } else if !supported_method(t[0]) {
        Err(ParseError::UnsupportedMethod)
    } else if t[1][0] != '/' {
        Err(ParseError::InvalidPath)
    } else if !version_shaped(t[2]) {
        Err(ParseError::InvalidVersion)
    } else if !supported_version(t[2].subrange(5, 8)) {
        Err(ParseError::UnsupportedVersion)
    } else {
        Ok(
            RequestView {
                method: t[0],
                http_version: t[2].subrange(5, 8),
                path: target_path(t[1]),
                query: target_query(t[1]),
            },
        )
    }
}

/// The `?` search stays inside the target, and nothing before its result is
/// a `?`.
pub proof fn lemma_query_mark(t: Seq<char>, i: int)
    requires
        0 <= i <= t.len(),
    ensures
        i <= query_mark(t, i) <= t.len(),
        query_mark(t, i) < t.len() ==> t[query_mark(t, i)] == '?',
        forall|k: int| i <= k < query_mark(t, i) ==> #[trigger] t[k] != '?',
    decreases t.len() - i,
{
    if i < t.len() && t[i] != '?' {
        lemma_query_mark(t, i + 1);
    }
}

/// The three invariants of a parsed request: a known verb, a path that
/// begins with `/`, and a served version.
pub open spec fn well_formed(request: RequestView) -> bool {
    &&& supported_method(request.method)
    &&& request.path.len() > 0 && request.path[0] == '/'
    &&& supported_version(request.http_version)
}

/// A line that does not hold exactly three tokens is refused as malformed,
/// whatever its tokens are.
pub proof fn law_token_count(line: Seq<char>)
    requires
        tokens(line).len() != 3,
    ensures
        parse(line) == Err::<RequestView, ParseError>(ParseError::MalformedStatusLine),
{
}

/// A line of three tokens whose first is none of the nine verbs is refused
/// for its method, whatever the other two tokens are.
pub proof fn law_unknown_method(line: Seq<char>)
    requires
        tokens(line).len() == 3,
        !supported_method(tokens(line)[0]),
    ensures
        parse(line) == Err::<RequestView, ParseError>(ParseError::UnsupportedMethod),
{
}

/// With a known verb, a request-target that does not begin with `/` is
/// refused for its path.
pub proof fn law_target_without_slash(line: Seq<char>)
    requires
        tokens(line).len() == 3,
        supported_method(tokens(line)[0]),
        tokens(line)[1][0] != '/',
    ensures
        parse(line) == Err::<RequestView, ParseError>(ParseError::InvalidPath),
{
}

/// A request-target is split at its first `?` and nowhere else: the path
/// holds no `?`, and path, `?` and query together give the target back. A
/// target without `?` is the path, and there is no query.
pub proof fn law_split_at_first_query_mark(t: Seq<char>)
    ensures
        forall|k: int| 0 <= k < target_path(t).len() ==> #[trigger] target_path(t)[k] != '?',
        match target_query(t) {
            Some(q) => t == target_path(t) + seq!['?'] + q,
            None => t == target_path(t),
        },
{
    lemma_query_mark(t, 0);
    let m = query_mark(t, 0);
    match target_query(t) {
        Some(q) => {
            assert(t =~= target_path(t) + seq!['?'] + q);
        },
        None => {
            assert(t =~= target_path(t));
        },
    }
}

/// With a known verb and a target that begins with `/`, every version
/// marker but `HTTP/1.1` and `HTTP/1.2` is refused with one of the two
/// version errors: `InvalidVersion` where it is not `HTTP/` and three more
/// characters, `UnsupportedVersion` where it is.
pub proof fn law_version_marker(line: Seq<char>)
    requires
        tokens(line).len() == 3,
        supported_method(tokens(line)[0]),
        tokens(line)[1][0] == '/',
        tokens(line)[2] != seq!['H', 'T', 'T', 'P', '/', '1', '.', '1'],
        tokens(line)[2] != seq!['H', 'T', 'T', 'P', '/', '1', '.', '2'],
    ensures
        parse(line) == Err::<RequestView, ParseError>(
            if version_shaped(tokens(line)[2]) {
                ParseError::UnsupportedVersion
            } else {
                ParseError::InvalidVersion
            },
        ),
{
    let v = tokens(line)[2];
    if version_shaped(v) {
        if supported_version(v.subrange(5, 8)) {
            let p = v.subrange(0, 5);
            let n = v.subrange(5, 8);
            assert(v =~= p + n);
            assert(p + seq!['1', '.', '1'] =~= seq!['H', 'T', 'T', 'P', '/', '1', '.', '1']);
            assert(p + seq!['1', '.', '2'] =~= seq!['H', 'T', 'T', 'P', '/', '1', '.', '2']);
        }
    }
}

/// A line is accepted exactly when it holds a known verb, a target that
/// begins with `/` and one of the two served version markers; the request
/// then meets its three invariants.
pub proof fn law_accepted_lines(line: Seq<char>)
    ensures
        parse(line) is Ok <==> {
            &&& tokens(line).len() == 3
            &&& supported_method(tokens(line)[0])
            &&& tokens(line)[1][0] == '/'
            &&& (tokens(line)[2] == seq!['H', 'T', 'T', 'P', '/', '1', '.', '1'] || tokens(line)[2]
                == seq!['H', 'T', 'T', 'P', '/', '1', '.', '2'])
        },
        parse(line) matches Ok(request) ==> well_formed(request),
{
    let t = tokens(line);
    if t.len() == 3 && supported_method(t[0]) && t[1][0] == '/' {
        let v = t[2];
        if v == seq!['H', 'T', 'T', 'P', '/', '1', '.', '1'] {
            assert(v.subrange(0, 5) =~= version_prefix());
            assert(v.subrange(5, 8) =~= seq!['1', '.', '1']);
        } else if v == seq!['H', 'T', 'T', 'P', '/', '1', '.', '2'] {
            assert(v.subrange(0, 5) =~= version_prefix());
            assert(v.subrange(5, 8) =~= seq!['1', '.', '2']);
        } else {
            law_version_marker(line);
        }
        law_tokens_are_maximal_runs(line, 0);
        lemma_query_mark(t[1], 0);
        assert(token_bounds(line, 0)[1].0 < token_bounds(line, 0)[1].1);
        if query_mark(t[1], 0) == 0 {
            assert(t[1][0] == '?');
        }
    }
}

/// Compares the characters of `chars` in `from..to` with `word`.
fn span_is(chars: &Vec<char>, from: usize, to: usize, word: &str) -> (r: bool)
    requires
        from <= to <= chars@.len(),
    ensures
        r == (chars@.subrange(from as int, to as int) == word@),
{
    let w = chars_of(word);
    if w.len() != to - from {
        return false;
    }
    let mut k: usize = 0;
    while k < w.len()
        invariant
            from <= to <= chars@.len(),
            w@ == word@,
            w@.len() == to - from,
            k <= w@.len(),
            forall|j: int| 0 <= j < k ==> chars@[from + j] == w@[j],
        decreases w@.len() - k,
    {
        if chars[from + k] != w[k] {
            assert(chars@.subrange(from as int, to as int)[k as int] != word@[k as int]);
            return false;
        }
        k = k + 1;
    }
    assert(chars@.subrange(from as int, to as int) =~= word@);
    true
}

/// Decides whether the characters of `chars` in `from..to` spell one of
/// the nine verbs.
fn span_is_method(chars: &Vec<char>, from: usize, to: usize) -> (r: bool)
    requires
        from <= to <= chars@.len(),
    ensures
        r == supported_method(chars@.subrange(from as int, to as int)),
{
    proof {
        reveal_strlit("GET");
        reveal_strlit("HEAD");
        reveal_strlit("POST");
        reveal_strlit("PUT");
        reveal_strlit("DELETE");
        reveal_strlit("CONNECT");
        reveal_strlit("OPTIONS");
        reveal_strlit("TRACE");
        reveal_strlit("PATCH");
        assert("GET"@ =~= seq!['G', 'E', 'T']);
        assert("HEAD"@ =~= seq!['H', 'E', 'A', 'D']);
        assert("POST"@ =~= seq!['P', 'O', 'S', 'T']);
        assert("PUT"@ =~= seq!['P', 'U', 'T']);
        assert("DELETE"@ =~= seq!['D', 'E', 'L', 'E', 'T', 'E']);
        assert("CONNECT"@ =~= seq!['C', 'O', 'N', 'N', 'E', 'C', 'T']);
        assert("OPTIONS"@ =~= seq!['O', 'P', 'T', 'I', 'O', 'N', 'S']);
        assert("TRACE"@ =~= seq!['T', 'R', 'A', 'C', 'E']);
        assert("PATCH"@ =~= seq!['P', 'A', 'T', 'C', 'H']);
    }
    span_is(chars, from, to, "GET") || span_is(chars, from, to, "HEAD") || span_is(
        chars,
        from,
        to,
        "POST",
    ) || span_is(chars, from, to, "PUT") || span_is(chars, from, to, "DELETE") || span_is(
        chars,
        from,
        to,
        "CONNECT",
    ) || span_is(chars, from, to, "OPTIONS") || span_is(chars, from, to, "TRACE") || span_is(
        chars,
        from,
        to,
        "PATCH",
    )
}

/// Decides whether `token` is one of the nine verbs.
pub fn is_supported_method(token: &str) -> (r: bool)
    ensures
        r == supported_method(token@),
{
    let chars = chars_of(token);
    assert(chars@.subrange(0, chars@.len() as int) =~= token@);
    span_is_method(&chars, 0, chars.len())
}

/// Finds the first `?` of the token that `chars` holds in `from..to`: the
/// index in `chars` of that `?`, or `to` where the token has none.
fn find_query_mark(chars: &Vec<char>, from: usize, to: usize) -> (q: usize)
    requires
        from <= to <= chars@.len(),
    ensures
        from <= q <= to,
        q - from == query_mark(chars@.subrange(from as int, to as int), 0),
{
    let ghost t = chars@.subrange(from as int, to as int);
    let mut q = from;
    while q < to && chars[q] != '?'
        invariant
            from <= q <= to <= chars@.len(),
            t == chars@.subrange(from as int, to as int),
            query_mark(t, q - from) == query_mark(t, 0),
        decreases to - q,
    {
        assert(t[q - from] == chars@[q as int]);
        q = q + 1;
    }
    assert(q < to ==> t[q - from] == chars@[q as int]);
    q
}

impl Server {
    /// Parses the first line of a request.
    ///
    /// The line must hold exactly three tokens: one of the nine verbs, a
    /// request-target that begins with `/`, and `HTTP/1.1` or `HTTP/1.2`.
    /// The checks are made in that order and the first one that fails names
    /// the error.
    pub fn parse_status_line(status_line: &String) -> (r: Result<HttpRequestStatus, ParseError>)
        ensures
            match r {
                Ok(request) => parse(status_line@) == Ok::<RequestView, ParseError>(request@),
                Err(e) => parse(status_line@) == Err::<RequestView, ParseError>(e),
            },
            r matches Ok(request) ==> well_formed(request@),
    {
        proof {
            law_accepted_lines(status_line@);
        }
        let line = status_line.as_str();
        let chars = chars_of(line);
        let spans = token_spans(&chars);
        let ghost t = tokens(line@);
        proof {
            law_tokens_are_maximal_runs(line@, 0);
        }
        if spans.len() != 3 {
            return Err(ParseError::MalformedStatusLine);
        }
        let (m0, m1) = spans[0];
        let (p0, p1) = spans[1];
        let (v0, v1) = spans[2];
        assert(span_bounds(spans@)[0] == (m0 as int, m1 as int));
        assert(span_bounds(spans@)[1] == (p0 as int, p1 as int));
        assert(span_bounds(spans@)[2] == (v0 as int, v1 as int));
        assert(t[0] == chars@.subrange(m0 as int, m1 as int));
        assert(t[1] == chars@.subrange(p0 as int, p1 as int));
        assert(t[2] == chars@.subrange(v0 as int, v1 as int));
        if !span_is_method(&chars, m0, m1) {
            return Err(ParseError::UnsupportedMethod);
        }
        if chars[p0] != '/' {
            return Err(ParseError::InvalidPath);
        }
        proof {
            reveal_strlit("HTTP/");
            reveal_strlit("1.1");
            reveal_strlit("1.2");
            assert("HTTP/"@ =~= version_prefix());
            assert("1.1"@ =~= seq!['1', '.', '1']);
            assert("1.2"@ =~= seq!['1', '.', '2']);
        }
        if v1 - v0 != 8 {
            return Err(ParseError::InvalidVersion);
        }
        assert(t[2].subrange(0, 5) =~= chars@.subrange(v0 as int, v0 + 5));
        assert(t[2].subrange(5, 8) =~= chars@.subrange(v0 + 5, v1 as int));
        if !span_is(&chars, v0, v0 + 5, "HTTP/") {
            return Err(ParseError::InvalidVersion);
        }
        if !span_is(&chars, v0 + 5, v1, "1.1") && !span_is(&chars, v0 + 5, v1, "1.2") {
            return Err(ParseError::UnsupportedVersion);
        }
        let q = find_query_mark(&chars, p0, p1);
        assert(target_path(t[1]) =~= line@.subrange(p0 as int, q as int));
        let query = if q < p1 {
            assert(target_query(t[1]) == Some(line@.subrange(q + 1, p1 as int))) by {
                assert(t[1].subrange(q - p0 + 1, t[1].len() as int) =~= line@.subrange(
                    q + 1,
                    p1 as int,
                ));
            }
            Some(line.substring_char(q + 1, p1).to_owned())
        } else {
            None
        };
        Ok(
            HttpRequestStatus {
                method: line.substring_char(m0, m1).to_owned(),
                http_version: line.substring_char(v0 + 5, v1).to_owned(),
                path: line.substring_char(p0, q).to_owned(),
                query,
            },
        )
    }
}

} // verus!
