use vstd::prelude::*;

use crate::request::{
    body_of, header_scan, method_name, method_of, next_line, parse_request, Method, RequestView,
};
use crate::server::{error_reply, not_implemented_reply, route_from, OutcomeView, Server};
use crate::text::{
    content_end, find_blank_line, find_char, is_ws, line_end, lossy_text, skip_token, skip_ws,
};

verus! {

/// A request-line token: not empty, and no white space in it.
pub open spec fn is_token(s: Seq<char>) -> bool {
    s.len() > 0 && forall|i: int| 0 <= i < s.len() ==> !is_ws(#[trigger] s[i])
}

/// The text of a request with no headers and no body: `<method> <path> HTTP/1.1`.
pub open spec fn bare_request(method: Seq<char>, path: Seq<char>) -> Seq<char> {
    method + seq![' '] + path + seq![' ', 'H', 'T', 'T', 'P', '/', '1', '.', '1', '\r', '\n', '\r', '\n']
}

/// The request that `bare_request` describes.
pub open spec fn bare_view(m: Method, path: Seq<char>) -> RequestView {
    RequestView {
        method: m,
        path,
        original_path: path,
        query: Map::empty(),
        headers: Map::empty(),
        body: Seq::empty(),
    }
}

proof fn lemma_line_end_at(t: Seq<char>, i: int, j: int)
    requires
        0 <= i <= j <= t.len(),
        forall|k: int| i <= k < j ==> t[k] != '\n',
        j == t.len() || t[j] == '\n',
    ensures
        line_end(t, i) == j,
    decreases j - i,
{
    if i < j {
        lemma_line_end_at(t, i + 1, j);
    }
}

proof fn lemma_skip_token_at(t: Seq<char>, i: int, j: int, end: int)
    requires
        0 <= i <= j <= end <= t.len(),
        forall|k: int| i <= k < j ==> !is_ws(t[k]),
        j == end || is_ws(t[j]),
    ensures
        skip_token(t, i, end) == j,
    decreases j - i,
{
    if i < j {
        lemma_skip_token_at(t, i + 1, j, end);
    }
}

proof fn lemma_find_char_none(t: Seq<char>, c: char, i: int, end: int)
    requires
        0 <= i <= end <= t.len(),
        forall|k: int| i <= k < end ==> t[k] != c,
    ensures
        find_char(t, c, i, end) == end,
    decreases end - i,
{
    if i < end {
        lemma_find_char_none(t, c, i + 1, end);
    }
}

proof fn lemma_find_blank_line_at(t: Seq<char>, i: int, j: int)
    requires
        0 <= i <= j,
        j + 3 < t.len(),
        forall|k: int| i <= k < j ==> t[k] != '\r',
        t[j] == '\r' && t[j + 1] == '\n' && t[j + 2] == '\r' && t[j + 3] == '\n',
    ensures
        find_blank_line(t, i) == j,
    decreases j - i,
{
    if i < j {
        lemma_find_blank_line_at(t, i + 1, j);
    }
}

/// How a bare request reads: its tokens, no header and an empty body.
proof fn lemma_bare_request(tok: Seq<char>, p: Seq<char>)
    requires
        is_token(tok),
        is_token(p),
    ensures
        ({
            let t = bare_request(tok, p);
            let n = tok.len() as int;
            let e = n + 1 + p.len();
            &&& t.len() > 0
            &&& content_end(t, 0) == e + 9
            &&& skip_ws(t, 0, e + 9) == 0
            &&& skip_token(t, 0, e + 9) == n
            &&& skip_ws(t, n, e + 9) == n + 1
            &&& skip_token(t, n + 1, e + 9) == e
            &&& t.subrange(0, n) == tok
            &&& t.subrange(n + 1, e) == p
            &&& header_scan(t, next_line(t, next_line(t, 0)), Map::empty()) == Some(
                Map::<Seq<char>, Seq<char>>::empty(),
            )
            &&& body_of(t) == Seq::<char>::empty()
        }),
{
    let t = bare_request(tok, p);
    let n = tok.len() as int;
    let e = n + 1 + p.len();
    assert(t.len() == e + 13);
    assert forall|k: int| 0 <= k < n implies t[k] == tok[k] by {}
    assert forall|k: int| n + 1 <= k < e implies t[k] == p[k - n - 1] by {}
    assert(t[n] == ' ');
    assert(t[e] == ' ' && t[e + 9] == '\r' && t[e + 10] == '\n');
    assert(t[e + 11] == '\r' && t[e + 12] == '\n');
    assert forall|k: int| 0 <= k < e + 9 implies !is_ws(t[k]) || k == n || k == e by {
        if k < n {
            assert(!is_ws(tok[k]));
        } else if n < k < e {
            assert(!is_ws(p[k - n - 1]));
        }
    }
    assert forall|k: int| 0 <= k < e + 10 implies t[k] != '\n' && (k < e + 9 ==> t[k] != '\r') by {
        if k < n {
            assert(!is_ws(tok[k]));
        } else if n < k < e {
            assert(!is_ws(p[k - n - 1]));
        }
    }
    lemma_line_end_at(t, 0, e + 10);
    assert(content_end(t, 0) == e + 9);
    lemma_skip_token_at(t, 0, n, e + 9);
    lemma_skip_token_at(t, n + 1, e, e + 9);
    assert(!is_ws(t[n + 1]));
    assert(skip_ws(t, n + 1, e + 9) == n + 1);
    assert(t.subrange(0, n) =~= tok);
    assert(t.subrange(n + 1, e) =~= p);
    assert(next_line(t, 0) == e + 11);
    lemma_line_end_at(t, e + 11, e + 12);
    assert(next_line(t, e + 11) == t.len());
    lemma_find_blank_line_at(t, 0, e + 9);
    assert(t.subrange(e + 13, t.len() as int) =~= Seq::<char>::empty());
}

proof fn lemma_method_name(m: Method)
    ensures
        method_of(method_name(m)) == Some(m),
        is_token(method_name(m)),
{
    let s = method_name(m);
    assert(s.len() > 0);
    assert(forall|i: int| 0 <= i < s.len() ==> 65 <= (#[trigger] s[i]) as u32 <= 90);
    assert(seq!['G', 'E', 'T'][2] == 'T');
    assert(seq!['P', 'U', 'T'][1] == 'U');
    assert(seq!['P', 'O', 'S', 'T'][1] == 'O');
    assert(seq!['P', 'A', 'T', 'C', 'H'][1] == 'A');
}

/// A bare request for a method that the first route at its path binds goes to
/// that route's handler for the method, with the path, no query, no headers and
/// no body: the handler is invoked, and once.
pub proof fn lemma_bound_method_invokes<H>(s: Server<H>, m: Method, p: Seq<char>, i: int)
    requires
        is_token(p),
        !p.contains('?'),
        route_from(s.routes(), p, 0) == Some(i),
        s.routes()[i].binds(m),
    ensures
        s.outcome(bare_request(method_name(m), p)) == OutcomeView::Invoke(i, bare_view(m, p)),
{
    let tok = method_name(m);
    lemma_method_name(m);
    lemma_bare_request(tok, p);
    let t = bare_request(tok, p);
    let n = tok.len() as int;
    let e = n + 1 + p.len();
    assert forall|k: int| n + 1 <= k < e implies t[k] != '?' by {
        assert(t[k] == p[k - n - 1]);
    }
    lemma_find_char_none(t, '?', n + 1, e);
    assert(parse_request(t) == Ok::<RequestView, u16>(bare_view(m, p)));
}

/// A bare request for a method that the first route at its path does not bind
/// gets status 405 with the body "method not implemented".
pub proof fn lemma_unbound_method_is_refused<H>(s: Server<H>, m: Method, p: Seq<char>, i: int)
    requires
        is_token(p),
        !p.contains('?'),
        route_from(s.routes(), p, 0) == Some(i),
        !s.routes()[i].binds(m),
    ensures
        s.outcome(bare_request(method_name(m), p)) == OutcomeView::Reply(not_implemented_reply()),
{
    let tok = method_name(m);
    lemma_method_name(m);
    lemma_bare_request(tok, p);
    let t = bare_request(tok, p);
    let n = tok.len() as int;
    let e = n + 1 + p.len();
    assert forall|k: int| n + 1 <= k < e implies t[k] != '?' by {
        assert(t[k] == p[k - n - 1]);
    }
    lemma_find_char_none(t, '?', n + 1, e);
    assert(parse_request(t) == Ok::<RequestView, u16>(bare_view(m, p)));
}

/// A request whose method token is none of the five is refused with 405 before
/// any route is looked at: every server gives it the same reply.
pub proof fn lemma_unknown_method_is_refused<H>(s: Server<H>, tok: Seq<char>, p: Seq<char>)
    requires
        is_token(tok),
        is_token(p),
        method_of(tok) is None,
    ensures
        s.outcome(bare_request(tok, p)) == OutcomeView::Reply(error_reply(405)),
{
    lemma_bare_request(tok, p);
}

/// Identical requests to the same server have identical outcomes: the same reply,
/// or the same handler with the same request.
pub proof fn lemma_repeated_request<H>(s: Server<H>, a: Seq<u8>, b: Seq<u8>)
    requires
        a == b,
    ensures
        s.outcome(lossy_text(a)) == s.outcome(lossy_text(b)),
{
}

} // verus!
