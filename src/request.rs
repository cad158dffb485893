use vstd::prelude::*;
use vstd::slice::slice_subrange;
use vstd::string::*;

use crate::strmap::StrMap;
use crate::text::{
    content_end, content_end_at, decode_lossy, find_blank_line, find_blank_line_at, find_char,
    find_char_at, find_colon_space, find_colon_space_at, line_end, line_end_at, lossy_text,
    skip_token, skip_token_at, skip_ws, skip_ws_at, string_of,
};

verus! {

/// The request methods the server knows.
#[derive(Debug, Clone, Copy, PartialEq, Eq, Structural)]
pub enum Method {
    GET,
    POST,
    PUT,
    DELETE,
    PATCH,
}

/// The method that a request line's first token names, matched case-sensitively.
pub open spec fn method_of(s: Seq<char>) -> Option<Method> {
    if s == seq!['G', 'E', 'T'] {
        Some(Method::GET)
    } else if s == seq!['P', 'O', 'S', 'T'] {
        Some(Method::POST)
    } else if s == seq!['P', 'U', 'T'] {
        Some(Method::PUT)
    } else if s == seq!['D', 'E', 'L', 'E', 'T', 'E'] {
        Some(Method::DELETE)
    } else if s == seq!['P', 'A', 'T', 'C', 'H'] {
        Some(Method::PATCH)
    } else {
        None
    }
}

/// The token that names `m` on a request line.
pub open spec fn method_name(m: Method) -> Seq<char> {
    match m {
        Method::GET => seq!['G', 'E', 'T'],
        Method::POST => seq!['P', 'O', 'S', 'T'],
        Method::PUT => seq!['P', 'U', 'T'],
        Method::DELETE => seq!['D', 'E', 'L', 'E', 'T', 'E'],
        Method::PATCH => seq!['P', 'A', 'T', 'C', 'H'],
    }
}

/// A request as values: what the server reads out of the text it received.
pub struct RequestView {
    pub method: Method,
    pub path: Seq<char>,
    pub original_path: Seq<char>,
    pub query: Map<Seq<char>, Seq<char>>,
    pub headers: Map<Seq<char>, Seq<char>>,
    pub body: Seq<char>,
}

/// The query pairs of `t[start, end)`: segments split on `&`, each split once on
/// its first `=`; a segment without `=` adds nothing. `j` is where the scan for
/// the end of the current segment, which starts at `start`, stands.
pub open spec fn query_scan(
    t: Seq<char>,
    start: int,
    j: int,
    end: int,
    acc: Map<Seq<char>, Seq<char>>,
) -> Map<Seq<char>, Seq<char>>
    decreases end - j,
{
    if j >= end {
        add_pair(t, start, end, acc)
    } else if t[j] == '&' {
        query_scan(t, j + 1, j + 1, end, add_pair(t, start, j, acc))
    } else {
        query_scan(t, start, j + 1, end, acc)
    }
}

/// `acc` with the pair that the segment `t[a, b)` holds, if it holds an `=`.
pub open spec fn add_pair(t: Seq<char>, a: int, b: int, acc: Map<Seq<char>, Seq<char>>) -> Map<
    Seq<char>,
    Seq<char>,
> {
    let q = find_char(t, '=', a, b);
    if q < b {
        acc.insert(t.subrange(a, q), t.subrange(q + 1, b))
    } else {
        acc
    }
}

/// Where the line after the one that starts at `i` starts, or the length of `t`.
pub open spec fn next_line(t: Seq<char>, i: int) -> int {
    if line_end(t, i) < t.len() {
        line_end(t, i) + 1
    } else {
        t.len() as int
    }
}

/// A line ends at or after where it starts, and within the text.
pub proof fn lemma_line_end_bounds(t: Seq<char>, i: int)
    requires
        0 <= i <= t.len(),
    ensures
        i <= line_end(t, i) <= t.len(),
    decreases t.len() - i,
{
    if i < t.len() && t[i] != '\n' {
        lemma_line_end_bounds(t, i + 1);
    }
}

/// The headers of the lines from the one that starts at `h` up to the first empty
/// line or the end; `None` where such a line holds no `": "`.
pub open spec fn header_scan(t: Seq<char>, h: int, acc: Map<Seq<char>, Seq<char>>) -> Option<
    Map<Seq<char>, Seq<char>>,
>
    decreases t.len() - h,
    via header_scan_decreases
{
    if h < 0 || h >= t.len() {
        Some(acc)
    } else {
        let ce = content_end(t, h);
        if ce == h {
            Some(acc)
        } else {
            let k = find_colon_space(t, h, ce);
            if k >= ce {
                None
            } else {
                header_scan(
                    t,
                    next_line(t, h),
                    acc.insert(t.subrange(h, k), t.subrange(k + 2, ce)),
                )
            }
        }
    }
}

#[via_fn]
proof fn header_scan_decreases(t: Seq<char>, h: int, acc: Map<Seq<char>, Seq<char>>) {
    if 0 <= h < t.len() {
        lemma_line_end_bounds(t, h);
    }
}

/// The body: what follows the first `"\r\n\r\n"`, or nothing where there is none.
pub open spec fn body_of(t: Seq<char>) -> Seq<char> {
    let k = find_blank_line(t, 0);
    if k < t.len() {
        t.subrange(k + 4, t.len() as int)
    } else {
        Seq::empty()
    }
}

/// What the server makes of the text `t` of a request: the request, or the status
/// code that rejects it (400 for a malformed request line or header line, 405 for
/// an unknown method).
pub open spec fn parse_request(t: Seq<char>) -> Result<RequestView, u16> {
    if t.len() == 0 {
        Err(400)
    } else {
        let le = content_end(t, 0);
        let a0 = skip_ws(t, 0, le);
        let b0 = skip_token(t, a0, le);
        let a1 = skip_ws(t, b0, le);
        let b1 = skip_token(t, a1, le);
        if a1 >= le {
            Err(400)
        } else {
            match method_of(t.subrange(a0, b0)) {
                None => Err(405),
                Some(m) => {
                    let q = find_char(t, '?', a1, b1);
                    let query = if q < b1 {
                        query_scan(t, q + 1, q + 1, b1, Map::empty())
                    } else {
                        Map::empty()
                    };
                    match header_scan(t, next_line(t, next_line(t, 0)), Map::empty()) {
                        None => Err(400),
                        Some(headers) => Ok(
                            RequestView {
                                method: m,
                                path: t.subrange(a1, q),
                                original_path: t.subrange(a1, b1),
                                query,
                                headers,
                                body: body_of(t),
                            },
                        ),
                    }
                },
            }
        }
    }
}

/// How many bytes one read from a connection asks for.
pub const CHUNK_SIZE: usize = 1024;

/// Adds to `buffer` the bytes that one read of at most `CHUNK_SIZE` bytes gave.
/// Returns whether to read again: only after a full chunk, as a shorter one (or
/// none, when the peer closed) means nothing more is there yet.
pub fn take_chunk(buffer: &mut Vec<u8>, chunk: &[u8]) -> (more: bool)
    requires
        chunk@.len() <= CHUNK_SIZE,
    ensures
        final(buffer)@ == old(buffer)@ + chunk@,
        more == (chunk@.len() == CHUNK_SIZE),
{
    buffer.extend_from_slice(chunk);
    assert(buffer@ =~= old(buffer)@ + chunk@);
    chunk.len() == CHUNK_SIZE
}

/// A request, as a handler receives it.
#[derive(Debug)]
pub struct Request {
    pub method: Method,
    /// The path without its query.
    pub path: String,
    /// The path as the request line gave it.
    pub original_path: String,
    pub query: StrMap,
    pub headers: StrMap,
    pub body: String,
}

impl View for Request {
    type V = RequestView;

    open spec fn view(&self) -> RequestView {
        RequestView {
            method: self.method,
            path: self.path@,
            original_path: self.original_path@,
            query: self.query@,
            headers: self.headers@,
            body: self.body@,
        }
    }
}

/// A parse result, as values.
pub open spec fn parsed_view(r: Result<Request, u16>) -> Result<RequestView, u16> {
    match r {
        Ok(req) => Ok(req@),
        Err(c) => Err(c),
    }
}

/// Where the line after the one that starts at `i` starts.
fn next_line_at(t: &[char], i: usize) -> (r: usize)
    requires
        i <= t@.len(),
    ensures
        r == next_line(t@, i as int),
        r <= t@.len(),
        i < t@.len() ==> i < r,
{
    let e = line_end_at(t, i);
    if e < t.len() {
        e + 1
    } else {
        e
    }
}

/// The characters `t[a, b)` as a string.
fn sub_string(t: &[char], a: usize, b: usize) -> (r: String)
    requires
        a <= b <= t@.len(),
    ensures
        r@ == t@.subrange(a as int, b as int),
{
    string_of(slice_subrange(t, a, b))
}

/// Adds the pair of the query segment `t[a, b)` to `map`, if it has one.
fn insert_pair(t: &[char], a: usize, b: usize, map: &mut StrMap)
    requires
        a <= b <= t@.len(),
    ensures
        final(map)@ == add_pair(t@, a as int, b as int, old(map)@),
{
    let q = find_char_at(t, '=', a, b);
    if q < b {
        map.insert(sub_string(t, a, q), sub_string(t, q + 1, b));
    }
}

/// The query pairs of `t[start, end)`.
fn parse_query(t: &[char], start: usize, end: usize) -> (r: StrMap)
    requires
        start <= end <= t@.len(),
    ensures
        r@ == query_scan(t@, start as int, start as int, end as int, Map::empty()),
{
    let mut query = StrMap::new();
    let mut seg = start;
    let mut j = start;
    while j < end
        invariant
            start <= seg <= j <= end <= t@.len(),
            query_scan(t@, seg as int, j as int, end as int, query@) == query_scan(
                t@,
                start as int,
                start as int,
                end as int,
                Map::empty(),
            ),
        decreases end - j,
    {
        if t[j] == '&' {
            insert_pair(t, seg, j, &mut query);
            j = j + 1;
            seg = j;
        } else {
            j = j + 1;
        }
    }
    insert_pair(t, seg, end, &mut query);
    query
}

/// The headers of the lines from `start` on; `None` on a malformed line.
fn parse_headers(t: &[char], start: usize) -> (r: Option<StrMap>)
    requires
        start <= t@.len(),
    ensures
        match r {
            Some(h) => header_scan(t@, start as int, Map::empty()) == Some(h@),
            None => header_scan(t@, start as int, Map::empty()) is None,
        },
{
    let mut headers = StrMap::new();
    let mut h = start;
    while h < t.len()
        invariant
            h <= t@.len(),
            header_scan(t@, h as int, headers@) == header_scan(t@, start as int, Map::empty()),
        ensures
            header_scan(t@, start as int, Map::empty()) == Some(headers@),
        decreases t@.len() - h,
    {
        let ce = content_end_at(t, h);
        if ce == h {
            assert(header_scan(t@, h as int, headers@) == Some(headers@));
            break;
        }
        let k = find_colon_space_at(t, h, ce);
        if k >= ce {
            return None;
        }
        headers.insert(sub_string(t, h, k), sub_string(t, k + 2, ce));
        h = next_line_at(t, h);
    }
    Some(headers)
}

impl Request {
    /// A request made of its parts.
    pub fn new(
        method: Method,
        path: String,
        original_path: String,
        query: StrMap,
        headers: StrMap,
        body: String,
    ) -> (r: Self)
        ensures
            r.method == method,
            r.path == path,
            r.original_path == original_path,
            r.query == query,
            r.headers == headers,
            r.body == body,
    {
        Self { method, path, original_path, query, headers, body }
    }

    /// The method that `method` names, if it is one of the five.
    pub fn parse_method(method: &str) -> (r: Option<Method>)
        ensures
            r == method_of(method@),
    {
        proof {
            reveal_strlit("GET");
            reveal_strlit("POST");
            reveal_strlit("PUT");
            reveal_strlit("DELETE");
            reveal_strlit("PATCH");
            assert("GET"@ =~= seq!['G', 'E', 'T']);
            assert("POST"@ =~= seq!['P', 'O', 'S', 'T']);
            assert("PUT"@ =~= seq!['P', 'U', 'T']);
            assert("DELETE"@ =~= seq!['D', 'E', 'L', 'E', 'T', 'E']);
            assert("PATCH"@ =~= seq!['P', 'A', 'T', 'C', 'H']);
        }
        let s = String::from_str(method);
        if s == String::from_str("GET") {
            Some(Method::GET)
        } else if s == String::from_str("POST") {
            Some(Method::POST)
        } else if s == String::from_str("PUT") {
            Some(Method::PUT)
        } else if s == String::from_str("DELETE") {
            Some(Method::DELETE)
        } else if s == String::from_str("PATCH") {
            Some(Method::PATCH)
        } else {
            None
        }
    }

    /// Reads a request out of its decoded text.
    pub fn parse_text(t: &[char]) -> (r: Result<Request, u16>)
        ensures
            parsed_view(r) == parse_request(t@),
    {
        if t.len() == 0 {
            return Err(400);
        }
        let le = content_end_at(t, 0);
        let a0 = skip_ws_at(t, 0, le);
        let b0 = skip_token_at(t, a0, le);
        let a1 = skip_ws_at(t, b0, le);
        let b1 = skip_token_at(t, a1, le);
        if a1 >= le {
            return Err(400);
        }
        let token = sub_string(t, a0, b0);
        let method = match Request::parse_method(token.as_str()) {
            None => {
                return Err(405);
            },
            Some(m) => m,
        };
        let original_path = sub_string(t, a1, b1);
        let q = find_char_at(t, '?', a1, b1);
        let path = sub_string(t, a1, q);
        let query = if q < b1 {
            parse_query(t, q + 1, b1)
        } else {
            StrMap::new()
        };
        let second = next_line_at(t, 0);
        let headers = match parse_headers(t, next_line_at(t, second)) {
            None => {
                return Err(400);
            },
            Some(h) => h,
        };
        let k = find_blank_line_at(t);
        let body = if k < t.len() {
            sub_string(t, k + 4, t.len())
        } else {
            String::new()
        };
        let r = Request::new(method, path, original_path, query, headers, body);
        assert(r@ == parse_request(t@).unwrap());
        Ok(r)
    }

    /// Reads a request out of the bytes received, decoded as UTF-8 with invalid
    /// sequences replaced.
    pub fn parse(bytes: &[u8]) -> (r: Result<Request, u16>)
        ensures
            parsed_view(r) == parse_request(lossy_text(bytes@)),
    {
        let t = decode_lossy(bytes);
        Request::parse_text(t.as_slice())
    }
}

} // verus!
