use srs::{Method, Request};

fn parse(text: &str) -> Result<Request, u16> {
    Request::parse(text.as_bytes())
}

#[test]
fn parse_method_knows_the_five_verbs() {
    assert_eq!(Request::parse_method("GET"), Some(Method::GET));
    assert_eq!(Request::parse_method("POST"), Some(Method::POST));
    assert_eq!(Request::parse_method("PUT"), Some(Method::PUT));
    assert_eq!(Request::parse_method("DELETE"), Some(Method::DELETE));
    assert_eq!(Request::parse_method("PATCH"), Some(Method::PATCH));
}

#[test]
fn parse_method_is_case_sensitive() {
    assert_eq!(Request::parse_method("get"), None);
    assert_eq!(Request::parse_method("FOO"), None);
    assert_eq!(Request::parse_method(""), None);
}

#[test]
fn query_is_split_and_segments_without_equals_are_dropped() {
    let req = parse("GET /search?q=rust&x=1&bad HTTP/1.1\r\n\r\n").unwrap();
    assert_eq!(req.method, Method::GET);
    assert_eq!(req.path, "/search");
    assert_eq!(req.original_path, "/search?q=rust&x=1&bad");
    assert_eq!(req.query.get("q").unwrap(), "rust");
    assert_eq!(req.query.get("x").unwrap(), "1");
    assert!(req.query.get("bad").is_none());
    assert_eq!(req.query.len(), 2);
}

#[test]
fn query_last_value_wins_and_splits_on_first_equals() {
    let req = parse("GET /p?a=1&a=2&b=x=y HTTP/1.1\r\n\r\n").unwrap();
    assert_eq!(req.query.get("a").unwrap(), "2");
    assert_eq!(req.query.get("b").unwrap(), "x=y");
    assert_eq!(req.query.len(), 2);
}

#[test]
fn path_without_query_is_kept_whole() {
    let req = parse("PUT /items/7 HTTP/1.1\r\n\r\n").unwrap();
    assert_eq!(req.method, Method::PUT);
    assert_eq!(req.path, "/items/7");
    assert_eq!(req.original_path, "/items/7");
    assert_eq!(req.query.len(), 0);
}

#[test]
fn header_from_third_line_is_read() {
    let req = parse("GET / HTTP/1.1\r\nSkipped: yes\r\nHost: example.com\r\n\r\n").unwrap();
    assert_eq!(req.headers.get("Host").unwrap(), "example.com");
    assert!(req.headers.get("Skipped").is_none());
    assert_eq!(req.headers.len(), 1);
}

#[test]
fn malformed_header_line_is_bad_request() {
    let r = parse("GET / HTTP/1.1\r\nSkipped: yes\r\nNoColonHere\r\n\r\n");
    assert_eq!(r.unwrap_err(), 400);
}

#[test]
fn header_value_keeps_later_colons() {
    let req = parse("GET / HTTP/1.1\r\nx\r\nA: b: c\r\nA: d\r\n\r\n").unwrap();
    assert_eq!(req.headers.get("A").unwrap(), "d");
    let req = parse("GET / HTTP/1.1\r\nx\r\nT: 1: 2\r\n\r\n").unwrap();
    assert_eq!(req.headers.get("T").unwrap(), "1: 2");
}

#[test]
fn empty_input_is_bad_request() {
    assert_eq!(parse("").unwrap_err(), 400);
}

#[test]
fn single_token_request_line_is_bad_request() {
    assert_eq!(parse("GET\r\n\r\n").unwrap_err(), 400);
    assert_eq!(parse("\r\nGET / HTTP/1.1\r\n").unwrap_err(), 400);
}

#[test]
fn unknown_method_is_method_not_allowed() {
    assert_eq!(parse("FOO / HTTP/1.1\r\n\r\n").unwrap_err(), 405);
    assert_eq!(parse("get / HTTP/1.1\r\n\r\n").unwrap_err(), 405);
}

#[test]
fn unknown_method_wins_over_bad_header() {
    assert_eq!(parse("FOO / HTTP/1.1\r\nx\r\nbad\r\n\r\n").unwrap_err(), 405);
}

#[test]
fn body_follows_first_blank_line() {
    let req = parse("POST /form HTTP/1.1\r\nx\r\nContent-Length: 5\r\n\r\nhello\r\n\r\nworld").unwrap();
    assert_eq!(req.method, Method::POST);
    assert_eq!(req.body, "hello\r\n\r\nworld");
}

#[test]
fn body_is_empty_without_blank_line() {
    let req = parse("DELETE /x HTTP/1.1\n").unwrap();
    assert_eq!(req.method, Method::DELETE);
    assert_eq!(req.body, "");
}

#[test]
fn tokens_split_on_any_white_space() {
    let req = parse("  PATCH\t/a?k=v   HTTP/1.1\r\n\r\n").unwrap();
    assert_eq!(req.method, Method::PATCH);
    assert_eq!(req.path, "/a");
    assert_eq!(req.query.get("k").unwrap(), "v");
}

#[test]
fn invalid_utf8_is_replaced_not_rejected() {
    let req = Request::parse(b"GET /\xff HTTP/1.1\r\n\r\n").unwrap();
    assert_eq!(req.path, "/\u{FFFD}");
}

#[test]
fn parse_text_reads_characters() {
    let text: Vec<char> = "GET /t?a=b HTTP/1.1\r\n\r\n".chars().collect();
    let req = Request::parse_text(&text).unwrap();
    assert_eq!(req.path, "/t");
    assert_eq!(req.query.get("a").unwrap(), "b");
}

#[test]
fn full_chunk_asks_for_more() {
    let mut buffer: Vec<u8> = vec![1, 2];
    let chunk = [7u8; srs::request::CHUNK_SIZE];
    assert!(srs::request::take_chunk(&mut buffer, &chunk));
    assert_eq!(buffer.len(), 2 + srs::request::CHUNK_SIZE);
    assert_eq!(buffer[2], 7);
}

#[test]
fn short_or_empty_chunk_ends_reading() {
    let mut buffer: Vec<u8> = Vec::new();
    assert!(!srs::request::take_chunk(&mut buffer, b"GET / HTTP/1.1\r\n\r\n"));
    assert_eq!(buffer, b"GET / HTTP/1.1\r\n\r\n".to_vec());
    assert!(!srs::request::take_chunk(&mut buffer, b""));
    assert_eq!(buffer.len(), 18);
}
