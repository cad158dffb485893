use srs::Response;

#[test]
fn status_line_for_not_found() {
    let mut res = Response::new();
    let text = res.status(404).send("gone");
    assert!(text.starts_with("HTTP/1.1 404 Not Found\r\n"));
    assert_eq!(
        text,
        "HTTP/1.1 404 Not Found\r\nContent-Type: text/plain\r\nContent-Length: 4\r\n\r\ngone"
    );
}

#[test]
fn status_line_for_unmapped_server_error() {
    let mut res = Response::new();
    let text = res.status(999).send("");
    assert!(text.starts_with("HTTP/1.1 999 Server Error\r\n"));
}

#[test]
fn default_status_is_ok() {
    let res = Response::new();
    assert_eq!(res.status, 200);
    assert_eq!(
        res.send("hello get request"),
        "HTTP/1.1 200 Ok\r\nContent-Type: text/plain\r\nContent-Length: 17\r\n\r\nhello get request"
    );
}

#[test]
fn reason_table() {
    let cases: [(u16, &str); 11] = [
        (200, "Ok"),
        (201, "Created"),
        (204, "No Content"),
        (400, "Bad Request"),
        (401, "Unauthorized"),
        (403, "Forbidden"),
        (404, "Not Found"),
        (405, "Method Not allowed"),
        (500, "Internal Server Error"),
        (502, "Bad Gateway"),
        (503, "Server Unavailable"),
    ];
    for (code, text) in cases {
        assert_eq!(Response::status_text_from_code(code), text);
    }
}

#[test]
fn reason_fallbacks_by_range() {
    assert_eq!(Response::status_text_from_code(0), "Success");
    assert_eq!(Response::status_text_from_code(302), "Success");
    assert_eq!(Response::status_text_from_code(399), "Success");
    assert_eq!(Response::status_text_from_code(418), "Client Error");
    assert_eq!(Response::status_text_from_code(499), "Client Error");
    assert_eq!(Response::status_text_from_code(501), "Server Error");
    assert_eq!(Response::status_text_from_code(65535), "Server Error");
}

#[test]
fn headers_each_on_their_own_line_last_write_wins() {
    let mut res = Response::new();
    res.header(String::from("X-A"), String::from("1"))
        .header(String::from("X-B"), String::from("2"))
        .header(String::from("X-A"), String::from("3"));
    let text = res.status(201).send("ok");
    assert_eq!(
        text,
        "HTTP/1.1 201 Created\r\nContent-Type: text/plain\r\nContent-Length: 2\r\nX-A: 3\r\nX-B: 2\r\n\r\nok"
    );
}

#[test]
fn content_length_counts_bytes() {
    let res = Response::new();
    let text = res.send("h\u{e9}llo w\u{f6}rld");
    assert!(text.contains("\r\nContent-Length: 13\r\n"));
    assert!(text.ends_with("\r\n\r\nh\u{e9}llo w\u{f6}rld"));
}

#[test]
fn identical_responses_are_byte_identical() {
    let mut a = Response::new();
    let mut b = Response::new();
    a.status(200).header(String::from("K"), String::from("V"));
    b.status(200).header(String::from("K"), String::from("V"));
    assert_eq!(a.send("same"), b.send("same"));
}
