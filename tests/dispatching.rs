use srs::{Handler, Method, Outcome, Request, Response, Route, Server};

type H = fn(Request, Response) -> String;

fn hello(_req: Request, mut res: Response) -> String {
    res.status(200).send("hello")
}

fn echo_path(req: Request, res: Response) -> String {
    res.send(&req.path)
}

fn run(server: &Server<H>, bytes: &[u8]) -> Option<String> {
    match server.dispatch(bytes) {
        Outcome::Reply(text) => Some(text),
        Outcome::Invoke(i, req) => match server.route(i).handler(req.method) {
            Some(Handler::Sync(f)) => Some(f(req, Response::new())),
            None => panic!("invoked a method with no handler"),
        },
        Outcome::Unrouted => None,
    }
}

fn all_methods_server(path: &'static str) -> Server<H> {
    let mut route: Route<H> = Route::new(path);
    route.get(hello).post(hello).put(hello).delete(hello).patch(hello);
    let mut server = Server::new();
    server.use_route(route);
    server
}

#[test]
fn every_bound_method_invokes_its_handler() {
    let server = all_methods_server("/a/b");
    for (name, m) in [
        ("GET", Method::GET),
        ("POST", Method::POST),
        ("PUT", Method::PUT),
        ("DELETE", Method::DELETE),
        ("PATCH", Method::PATCH),
    ] {
        let text = format!("{} /a/b HTTP/1.1\r\n\r\n", name);
        match server.dispatch(text.as_bytes()) {
            Outcome::Invoke(i, req) => {
                assert_eq!(i, 0);
                assert_eq!(req.method, m);
                assert_eq!(req.path, "/a/b");
            }
            _ => panic!("expected the handler to be invoked"),
        }
    }
}

#[test]
fn handler_output_is_the_reply() {
    let server = all_methods_server("/");
    let text = run(&server, b"GET / HTTP/1.1\r\n\r\n").unwrap();
    assert_eq!(
        text,
        "HTTP/1.1 200 Ok\r\nContent-Type: text/plain\r\nContent-Length: 5\r\n\r\nhello"
    );
}

#[test]
fn unbound_method_gets_405_not_implemented() {
    let mut route: Route<H> = Route::new("/");
    route.get(hello);
    let mut server = Server::new();
    server.use_route(route);
    let text = run(&server, b"POST / HTTP/1.1\r\n\r\n").unwrap();
    assert!(text.starts_with("HTTP/1.1 405 Method Not allowed\r\n"));
    assert!(text.ends_with("\r\n\r\nmethod not implemented"));
}

#[test]
fn unknown_method_is_refused_before_routing() {
    let server = all_methods_server("/");
    let text = run(&server, b"FOO / HTTP/1.1\r\n\r\n").unwrap();
    assert_eq!(
        text,
        "HTTP/1.1 405 Method Not allowed\r\nContent-Type: text/plain\r\nContent-Length: 18\r\n\r\nMethod Not allowed"
    );
    let empty: Server<H> = Server::new();
    assert_eq!(run(&empty, b"FOO / HTTP/1.1\r\n\r\n").unwrap(), text);
}

#[test]
fn malformed_request_gets_400() {
    let server = all_methods_server("/");
    let text = run(&server, b"GET / HTTP/1.1\r\nx\r\nNoColonHere\r\n\r\n").unwrap();
    assert_eq!(
        text,
        "HTTP/1.1 400 Bad Request\r\nContent-Type: text/plain\r\nContent-Length: 11\r\n\r\nBad Request"
    );
}

#[test]
fn no_matching_route_sends_nothing() {
    let server = all_methods_server("/");
    assert!(matches!(server.dispatch(b"GET /other HTTP/1.1\r\n\r\n"), Outcome::Unrouted));
    assert!(run(&server, b"GET /other HTTP/1.1\r\n\r\n").is_none());
}

#[test]
fn first_matching_route_wins() {
    let mut first: Route<H> = Route::new("/same");
    first.post(hello);
    let mut second: Route<H> = Route::new("/same");
    second.get(echo_path);
    let mut server = Server::new();
    server.use_route(first).use_route(second);
    assert_eq!(server.route_count(), 2);
    assert_eq!(server.find_route(&String::from("/same")), Some(0));
    let text = run(&server, b"GET /same HTTP/1.1\r\n\r\n").unwrap();
    assert!(text.ends_with("method not implemented"));
}

#[test]
fn routing_ignores_the_query() {
    let mut route: Route<H> = Route::new("/search");
    route.get(echo_path);
    let mut server = Server::new();
    server.use_route(route);
    let text = run(&server, b"GET /search?q=rust HTTP/1.1\r\n\r\n").unwrap();
    assert!(text.ends_with("\r\n\r\n/search"));
}

#[test]
fn repeated_requests_get_identical_replies() {
    let server = all_methods_server("/");
    let a = run(&server, b"GET / HTTP/1.1\r\n\r\n").unwrap();
    let b = run(&server, b"GET / HTTP/1.1\r\n\r\n").unwrap();
    assert_eq!(a, b);
}

#[test]
fn route_starts_with_no_handlers() {
    let route: Route<H> = Route::new("/");
    for m in [Method::GET, Method::POST, Method::PUT, Method::DELETE, Method::PATCH] {
        assert!(route.handler(m).is_none());
    }
}

#[test]
fn dispatch_text_reads_characters() {
    let server = all_methods_server("/");
    let text: Vec<char> = "DELETE / HTTP/1.1\r\n\r\n".chars().collect();
    assert!(matches!(server.dispatch_text(&text), Outcome::Invoke(0, _)));
}

#[test]
fn error_response_carries_reason_as_body() {
    assert_eq!(
        srs::server::error_response(400),
        "HTTP/1.1 400 Bad Request\r\nContent-Type: text/plain\r\nContent-Length: 11\r\n\r\nBad Request"
    );
}
