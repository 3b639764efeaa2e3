use httpcore::conn::Action;
use httpcore::conn::Conn;
use httpcore::conn::Event;
use httpcore::conn::conn_init;
use httpcore::conn::conn_step;
use httpcore::conn::map_default_path;
use httpcore::response::HttpError;
use httpcore::response::Status;
use httpcore::response::classify;
use httpcore::response::serialize_response;

fn line(b: &[u8]) -> Event {
    Event::Line(b.to_vec())
}

/// Drive a fresh connection through the given events; collect every
/// byte vector the handler asks to have written, and return it with
/// the final state.
fn drive(events: Vec<Event>) -> (Conn, Vec<Vec<u8>>, Vec<Action>) {
    let (mut state, mut action) = conn_init();
    let mut written: Vec<Vec<u8>> = Vec::new();
    let mut actions: Vec<Action> = vec![action];
    for e in events {
        let (s, a) = conn_step(state, e);
        state = s;
        match &a {
            Action::WriteThenRead(b) => written.push(b.clone()),
            Action::WriteThenClose(b) => written.push(b.clone()),
            _ => {},
        }
        action = a;
        actions.push(action);
    }
    let _ = action;
    (state, written, actions)
}

#[test]
fn init_awaits_a_line() {
    let (state, action) = conn_init();
    assert!(matches!(state, Conn::AwaitRequestLine));
    assert!(matches!(action, Action::ReadLine));
}

#[test]
fn root_path_serves_index() {
    let (s1, a1) = conn_step(Conn::AwaitRequestLine, line(b"GET / HTTP/1.1\r\n"));
    assert!(matches!(a1, Action::ReadLine));
    let (s2, a2) = conn_step(s1, line(b"\r\n"));
    match &a2 {
        Action::Resolve(p) => assert_eq!(p, &b"/index.html".to_vec()),
        _ => panic!("expected a resolve action"),
    }
    let (s3, a3) = conn_step(s2, Event::Content(b"hi".to_vec()));
    match &a3 {
        Action::WriteThenRead(b) => {
            assert_eq!(b, &b"HTTP/1.1 200 OK\r\nContent-Length: 2\r\n\r\nhi".to_vec())
        }
        _ => panic!("expected a write-then-read action"),
    }
    assert!(matches!(s3, Conn::AwaitRequestLine));
}

#[test]
fn missing_resource_yields_exact_404() {
    let (s1, _) = conn_step(Conn::AwaitRequestLine, line(b"GET /nope HTTP/1.1\r\n"));
    let (s2, a2) = conn_step(s1, line(b"\r\n"));
    match &a2 {
        Action::Resolve(p) => assert_eq!(p, &b"/nope".to_vec()),
        _ => panic!("expected a resolve action"),
    }
    let (s3, a3) = conn_step(s2, Event::Missing);
    match &a3 {
        Action::WriteThenClose(b) => {
            assert_eq!(b, &b"HTTP/1.1 404 Not Found\r\nContent-Length: 0\r\n\r\n".to_vec())
        }
        _ => panic!("expected a write-then-close action"),
    }
    assert!(matches!(s3, Conn::Closed));
}

#[test]
fn two_token_request_line_yields_400() {
    let (s, a) = conn_step(Conn::AwaitRequestLine, line(b"GET /\r\n"));
    match &a {
        Action::WriteThenClose(b) => {
            assert_eq!(b, &b"HTTP/1.1 400 Bad Request\r\nContent-Length: 0\r\n\r\n".to_vec())
        }
        _ => panic!("expected a write-then-close action"),
    }
    assert!(matches!(s, Conn::Closed));
}

#[test]
fn four_token_request_line_yields_400() {
    let (s, a) = conn_step(Conn::AwaitRequestLine, line(b"GET / HTTP/1.1 extra\r\n"));
    assert!(matches!(a, Action::WriteThenClose(_)));
    assert!(matches!(s, Conn::Closed));
}

#[test]
fn version_not_starting_with_http_yields_400() {
    let (s, a) = conn_step(Conn::AwaitRequestLine, line(b"GET / FOO\r\n"));
    match &a {
        Action::WriteThenClose(b) => {
            assert_eq!(b, &b"HTTP/1.1 400 Bad Request\r\nContent-Length: 0\r\n\r\n".to_vec())
        }
        _ => panic!("expected a write-then-close action"),
    }
    assert!(matches!(s, Conn::Closed));
}

#[test]
fn eof_before_any_request_closes_cleanly() {
    let (state, written, actions) = drive(vec![Event::Eof]);
    assert!(matches!(state, Conn::Closed));
    assert!(written.is_empty());
    assert!(matches!(actions.last().unwrap(), Action::CloseNow));
}

#[test]
fn stray_blank_line_before_request_is_skipped() {
    let (s1, a1) = conn_step(Conn::AwaitRequestLine, line(b"\r\n"));
    assert!(matches!(s1, Conn::AwaitRequestLine));
    assert!(matches!(a1, Action::ReadLine));
    let (_, a2) = conn_step(s1, line(b"GET / HTTP/1.1\r\n"));
    assert!(matches!(a2, Action::ReadLine));
}

#[test]
fn headers_without_content_length_give_empty_body() {
    let (s1, _) = conn_step(Conn::AwaitRequestLine, line(b"GET /p HTTP/1.1\r\n"));
    let (s2, _) = conn_step(s1, line(b"Host: here\r\n"));
    let (s3, _) = conn_step(s2, line(b"X-One: 1\r\n"));
    let (s4, a4) = conn_step(s3, line(b"\r\n"));
    assert!(matches!(a4, Action::Resolve(_)));
    match s4 {
        Conn::AwaitContent { request } => {
            assert!(request.body.is_empty());
            assert_eq!(request.method, b"GET".to_vec());
            assert_eq!(request.path, b"/p".to_vec());
            assert_eq!(request.version, b"HTTP/1.1".to_vec());
            assert_eq!(request.header.len(), 2);
            let host = httpcore::request::find_header(&request.header, &b"Host".to_vec());
            assert_eq!(host, Some(b"here".to_vec()));
        }
        _ => panic!("expected the request to be complete"),
    }
}

#[test]
fn duplicate_header_keeps_last_value() {
    let (s1, _) = conn_step(Conn::AwaitRequestLine, line(b"GET / HTTP/1.1\r\n"));
    let (s2, _) = conn_step(s1, line(b"A: 1\r\n"));
    let (s3, _) = conn_step(s2, line(b"B: 2\r\n"));
    let (s4, _) = conn_step(s3, line(b"A: 3\r\n"));
    let (s5, _) = conn_step(s4, line(b"\r\n"));
    match s5 {
        Conn::AwaitContent { request } => {
            assert_eq!(request.header.len(), 2);
            let a = httpcore::request::find_header(&request.header, &b"A".to_vec());
            assert_eq!(a, Some(b"3".to_vec()));
            let b = httpcore::request::find_header(&request.header, &b"B".to_vec());
            assert_eq!(b, Some(b"2".to_vec()));
        }
        _ => panic!("expected the request to be complete"),
    }
}

#[test]
fn declared_body_is_read_exactly() {
    let (s1, _) = conn_step(Conn::AwaitRequestLine, line(b"POST /x HTTP/1.1\r\n"));
    let (s2, _) = conn_step(s1, line(b"Content-Length: 5\r\n"));
    let (s3, a3) = conn_step(s2, line(b"\r\n"));
    match a3 {
        Action::ReadBody(n) => assert_eq!(n, 5),
        _ => panic!("expected a read-body action"),
    }
    let (s4, a4) = conn_step(s3, Event::Body(b"hello".to_vec()));
    match &a4 {
        Action::Resolve(p) => assert_eq!(p, &b"/x".to_vec()),
        _ => panic!("expected a resolve action"),
    }
    match s4 {
        Conn::AwaitContent { request } => {
            assert_eq!(request.body, b"hello".to_vec());
        }
        _ => panic!("expected the request to be complete"),
    }
}

#[test]
fn duplicate_content_length_keeps_last_value() {
    let (s1, _) = conn_step(Conn::AwaitRequestLine, line(b"POST / HTTP/1.1\r\n"));
    let (s2, _) = conn_step(s1, line(b"Content-Length: 3\r\n"));
    let (s3, _) = conn_step(s2, line(b"Content-Length: 2\r\n"));
    let (_, a) = conn_step(s3, line(b"\r\n"));
    match a {
        Action::ReadBody(n) => assert_eq!(n, 2),
        _ => panic!("expected a read-body action"),
    }
}

#[test]
fn short_body_is_fatal_without_response() {
    let (s1, _) = conn_step(Conn::AwaitRequestLine, line(b"POST / HTTP/1.1\r\n"));
    let (s2, _) = conn_step(s1, line(b"Content-Length: 5\r\n"));
    let (s3, _) = conn_step(s2, line(b"\r\n"));
    let (s4, a4) = conn_step(s3, Event::Eof);
    assert!(matches!(a4, Action::CloseNow));
    assert!(matches!(s4, Conn::Closed));
}

#[test]
fn unparseable_content_length_is_fatal_without_response() {
    let (s1, _) = conn_step(Conn::AwaitRequestLine, line(b"GET / HTTP/1.1\r\n"));
    let (s2, _) = conn_step(s1, line(b"Content-Length: abc\r\n"));
    let (s3, a3) = conn_step(s2, line(b"\r\n"));
    assert!(matches!(a3, Action::CloseNow));
    assert!(matches!(s3, Conn::Closed));
}

#[test]
fn malformed_header_line_yields_400() {
    let (s1, _) = conn_step(Conn::AwaitRequestLine, line(b"GET / HTTP/1.1\r\n"));
    let (s2, a2) = conn_step(s1, line(b"no separator here\r\n"));
    match &a2 {
        Action::WriteThenClose(b) => {
            assert_eq!(b, &b"HTTP/1.1 400 Bad Request\r\nContent-Length: 0\r\n\r\n".to_vec())
        }
        _ => panic!("expected a write-then-close action"),
    }
    assert!(matches!(s2, Conn::Closed));
}

#[test]
fn eof_inside_headers_yields_400() {
    let (s1, _) = conn_step(Conn::AwaitRequestLine, line(b"GET / HTTP/1.1\r\n"));
    let (s2, a2) = conn_step(s1, Event::Eof);
    assert!(matches!(a2, Action::WriteThenClose(_)));
    assert!(matches!(s2, Conn::Closed));
}

#[test]
fn resolver_fault_yields_500() {
    let (s1, _) = conn_step(Conn::AwaitRequestLine, line(b"GET / HTTP/1.1\r\n"));
    let (s2, _) = conn_step(s1, line(b"\r\n"));
    let (s3, a3) = conn_step(s2, Event::ResolveFault);
    match &a3 {
        Action::WriteThenClose(b) => {
            assert_eq!(
                b,
                &b"HTTP/1.1 500 Internal Server Error\r\nContent-Length: 0\r\n\r\n".to_vec()
            )
        }
        _ => panic!("expected a write-then-close action"),
    }
    assert!(matches!(s3, Conn::Closed));
}

#[test]
fn io_fault_closes_without_response() {
    let (s, a) = conn_step(Conn::AwaitRequestLine, Event::IoFault);
    assert!(matches!(a, Action::CloseNow));
    assert!(matches!(s, Conn::Closed));
}

#[test]
fn same_request_twice_gets_identical_responses() {
    let events = || {
        vec![
            line(b"GET / HTTP/1.1\r\n"),
            line(b"Host: h\r\n"),
            line(b"\r\n"),
            Event::Content(b"same body".to_vec()),
        ]
    };
    let (_, w1, _) = drive(events());
    let (_, w2, _) = drive(events());
    assert_eq!(w1.len(), 1);
    assert_eq!(w1, w2);
}

#[test]
fn keep_alive_serves_two_requests_in_order() {
    let events = vec![
        line(b"GET /a HTTP/1.1\r\n"),
        line(b"\r\n"),
        Event::Content(b"A".to_vec()),
        line(b"GET /b HTTP/1.1\r\n"),
        line(b"\r\n"),
        Event::Content(b"BB".to_vec()),
    ];
    let (state, written, _) = drive(events);
    assert!(matches!(state, Conn::AwaitRequestLine));
    assert_eq!(written.len(), 2);
    assert_eq!(written[0], b"HTTP/1.1 200 OK\r\nContent-Length: 1\r\n\r\nA".to_vec());
    assert_eq!(written[1], b"HTTP/1.1 200 OK\r\nContent-Length: 2\r\n\r\nBB".to_vec());
}

#[test]
fn map_default_path_rewrites_only_the_root() {
    assert_eq!(map_default_path(&b"/".to_vec()), b"/index.html".to_vec());
    assert_eq!(map_default_path(&b"/a.html".to_vec()), b"/a.html".to_vec());
    assert_eq!(map_default_path(&b"".to_vec()), b"".to_vec());
}

#[test]
fn classify_maps_each_failure_to_its_status() {
    assert_eq!(classify(Some(HttpError::BadRequest)), Status::BadRequest);
    assert_eq!(classify(Some(HttpError::NotFound)), Status::NotFound);
    assert_eq!(classify(None), Status::InternalServerError);
}

#[test]
fn status_codes_and_reasons_are_paired() {
    assert_eq!(Status::Success.code(), 200);
    assert_eq!(Status::Success.reason(), b"OK".to_vec());
    assert_eq!(Status::BadRequest.code(), 400);
    assert_eq!(Status::BadRequest.reason(), b"Bad Request".to_vec());
    assert_eq!(Status::NotFound.code(), 404);
    assert_eq!(Status::NotFound.reason(), b"Not Found".to_vec());
    assert_eq!(Status::InternalServerError.code(), 500);
    assert_eq!(Status::InternalServerError.reason(), b"Internal Server Error".to_vec());
}

#[test]
fn serialize_appends_caller_supplied_connection_header() {
    let body = b"ok".to_vec();
    let conn_value = b"Keep-Alive".to_vec();
    let r = serialize_response(&Status::Success, Some(&conn_value), &body);
    assert_eq!(
        r,
        b"HTTP/1.1 200 OK\r\nContent-Length: 2\r\nConnection: Keep-Alive\r\n\r\nok".to_vec()
    );
}

#[test]
fn serialize_renders_multi_digit_lengths() {
    let body = vec![120u8; 1234];
    let r = serialize_response(&Status::Success, None, &body);
    let head = b"HTTP/1.1 200 OK\r\nContent-Length: 1234\r\n\r\n".to_vec();
    assert_eq!(&r[..head.len()], &head[..]);
    assert_eq!(r.len(), head.len() + 1234);
}
