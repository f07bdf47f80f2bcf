use rawhttp::request::{HttpMethod, HttpRequest, ParseError};
use rawhttp::response::{ContentType, Response, Status};
use rawhttp::route::{is_safe_name, route, Route};
use rawhttp::server::{
    after_read, after_write, read_state, Config, ReadState, Step, MAX_REQUEST_BYTES,
};

fn with_dir() -> Config {
    Config::new(Some("/srv/files".to_string()))
}

fn reply_bytes(step: Step) -> Vec<u8> {
    match step {
        Step::Reply(r) => r.to_bytes(),
        _ => panic!("expected a reply"),
    }
}

fn reply_status(step: Step) -> Status {
    match step {
        Step::Reply(r) => r.status,
        _ => panic!("expected a reply"),
    }
}

#[test]
fn echo_hello() {
    let step = with_dir().handle(b"GET /echo/hello HTTP/1.1\r\nHost: localhost\r\n\r\n");
    assert_eq!(
        reply_bytes(step),
        b"HTTP/1.1 200 OK\r\nContent-Type: text/plain\r\nContent-Length: 5\r\n\r\nhello".to_vec()
    );
}

#[test]
fn echo_takes_remainder_verbatim() {
    let step = with_dir().handle(b"GET /echo/a%20b/c HTTP/1.1\r\n\r\n");
    assert_eq!(
        reply_bytes(step),
        b"HTTP/1.1 200 OK\r\nContent-Type: text/plain\r\nContent-Length: 7\r\n\r\na%20b/c".to_vec()
    );
}

#[test]
fn user_agent_verbatim() {
    let raw = b"GET /user-agent HTTP/1.1\r\nHost: localhost\r\nUser-Agent: test-agent/1.0\r\n\r\n";
    match with_dir().handle(raw) {
        Step::Reply(r) => {
            assert_eq!(r.status, Status::Success);
            assert_eq!(r.content_type, Some(ContentType::TextPlain));
            assert_eq!(r.body, b"test-agent/1.0".to_vec());
        }
        _ => panic!("expected a reply"),
    }
}

#[test]
fn user_agent_missing_is_bad_request() {
    let step = with_dir().handle(b"GET /user-agent HTTP/1.1\r\nHost: x\r\n\r\n");
    assert_eq!(reply_bytes(step), b"HTTP/1.1 400 Bad Request\r\nContent-Length: 0\r\n\r\n".to_vec());
}

#[test]
fn header_names_are_case_sensitive() {
    let step = with_dir().handle(b"GET /user-agent HTTP/1.1\r\nuser-agent: x\r\n\r\n");
    assert_eq!(reply_status(step), Status::BadRequest);
}

#[test]
fn root_is_ok_with_empty_body() {
    let step = with_dir().handle(b"GET / HTTP/1.1\r\n\r\n");
    assert_eq!(reply_bytes(step), b"HTTP/1.1 200 OK\r\nContent-Length: 0\r\n\r\n".to_vec());
}

#[test]
fn unknown_paths_are_not_found_for_any_method() {
    for raw in [
        &b"GET /nothing HTTP/1.1\r\n\r\n"[..],
        &b"POST /nothing HTTP/1.1\r\n\r\n"[..],
        &b"GET /echo HTTP/1.1\r\n\r\n"[..],
        &b"POST / HTTP/1.1\r\n\r\n"[..],
        &b"POST /echo/x HTTP/1.1\r\n\r\n"[..],
        &b"GET /file/x HTTP/1.1\r\n\r\n"[..],
    ] {
        let step = with_dir().handle(raw);
        assert_eq!(
            reply_bytes(step),
            b"HTTP/1.1 404 Not Found\r\nContent-Length: 0\r\n\r\n".to_vec()
        );
    }
}

#[test]
fn missing_file_is_not_found() {
    let step = with_dir().handle(b"GET /files/missing.txt HTTP/1.1\r\n\r\n");
    match step {
        Step::ReadFile { dir, name } => {
            assert_eq!(dir, "/srv/files");
            assert_eq!(name, b"missing.txt".to_vec());
        }
        _ => panic!("expected a file read"),
    }
    let r = after_read(None);
    assert_eq!(r.to_bytes(), b"HTTP/1.1 404 Not Found\r\nContent-Length: 0\r\n\r\n".to_vec());
}

#[test]
fn post_then_get_returns_same_bytes() {
    let config = with_dir();
    let body: Vec<u8> = vec![0, 1, 2, 255, 13, 10, 13, 10, 7];
    let mut raw = b"POST /files/x HTTP/1.1\r\nContent-Length: 9\r\n\r\n".to_vec();
    raw.extend_from_slice(&body);
    let mut store: Vec<(Vec<u8>, Vec<u8>)> = Vec::new();
    match config.handle(&raw) {
        Step::WriteFile { dir, name, data } => {
            assert_eq!(dir, "/srv/files");
            assert_eq!(name, b"x".to_vec());
            assert_eq!(data, body);
            store.push((name, data));
        }
        _ => panic!("expected a file write"),
    }
    let created = after_write(true);
    assert_eq!(created.to_bytes(), b"HTTP/1.1 201 Created\r\nContent-Length: 0\r\n\r\n".to_vec());
    match config.handle(b"GET /files/x HTTP/1.1\r\n\r\n") {
        Step::ReadFile { name, .. } => {
            let found = store.iter().find(|(n, _)| *n == name).map(|(_, d)| d.clone());
            let r = after_read(found);
            let mut expected =
                b"HTTP/1.1 200 OK\r\nContent-Type: application/octet-stream\r\nContent-Length: 9\r\n\r\n"
                    .to_vec();
            expected.extend_from_slice(&body);
            assert_eq!(r.to_bytes(), expected);
        }
        _ => panic!("expected a file read"),
    }
}

#[test]
fn failed_write_is_server_error() {
    assert_eq!(after_write(false).status, Status::InternalServerError);
}

#[test]
fn files_without_directory_is_server_error() {
    let config = Config::new(None);
    let step = config.handle(b"GET /files/a.txt HTTP/1.1\r\n\r\n");
    assert_eq!(reply_status(step), Status::InternalServerError);
    let step = config.handle(b"POST /files/a.txt HTTP/1.1\r\nContent-Length: 1\r\n\r\nz");
    assert_eq!(reply_status(step), Status::InternalServerError);
}

#[test]
fn post_without_body_is_bad_request() {
    let step = with_dir().handle(b"POST /files/a.txt HTTP/1.1\r\nContent-Length: 0\r\n\r\n");
    assert_eq!(reply_status(step), Status::BadRequest);
}

#[test]
fn escaping_names_are_forbidden() {
    for raw in [
        &b"GET /files/../etc/passwd HTTP/1.1\r\n\r\n"[..],
        &b"GET /files//etc/passwd HTTP/1.1\r\n\r\n"[..],
        &b"GET /files/a/../../b HTTP/1.1\r\n\r\n"[..],
        &b"POST /files/.. HTTP/1.1\r\nContent-Length: 1\r\n\r\nz"[..],
    ] {
        assert_eq!(reply_status(with_dir().handle(raw)), Status::Forbidden);
    }
}

#[test]
fn safe_names() {
    assert!(is_safe_name(b"a.txt"));
    assert!(is_safe_name(b"dir/a.txt"));
    assert!(is_safe_name(b"..a/b.."));
    assert!(is_safe_name(b""));
    assert!(is_safe_name(b"a/.."));
    assert!(is_safe_name(b"a/../b"));
    assert!(is_safe_name(b"./a//b/."));
    assert!(!is_safe_name(b"/a"));
    assert!(!is_safe_name(b".."));
    assert!(!is_safe_name(b"a/../.."));
    assert!(!is_safe_name(b"a/../../b/c/d"));
    assert!(!is_safe_name(b"./../a"));
}

#[test]
fn names_that_stay_inside_are_served() {
    match with_dir().handle(b"GET /files/a/../b HTTP/1.1\r\n\r\n") {
        Step::ReadFile { name, .. } => assert_eq!(name, b"a/../b".to_vec()),
        _ => panic!("expected a file read"),
    }
    match with_dir().handle(b"POST /files/a/../b HTTP/1.1\r\nContent-Length: 2\r\n\r\nhi") {
        Step::WriteFile { name, data, .. } => {
            assert_eq!(name, b"a/../b".to_vec());
            assert_eq!(data, b"hi".to_vec());
        }
        _ => panic!("expected a file write"),
    }
    match with_dir().handle(b"GET /files/ HTTP/1.1\r\n\r\n") {
        Step::ReadFile { name, .. } => assert!(name.is_empty()),
        _ => panic!("expected a file read"),
    }
}

#[test]
fn two_tokens_abandon_without_reply() {
    match with_dir().handle(b"GET /echo/hello\r\n\r\n") {
        Step::Abandon(e) => assert_eq!(e, ParseError::InvalidRequestLine),
        _ => panic!("expected no reply"),
    }
}

#[test]
fn request_line_shapes() {
    let bad: [&[u8]; 5] = [
        b"GET / HTTP/1.1 extra\r\n\r\n",
        b"GET  / HTTP/1.1\r\n\r\n",
        b"GET\r\n\r\n",
        b"",
        b"GET\t/\tHTTP/1.1\r\n\r\n",
    ];
    for raw in bad {
        assert!(matches!(HttpRequest::from_request_bytes(raw), Err(ParseError::InvalidRequestLine)));
    }
}

#[test]
fn unsupported_method() {
    let r = HttpRequest::from_request_bytes(b"PUT /files/x HTTP/1.1\r\n\r\n");
    assert!(matches!(r, Err(ParseError::UnsupportedMethod)));
    let r = HttpRequest::from_request_bytes(b"get / HTTP/1.1\r\n\r\n");
    assert!(matches!(r, Err(ParseError::UnsupportedMethod)));
}

#[test]
fn body_without_content_length() {
    let r = HttpRequest::from_request_bytes(b"POST /files/x HTTP/1.1\r\n\r\nabc");
    assert!(matches!(r, Err(ParseError::MissingContentLength)));
}

#[test]
fn invalid_content_length() {
    for v in ["abc", "-1", "+", "++3", "+-3", "", "3 ", "99999999999999999999999"] {
        let raw = format!("POST /files/x HTTP/1.1\r\nContent-Length: {}\r\n\r\nabc", v);
        let r = HttpRequest::from_request_bytes(raw.as_bytes());
        assert!(matches!(r, Err(ParseError::InvalidContentLength)), "{}", v);
    }
}

#[test]
fn content_length_with_plus_sign() {
    let r = HttpRequest::from_request_bytes(b"POST /files/x HTTP/1.1\r\nContent-Length: +3\r\n\r\nabcdef")
        .unwrap();
    assert_eq!(r.body, Some(b"abc".to_vec()));
}

#[test]
fn body_shorter_than_declared() {
    let r = HttpRequest::from_request_bytes(b"POST /files/x HTTP/1.1\r\nContent-Length: 5\r\n\r\nabc");
    assert!(matches!(r, Err(ParseError::IncompleteBody)));
}

#[test]
fn body_is_cut_at_declared_length() {
    let r = HttpRequest::from_request_bytes(b"POST /files/x HTTP/1.1\r\nContent-Length: 3\r\n\r\nabcdef")
        .unwrap();
    assert_eq!(r.body, Some(b"abc".to_vec()));
}

#[test]
fn parsed_fields() {
    let raw = b"POST /files/x HTTP/1.1\r\nA: 1\r\nnot a header\r\nA: 2\r\nB: x: y\r\nContent-Length: 2\r\n\r\nhi";
    let r = HttpRequest::from_request_bytes(raw).unwrap();
    assert_eq!(r.method, HttpMethod::POST);
    assert_eq!(r.path, b"/files/x".to_vec());
    assert_eq!(r.version, b"HTTP/1.1".to_vec());
    assert_eq!(r.headers.len(), 4);
    assert_eq!(r.header(b"A"), Some(&b"2".to_vec()));
    assert_eq!(r.header(b"B"), Some(&b"x: y".to_vec()));
    assert_eq!(r.header(b"C"), None);
    assert_eq!(r.body, Some(b"hi".to_vec()));
}

#[test]
fn no_body_without_trailing_bytes() {
    let r = HttpRequest::from_request_bytes(b"GET / HTTP/1.1\r\nHost: a").unwrap();
    assert_eq!(r.method, HttpMethod::GET);
    assert_eq!(r.header(b"Host"), Some(&b"a".to_vec()));
    assert_eq!(r.body, None);
}

#[test]
fn parse_from_str() {
    let r = HttpRequest::from_request_str("GET /echo/h\u{e9} HTTP/1.1\r\n\r\n").unwrap();
    assert_eq!(r.path, "/echo/h\u{e9}".as_bytes().to_vec());
    assert!(matches!(
        HttpRequest::from_request_str("DELETE / HTTP/1.1\r\n\r\n"),
        Err(ParseError::UnsupportedMethod)
    ));
}

#[test]
fn routes() {
    assert_eq!(route(HttpMethod::GET, b"/"), Route::Root);
    assert_eq!(route(HttpMethod::GET, b"/echo/"), Route::Echo);
    assert_eq!(route(HttpMethod::GET, b"/user-agentx"), Route::UserAgent);
    assert_eq!(route(HttpMethod::GET, b"/files/a"), Route::GetFile);
    assert_eq!(route(HttpMethod::POST, b"/files/a"), Route::PostFile);
    assert_eq!(route(HttpMethod::POST, b"/echo/a"), Route::NotFound);
    assert_eq!(route(HttpMethod::GET, b"//"), Route::NotFound);
}

#[test]
fn content_length_for_binary_and_large_bodies() {
    let r = Response { status: Status::Success, content_type: Some(ContentType::OctetStream), body: vec![0u8; 1234] };
    let bytes = r.to_bytes();
    let head = b"HTTP/1.1 200 OK\r\nContent-Type: application/octet-stream\r\nContent-Length: 1234\r\n\r\n";
    assert_eq!(&bytes[..head.len()], &head[..]);
    assert_eq!(bytes.len(), head.len() + 1234);
    let r = Response { status: Status::Forbidden, content_type: None, body: b"0123456789".to_vec() };
    assert_eq!(r.to_bytes(), b"HTTP/1.1 403 Forbidden\r\nContent-Length: 10\r\n\r\n0123456789".to_vec());
}

#[test]
fn read_states() {
    assert_eq!(read_state(b"GET / HTTP/1.1\r\nHost: a"), ReadState::NeedMore);
    assert_eq!(read_state(b"GET / HTTP/1.1\r\n\r\n"), ReadState::Complete);
    assert_eq!(read_state(b"POST /files/a HTTP/1.1\r\nContent-Length: 4\r\n\r\nab"), ReadState::NeedMore);
    assert_eq!(read_state(b"POST /files/a HTTP/1.1\r\nContent-Length: 4\r\n\r\nabcd"), ReadState::Complete);
    assert_eq!(read_state(b"POST /files/a HTTP/1.1\r\nContent-Length: x\r\n\r\n"), ReadState::Complete);
    let big = vec![b'a'; MAX_REQUEST_BYTES];
    assert_eq!(read_state(&big), ReadState::TooLarge);
    let mut long_body = b"POST /files/a HTTP/1.1\r\nContent-Length: 100000\r\n\r\n".to_vec();
    long_body.resize(MAX_REQUEST_BYTES, b'z');
    assert_eq!(read_state(&long_body), ReadState::TooLarge);
}
