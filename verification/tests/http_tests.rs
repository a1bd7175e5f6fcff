use minihttp::handlers::file_response;
use minihttp::handlers::get_user_agent;
use minihttp::handlers::handle_request;
use minihttp::handlers::user_agent_handler;
use minihttp::handlers::Action;
use minihttp::request::get_body;
use minihttp::request::parse_request;
use minihttp::router::route;
use minihttp::router::HandlerId;
use minihttp::utf8::check_utf8;
use minihttp::wire::not_found;
use minihttp::wire::u64_to_dec;

fn bytes(s: &[u8]) -> Vec<u8> {
    s.to_vec()
}

fn response_of(a: Action) -> Vec<u8> {
    match a {
        Action::Respond(v) => v,
        Action::FetchFile(_) => panic!("expected a finished response"),
    }
}

fn fetch_of(a: Action) -> Vec<u8> {
    match a {
        Action::Respond(_) => panic!("expected a file fetch"),
        Action::FetchFile(n) => n,
    }
}

#[test]
fn root_request_exact() {
    let raw = bytes(b"GET / HTTP/1.1\r\n\r\n");
    let r = response_of(handle_request(&raw));
    assert_eq!(r, bytes(b"HTTP/1.1 200 OK\r\n\r\n"));
}

#[test]
fn echo_round_trip_scenario() {
    let raw = bytes(b"GET /echo/abc HTTP/1.1\r\n\r\n");
    let r = response_of(handle_request(&raw));
    assert_eq!(
        r,
        bytes(b"HTTP/1.1 200 OK\r\nContent-Type: text/plain\r\nContent-Length: 3\r\n\r\nabc")
    );
}

#[test]
fn echo_empty_suffix() {
    let raw = bytes(b"GET /echo/ HTTP/1.1\r\n\r\n");
    let r = response_of(handle_request(&raw));
    assert_eq!(
        r,
        bytes(b"HTTP/1.1 200 OK\r\nContent-Type: text/plain\r\nContent-Length: 0\r\n\r\n")
    );
}

#[test]
fn echo_strips_one_prefix_only() {
    let raw = bytes(b"GET /echo//echo/x HTTP/1.1\r\n\r\n");
    let r = response_of(handle_request(&raw));
    assert_eq!(
        r,
        bytes(b"HTTP/1.1 200 OK\r\nContent-Type: text/plain\r\nContent-Length: 7\r\n\r\n/echo/x")
    );
}

#[test]
fn user_agent_reflection() {
    let raw = bytes(b"GET /user-agent HTTP/1.1\r\nHost: h\r\nUser-Agent: foo/1.0\r\nAccept: */*\r\n\r\n");
    let r = response_of(handle_request(&raw));
    assert_eq!(
        r,
        bytes(b"HTTP/1.1 200 OK\r\nContent-Type: text/plain\r\nContent-Length: 7\r\n\r\nfoo/1.0")
    );
}

#[test]
fn user_agent_missing_header() {
    let raw = bytes(b"GET /user-agent HTTP/1.1\r\nHost: h\r\n\r\n");
    let r = response_of(handle_request(&raw));
    assert_eq!(
        r,
        bytes(b"HTTP/1.1 200 OK\r\nContent-Type: text/plain\r\nContent-Length: 0\r\n\r\n")
    );
}

#[test]
fn user_agent_value_keeps_later_colons() {
    let raw = bytes(b"GET /user-agent HTTP/1.1\r\nUser-Agent: Mozilla:5.0\r\n\r\n");
    let r = response_of(handle_request(&raw));
    assert_eq!(
        r,
        bytes(b"HTTP/1.1 200 OK\r\nContent-Type: text/plain\r\nContent-Length: 11\r\n\r\nMozilla:5.0")
    );
}

#[test]
fn user_agent_handler_direct() {
    let r = user_agent_handler(&bytes(b"Host: h\r\nUser-Agent:  spaced \t"));
    assert_eq!(
        r,
        bytes(b"HTTP/1.1 200 OK\r\nContent-Type: text/plain\r\nContent-Length: 6\r\n\r\nspaced")
    );
}

#[test]
fn get_user_agent_direct() {
    let lines = vec![bytes(b"Host: h"), bytes(b"User-Agent: curl/8.0"), bytes(b"User-Agent: later")];
    assert_eq!(get_user_agent(&lines), bytes(b"curl/8.0"));
    let none: Vec<Vec<u8>> = vec![bytes(b"Host: h")];
    assert_eq!(get_user_agent(&none), bytes(b""));
}

#[test]
fn file_found_utf8_text() {
    let r = file_response(Some(bytes(b"hello")));
    assert_eq!(
        r,
        bytes(
            b"HTTP/1.1 200 OK\r\nContent-Type: application/octet-stream\r\nContent-Length: 5\r\n\r\nhello"
        )
    );
}

#[test]
fn file_missing_is_not_found() {
    let r = file_response(None);
    assert_eq!(r, bytes(b"HTTP/1.1 404 Not Found\r\n\r\n"));
}

#[test]
fn file_invalid_utf8_is_not_found() {
    let r = file_response(Some(vec![0xff, 0xfe, 0x00]));
    assert_eq!(r, bytes(b"HTTP/1.1 404 Not Found\r\n\r\n"));
}

#[test]
fn unknown_target_exact_not_found() {
    let raw = bytes(b"GET /nope HTTP/1.1\r\n\r\n");
    let r = response_of(handle_request(&raw));
    assert_eq!(r, bytes(b"HTTP/1.1 404 Not Found\r\n\r\n"));
}

#[test]
fn echo_without_trailing_slash_is_not_found() {
    let raw = bytes(b"GET /echoXYZ HTTP/1.1\r\n\r\n");
    let r = response_of(handle_request(&raw));
    assert_eq!(r, bytes(b"HTTP/1.1 404 Not Found\r\n\r\n"));
}

#[test]
fn same_request_twice_identical_responses() {
    let raw = bytes(b"GET /echo/twice HTTP/1.1\r\nUser-Agent: a\r\n\r\n");
    let first = response_of(handle_request(&raw));
    let second = response_of(handle_request(&raw));
    assert_eq!(first, second);
}

#[test]
fn files_target_never_echoed() {
    let raw = bytes(b"GET /files/echo/x HTTP/1.1\r\n\r\n");
    let name = fetch_of(handle_request(&raw));
    assert_eq!(name, bytes(b"echo/x"));
}

#[test]
fn route_ordering() {
    assert_eq!(route(&bytes(b"/files/etc")), HandlerId::FileFetch);
    assert_eq!(route(&bytes(b"/files/")), HandlerId::FileFetch);
    assert_eq!(route(&bytes(b"/user-agent")), HandlerId::UserAgent);
    assert_eq!(route(&bytes(b"/user-agentX")), HandlerId::NotFound);
    assert_eq!(route(&bytes(b"/echo/a b")), HandlerId::Echo);
    assert_eq!(route(&bytes(b"/")), HandlerId::Root);
    assert_eq!(route(&bytes(b"")), HandlerId::NotFound);
}

#[test]
fn malformed_without_line_terminator() {
    let raw = bytes(b"GET /");
    let r = response_of(handle_request(&raw));
    assert_eq!(r, bytes(b"HTTP/1.1 400 Bad Request\r\n\r\n"));
}

#[test]
fn malformed_single_token_request_line() {
    let raw = bytes(b"GET\r\n\r\n");
    let r = response_of(handle_request(&raw));
    assert_eq!(r, bytes(b"HTTP/1.1 400 Bad Request\r\n\r\n"));
}

#[test]
fn malformed_invalid_utf8_request() {
    let raw = vec![0xff, 0x47, 0x45, 0x54];
    let r = response_of(handle_request(&raw));
    assert_eq!(r, bytes(b"HTTP/1.1 400 Bad Request\r\n\r\n"));
}

#[test]
fn body_after_blank_line_is_tolerated() {
    let raw = bytes(b"GET / HTTP/1.1\r\nHost: h\r\n\r\nignored body");
    let r = response_of(handle_request(&raw));
    assert_eq!(r, bytes(b"HTTP/1.1 200 OK\r\n\r\n"));
}

#[test]
fn parse_request_fields() {
    let raw = bytes(b"POST /echo/x HTTP/1.1\r\nA: 1\r\nB: 2\r\n\r\npayload");
    let pr = parse_request(&raw).expect("well-formed request");
    assert_eq!(pr.method, bytes(b"POST"));
    assert_eq!(pr.target, bytes(b"/echo/x"));
    assert_eq!(pr.version, bytes(b"HTTP/1.1"));
    assert_eq!(pr.header_block, bytes(b"A: 1\r\nB: 2"));
    assert_eq!(pr.body, bytes(b"payload"));
}

#[test]
fn parse_request_two_tokens_only() {
    let raw = bytes(b"GET /\r\n\r\n");
    let pr = parse_request(&raw).expect("two tokens suffice");
    assert_eq!(pr.method, bytes(b"GET"));
    assert_eq!(pr.target, bytes(b"/"));
    assert_eq!(pr.version, bytes(b""));
}

#[test]
fn get_body_splits_at_blank_line() {
    let (hb, body) = get_body(&bytes(b"A: 1\r\nB: 2\r\n\r\nrest"));
    assert_eq!(hb, bytes(b"A: 1\r\nB: 2"));
    assert_eq!(body, bytes(b"rest"));
    let (hb2, body2) = get_body(&bytes(b"no separator"));
    assert_eq!(hb2, bytes(b""));
    assert_eq!(body2, bytes(b""));
}

#[test]
fn not_found_exact_bytes() {
    assert_eq!(not_found(), bytes(b"HTTP/1.1 404 Not Found\r\n\r\n"));
}

#[test]
fn utf8_checker_accepts_and_rejects() {
    assert!(check_utf8(&bytes("héllo ₀ 𝄞".as_bytes())));
    assert!(check_utf8(&bytes(b"")));
    assert!(!check_utf8(&vec![0xc0, 0x80]));
    assert!(!check_utf8(&vec![0xed, 0xa0, 0x80]));
    assert!(!check_utf8(&vec![0xf4, 0x90, 0x80, 0x80]));
    assert!(!check_utf8(&vec![0xe2, 0x82]));
    assert_eq!(check_utf8(&vec![0xe2, 0x82, 0xac]), true);
}

#[test]
fn decimal_rendering() {
    assert_eq!(u64_to_dec(0), bytes(b"0"));
    assert_eq!(u64_to_dec(7), bytes(b"7"));
    assert_eq!(u64_to_dec(10), bytes(b"10"));
    assert_eq!(u64_to_dec(12345), bytes(b"12345"));
    assert_eq!(u64_to_dec(u64::MAX), bytes(b"18446744073709551615"));
}
