use uniqx::console::{
    event_requirements_hold, find_header, prepare_request_event, prepare_response_event, ConsoleCapture,
    ConsoleRequest, ConsoleResponse,
};
use uniqx::http_head::{
    parse_http_request, parse_http_resonse, try_parse_http_request, try_parse_http_response, ConsoleParseError,
};

fn header(name: &str, value: &str) -> (String, Vec<String>) {
    (name.to_owned(), vec![value.to_owned()])
}

#[test]
fn request_bytes_become_a_console_request() {
    let data = b"POST /test?foo=bar HTTP/1.1\r\nHost: localhost:8080\r\nContent-Length: 5\r\n\r\nhello".to_vec();
    let req = parse_http_request(String::from("r1"), data).unwrap();
    assert_eq!(req.id, "r1");
    assert_eq!(req.method, "POST");
    assert_eq!(req.url, "/test?foo=bar");
    assert_eq!(req.body, b"hello".to_vec());
    assert_eq!(req.headers, vec![header("Host", "localhost:8080"), header("Content-Length", "5")]);
}

#[test]
fn partial_and_broken_requests_are_errors() {
    let partial = parse_http_request(String::from("r"), b"GET / HTTP/1.1\r\nHost: loc".to_vec());
    assert!(matches!(partial, Err(ConsoleParseError::Partial)));
    let broken = parse_http_request(String::from("r"), b"\x00\x01 / HTTP/1.1\r\n\r\n".to_vec());
    assert!(matches!(broken, Err(ConsoleParseError::Malformed(_))));
}

#[test]
fn response_bytes_become_a_console_response() {
    let data = b"HTTP/1.1 200 OK\r\nContent-Length: 12\r\n\r\nHello world!".to_vec();
    let res = parse_http_resonse(String::from("s1"), data).unwrap();
    assert_eq!(res.request_id, "s1");
    assert_eq!(res.status, 200);
    assert_eq!(res.body, b"Hello world!".to_vec());
    assert_eq!(res.headers, vec![header("Content-Length", "12")]);
    let broken = parse_http_resonse(String::from("s1"), b"NOT HTTP\r\n\r\n".to_vec());
    assert!(matches!(broken, Err(ConsoleParseError::Malformed(_))));
}

#[test]
fn unreadable_messages_are_reported_where_they_cannot_be_shown() {
    assert!(try_parse_http_response(String::from("s"), b"HTTP/1.1 200 OK\r\nContent-Le".to_vec()).is_none());
    assert!(try_parse_http_request(String::from("r"), b"GET / HTTP/1.1\r\nX-Raw: \xff\r\n\r\n".to_vec()).is_none());
    assert!(matches!(
        try_parse_http_request(String::from("r"), b"GET / HTTP/1.1\r\n\r\n".to_vec()),
        Some(Ok(_))
    ));
    assert!(matches!(
        try_parse_http_response(String::from("s"), b"\x00".to_vec()),
        Some(Err(ConsoleParseError::Malformed(_)))
    ));
}

#[test]
fn later_header_replaces_earlier() {
    let headers = vec![header("A", "1"), header("B", "2"), header("A", "3")];
    assert_eq!(find_header(&headers, "A"), Some(2));
    assert_eq!(find_header(&headers, "B"), Some(1));
    assert_eq!(find_header(&headers, "a"), None);
    let data = b"GET / HTTP/1.1\r\nX: one\r\nX: two\r\n\r\n".to_vec();
    let req = parse_http_request(String::from("r"), data).unwrap();
    let i = find_header(&req.headers, "X").unwrap();
    assert_eq!(req.headers[i].1, vec![String::from("two")]);
}

fn request(headers: Vec<(String, Vec<String>)>, body: &[u8]) -> ConsoleRequest {
    ConsoleRequest {
        id: String::from("raw"),
        method: String::from("GET"),
        url: String::from("/"),
        body: body.to_vec(),
        headers,
    }
}

#[test]
fn request_awaiting_its_body_is_held_back() {
    let msg = request(vec![header("Content-Length", "5")], b"");
    assert!(event_requirements_hold(&msg.headers, &msg.body));
    assert!(prepare_request_event(msg, "uuid", 1).is_none());
}

#[test]
fn request_event_gets_a_numbered_identifier() {
    let msg = request(vec![header("Content-Length", "5")], b"hello");
    let event = prepare_request_event(msg, "0f9c", 3).unwrap();
    assert_eq!(event.id, "0f9c-00003");
    assert_eq!(event.body, b"hello".to_vec());
    assert_eq!(event.method, "GET");
    let plain = prepare_request_event(request(vec![], b""), "0f9c", 12345).unwrap();
    assert_eq!(plain.id, "0f9c-12345");
}

#[test]
fn oversized_body_is_replaced() {
    let msg = request(vec![header("Content-Length", "100000")], b"partial");
    let event = prepare_request_event(msg, "id", 1).unwrap();
    assert_eq!(event.body, b"body too large".to_vec());
    let at_limit = prepare_request_event(request(vec![header("Content-Length", "65536")], b"x"), "id", 1).unwrap();
    assert_eq!(at_limit.body, b"x".to_vec());
}

#[test]
fn response_event_mirrors_request_event() {
    let msg = ConsoleResponse {
        request_id: String::from("raw"),
        status: 200,
        headers: vec![header("Content-Length", "70000")],
        body: b"data".to_vec(),
    };
    let event = prepare_response_event(msg, "abc", -5).unwrap();
    assert_eq!(event.request_id, "abc-000-5");
    assert_eq!(event.body, b"body too large".to_vec());
    assert_eq!(event.status, 200);
    let waiting = ConsoleResponse {
        request_id: String::new(),
        status: 204,
        headers: vec![header("Content-Length", "3")],
        body: vec![],
    };
    assert!(prepare_response_event(waiting, "abc", 1).is_none());
}

#[test]
fn unreadable_length_is_detected() {
    let headers = vec![header("Content-Length", "abc")];
    assert!(!event_requirements_hold(&headers, &b"x".to_vec()));
    assert!(event_requirements_hold(&headers, &vec![]));
    let empty_values = vec![(String::from("Content-Length"), vec![])];
    assert!(!event_requirements_hold(&empty_values, &vec![]));
    assert!(event_requirements_hold(&vec![header("Other", "abc")], &b"x".to_vec()));
}

#[test]
fn capture_joins_chunks_of_a_segmented_message() {
    let mut capture = ConsoleCapture::new();
    let (data, count) = capture.take_chunk(b"POST / HTTP/1.1\r\nContent-Length: 5\r\n\r\n");
    assert_eq!(count, 1);
    assert_eq!(data, b"POST / HTTP/1.1\r\nContent-Length: 5\r\n\r\n".to_vec());
    capture.record_outcome(Some(true));
    let (data, count) = capture.take_chunk(b"hello");
    assert_eq!(count, 1);
    assert_eq!(data, b"POST / HTTP/1.1\r\nContent-Length: 5\r\n\r\nhello".to_vec());
    capture.record_outcome(Some(false));
    let (data, count) = capture.take_chunk(b"GET / HTTP/1.1\r\n\r\n");
    assert_eq!(count, 2);
    assert_eq!(data, b"GET / HTTP/1.1\r\n\r\n".to_vec());
    capture.record_outcome(None);
    assert!(!capture.was_segmented);
    assert!(capture.can_take_chunk());
}

#[test]
fn capture_count_stops_before_overflow() {
    let mut capture = ConsoleCapture::new();
    capture.req_count = i16::MAX;
    assert!(!capture.can_take_chunk());
    capture.record_outcome(Some(true));
    assert!(capture.can_take_chunk());
}

#[test]
fn parse_errors_carry_their_messages() {
    let partial = parse_http_request(String::from("r"), b"GET / HTTP/1.1\r\nHost: loc".to_vec());
    assert_eq!(partial.err().unwrap().message(), "is partial");
    let broken = parse_http_request(String::from("r"), b"\x00\x01 / HTTP/1.1\r\n\r\n".to_vec());
    assert_eq!(broken.err().unwrap().message(), "invalid token");
    let bad_status = parse_http_resonse(String::from("s"), b"HTTP/1.1 2x0 OK\r\n\r\n".to_vec());
    assert_eq!(bad_status.err().unwrap().message(), "invalid response status");
}
