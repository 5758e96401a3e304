use miniserve::{decode, encode, make_response, respond, Content, Decoded, HttpRequest, StatusCode};

fn complete(buf: &[u8]) -> HttpRequest {
    match decode(buf) {
        Decoded::Complete(req) => req,
        Decoded::Incomplete => panic!("incomplete"),
        Decoded::Invalid => panic!("invalid"),
    }
}

fn is_incomplete(buf: &[u8]) -> bool {
    matches!(decode(buf), Decoded::Incomplete)
}

fn is_invalid(buf: &[u8]) -> bool {
    matches!(decode(buf), Decoded::Invalid)
}

#[test]
fn decodes_a_get_request() {
    let req = complete(b"GET /chat HTTP/1.1\r\nHost: localhost\r\n\r\n");
    assert_eq!(req.method, "GET");
    assert_eq!(req.target, "/chat");
    assert_eq!(req.headers.len(), 1);
    assert_eq!(req.headers[0].name, "Host");
    assert_eq!(req.headers[0].value, b"localhost".to_vec());
    assert!(req.body.is_empty());
}

#[test]
fn keeps_the_query_string_in_the_target() {
    let req = complete(b"GET /chat?x=1 HTTP/1.1\r\n\r\n");
    assert_eq!(req.target, "/chat?x=1");
}

#[test]
fn empty_buffer_is_incomplete() {
    assert!(is_incomplete(b""));
}

#[test]
fn partial_head_is_incomplete() {
    assert!(is_incomplete(b"GET /chat HTTP/1.1\r\nHost: loc"));
    assert!(is_incomplete(b"GET /chat HTTP/1.1\r\n"));
}

#[test]
fn body_must_be_fully_buffered() {
    let head = b"POST /chat HTTP/1.1\r\nContent-Length: 5\r\n\r\n".to_vec();
    let mut partial = head.clone();
    partial.extend_from_slice(b"abc");
    assert!(is_incomplete(&partial));
    let mut full = head.clone();
    full.extend_from_slice(b"abcde");
    let req = complete(&full);
    assert_eq!(req.body, b"abcde".to_vec());
}

#[test]
fn body_is_exactly_the_announced_length() {
    let req = complete(b"POST /chat HTTP/1.1\r\nContent-Length: 2\r\n\r\nhello");
    assert_eq!(req.body, b"he".to_vec());
}

#[test]
fn content_length_name_is_case_insensitive() {
    let req = complete(b"POST /x HTTP/1.1\r\ncontent-LENGTH: 3\r\n\r\nabc");
    assert_eq!(req.body, b"abc".to_vec());
}

#[test]
fn no_content_length_means_no_body() {
    let req = complete(b"POST /x HTTP/1.1\r\n\r\nignored");
    assert!(req.body.is_empty());
}

#[test]
fn bad_content_length_is_invalid() {
    assert!(is_invalid(b"POST /x HTTP/1.1\r\nContent-Length: abc\r\n\r\n"));
    assert!(is_invalid(b"POST /x HTTP/1.1\r\nContent-Length: \r\n\r\n"));
    assert!(is_invalid(
        b"POST /x HTTP/1.1\r\nContent-Length: 99999999999999999999999999\r\n\r\n"
    ));
}

#[test]
fn malformed_request_line_is_invalid() {
    assert!(is_invalid(b"GET / HTTP/9.9\r\n\r\n"));
    assert!(is_invalid(b"G(T / HTTP/1.1\r\n\r\n"));
}

#[test]
fn other_methods_decode_too() {
    let req = complete(b"PUT /chat HTTP/1.1\r\n\r\n");
    assert_eq!(req.method, "PUT");
}

#[test]
fn decoding_twice_gives_the_same_request() {
    let buf = b"POST /chat HTTP/1.1\r\nContent-Length: 4\r\nX-A: b\r\n\r\nbody";
    let a = complete(buf);
    let b = complete(buf);
    assert_eq!(a.method, b.method);
    assert_eq!(a.target, b.target);
    assert_eq!(a.body, b.body);
    assert_eq!(a.headers.len(), b.headers.len());
    for (x, y) in a.headers.iter().zip(b.headers.iter()) {
        assert_eq!(x.name, y.name);
        assert_eq!(x.value, y.value);
    }
}

#[test]
fn status_codes_outside_the_range_are_refused() {
    assert!(StatusCode::from_u16(99).is_none());
    assert!(StatusCode::from_u16(1000).is_none());
    assert_eq!(StatusCode::from_u16(100).unwrap().as_u16(), 100);
    assert_eq!(StatusCode::from_u16(999).unwrap().as_u16(), 999);
}

#[test]
fn canonical_reasons() {
    assert_eq!(StatusCode::not_found().canonical_reason(), Some("Not Found"));
    assert_eq!(StatusCode::from_u16(299).unwrap().canonical_reason(), None);
}

#[test]
fn encodes_a_failure_response() {
    let bytes = encode(&make_response(StatusCode::not_found(), "No valid route"));
    assert_eq!(bytes, b"HTTP/1.1 404 Not Found\r\n\r\nNo valid route".to_vec());
}

#[test]
fn encodes_html_content() {
    let bytes = encode(&respond(Ok(Content::Html("<p>hi</p>".to_string()))));
    assert_eq!(
        bytes,
        b"HTTP/1.1 200 OK\r\nContent-Type: text/html\r\nContent-Length: 9\r\n\r\n<p>hi</p>".to_vec()
    );
}

#[test]
fn encodes_json_content_with_its_byte_length() {
    let bytes = encode(&respond(Ok(Content::Json("\"é\"".to_string()))));
    let mut expected =
        b"HTTP/1.1 200 OK\r\nContent-Type: application/json\r\nContent-Length: 4\r\n\r\n".to_vec();
    expected.extend_from_slice("\"é\"".as_bytes());
    assert_eq!(bytes, expected);
}

#[test]
fn encodes_a_long_body_length() {
    let body = "x".repeat(1234);
    let bytes = encode(&respond(Ok(Content::Html(body.clone()))));
    let text = String::from_utf8(bytes).unwrap();
    assert!(text.contains("\r\nContent-Length: 1234\r\n\r\n"));
    assert!(text.ends_with(&body));
}

#[test]
fn handler_failure_response() {
    let bytes = encode(&respond(Err(StatusCode::internal_server_error())));
    assert_eq!(bytes, b"HTTP/1.1 500 Internal Server Error\r\n\r\nHandler failed".to_vec());
}

#[test]
fn code_without_reason_has_no_phrase() {
    let bytes = encode(&make_response(StatusCode::from_u16(299).unwrap(), ""));
    assert_eq!(bytes, b"HTTP/1.1 299\r\n\r\n".to_vec());
}

fn read_status_line(bytes: &[u8]) -> (u16, String) {
    let text = String::from_utf8(bytes.to_vec()).unwrap();
    let line = text.split("\r\n").next().unwrap();
    let rest = line.strip_prefix("HTTP/1.1 ").unwrap();
    let (code, reason) = rest.split_at(3);
    (code.parse().unwrap(), reason.strip_prefix(' ').unwrap().to_string())
}

#[test]
fn status_line_reads_back() {
    for code in [100u16, 200, 201, 301, 400, 404, 405, 418, 500, 511] {
        let status = StatusCode::from_u16(code).unwrap();
        let bytes = encode(&make_response(status, "explanation"));
        let (read, reason) = read_status_line(&bytes);
        assert_eq!(read, code);
        assert!(!reason.is_empty());
        assert_eq!(Some(reason.as_str()), status.canonical_reason());
    }
}
