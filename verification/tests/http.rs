use psionic::headers::Headers;
use psionic::http::{
    get_response_type_str, HttpRequest, HttpRequestHeader, HttpResponse, HttpVerb,
};
use psionic::server::parse_request;

fn buffer_of(bytes: &[u8]) -> [u8; 4096] {
    let mut buffer = [0u8; 4096];
    buffer[..bytes.len()].copy_from_slice(bytes);
    buffer
}

#[test]
fn verb_is_read_in_any_case() {
    assert_eq!(HttpVerb::from_str("GET"), Ok(HttpVerb::GET));
    assert_eq!(HttpVerb::from_str("get"), Ok(HttpVerb::GET));
    assert_eq!(HttpVerb::from_str("Head"), Ok(HttpVerb::HEAD));
    assert_eq!(HttpVerb::from_str("post"), Ok(HttpVerb::POST));
    assert_eq!(HttpVerb::from_str("PUT"), Ok(HttpVerb::PUT));
    assert_eq!(HttpVerb::from_str("delete"), Ok(HttpVerb::DELETE));
    assert_eq!(HttpVerb::from_str("CONNECT"), Ok(HttpVerb::CONNECT));
    assert_eq!(HttpVerb::from_str("options"), Ok(HttpVerb::OPTIONS));
    assert_eq!(HttpVerb::from_str("TRACE"), Ok(HttpVerb::TRACE));
    assert_eq!(HttpVerb::from_str("patch"), Ok(HttpVerb::PATCH));
}

#[test]
fn unknown_verb_is_refused() {
    assert_eq!(HttpVerb::from_str("BOGUS"), Err("Unknown http verb"));
    assert_eq!(HttpVerb::from_str(""), Err("Unknown http verb"));
    assert_eq!(HttpVerb::from_str("GET "), Err("Unknown http verb"));
}

#[test]
fn head_is_parsed() {
    let text = "POST /run HTTP/1.1\r\nHost: localhost:7878\r\nContent-Length: 12\r\nX-Tag: a";
    let header = HttpRequestHeader::parse_from_string(text.to_string()).unwrap();
    assert_eq!(header.verb, HttpVerb::POST);
    assert_eq!(header.route, "/run");
    assert_eq!(header.http_version, "HTTP/1.1");
    assert_eq!(header.content_length, 12);
    assert_eq!(header.headers.len(), 3);
    assert_eq!(header.headers.get(&"HOST".to_string()), Some(&"localhost:7878".to_string()));
    assert_eq!(header.headers.get(&"CONTENT-LENGTH".to_string()), Some(&"12".to_string()));
    assert_eq!(header.headers.get(&"X-TAG".to_string()), Some(&"a".to_string()));
    assert_eq!(header.headers.get(&"Host".to_string()), None);
}

#[test]
fn header_names_are_folded_and_kept_in_order() {
    let text = "GET / HTTP/1.1\r\nb-name: 1\r\na-name: 2";
    let header = HttpRequestHeader::parse_from_string(text.to_string()).unwrap();
    assert_eq!(header.headers.entry(0).name, "B-NAME");
    assert_eq!(header.headers.entry(0).value, "1");
    assert_eq!(header.headers.entry(1).name, "A-NAME");
    assert_eq!(header.headers.entry(1).value, "2");
}

#[test]
fn later_header_replaces_earlier_of_same_name() {
    let text = "GET / HTTP/1.1\r\nX-A: 1\r\nX-B: 2\r\nx-a: 3";
    let header = HttpRequestHeader::parse_from_string(text.to_string()).unwrap();
    assert_eq!(header.headers.len(), 2);
    assert_eq!(header.headers.entry(0).name, "X-A");
    assert_eq!(header.headers.entry(0).value, "3");
    assert_eq!(header.headers.entry(1).name, "X-B");
}

#[test]
fn header_value_ends_at_second_colon_space() {
    let text = "GET / HTTP/1.1\r\nX-A: one: two";
    let header = HttpRequestHeader::parse_from_string(text.to_string()).unwrap();
    assert_eq!(header.headers.get(&"X-A".to_string()), Some(&"one".to_string()));
}

#[test]
fn line_without_colon_space_declares_no_header() {
    let text = "GET / HTTP/1.1\r\nX-A:1\r\n\r";
    let header = HttpRequestHeader::parse_from_string(text.to_string()).unwrap();
    assert_eq!(header.headers.len(), 0);
    assert_eq!(header.content_length, 0);
}

#[test]
fn content_length_that_is_no_number_is_passed_over() {
    let text = "GET / HTTP/1.1\r\nContent-Length: 7\r\nContent-Length: seven";
    let header = HttpRequestHeader::parse_from_string(text.to_string()).unwrap();
    assert_eq!(header.content_length, 7);
    assert_eq!(header.headers.get(&"CONTENT-LENGTH".to_string()), Some(&"seven".to_string()));
}

#[test]
fn content_length_is_never_negative() {
    let text = "GET / HTTP/1.1\r\nContent-Length: -5";
    let header = HttpRequestHeader::parse_from_string(text.to_string()).unwrap();
    assert_eq!(header.content_length, 0);
    assert_eq!(header.headers.get(&"CONTENT-LENGTH".to_string()), Some(&"-5".to_string()));
    let text = "GET / HTTP/1.1\r\ncontent-length: 7\r\nContent-Length: -5";
    let header = HttpRequestHeader::parse_from_string(text.to_string()).unwrap();
    assert_eq!(header.content_length, 7);
    assert_eq!(header.headers.get(&"CONTENT-LENGTH".to_string()), Some(&"-5".to_string()));
    let text = "GET / HTTP/1.1\r\nContent-Length: -2147483648";
    let header = HttpRequestHeader::parse_from_string(text.to_string()).unwrap();
    assert_eq!(header.content_length, 0);
    let text = "GET / HTTP/1.1\r\nContent-Length: -0";
    let header = HttpRequestHeader::parse_from_string(text.to_string()).unwrap();
    assert_eq!(header.content_length, 0);
    let text = "GET / HTTP/1.1\r\nContent-Length: 2147483647";
    let header = HttpRequestHeader::parse_from_string(text.to_string()).unwrap();
    assert_eq!(header.content_length, i32::MAX);
    let text = "GET / HTTP/1.1\r\nContent-Length: +5";
    let header = HttpRequestHeader::parse_from_string(text.to_string()).unwrap();
    assert_eq!(header.content_length, 5);
    let text = "GET / HTTP/1.1\r\nContent-Length: 2147483648";
    let header = HttpRequestHeader::parse_from_string(text.to_string()).unwrap();
    assert_eq!(header.content_length, 0);
}

#[test]
fn request_line_with_too_few_parts_is_refused() {
    let parsed = HttpRequestHeader::parse_from_string("GET /".to_string());
    assert_eq!(parsed.err(), Some("Malformed request line"));
    let parsed = HttpRequestHeader::parse_from_string("GET".to_string());
    assert_eq!(parsed.err(), Some("Malformed request line"));
    let parsed = HttpRequestHeader::parse_from_string("".to_string());
    assert_eq!(parsed.err(), Some("Unknown http verb"));
    let parsed = HttpRequestHeader::parse_from_string("BOGUS".to_string());
    assert_eq!(parsed.err(), Some("Unknown http verb"));
}

#[test]
fn request_line_with_more_parts_keeps_the_first_three() {
    let header = HttpRequestHeader::parse_from_string("GET /a b c".to_string()).unwrap();
    assert_eq!(header.route, "/a");
    assert_eq!(header.http_version, "b");
}

#[test]
fn head_is_found_in_buffer() {
    let wire = b"GET /info HTTP/1.1\r\nHost: h\r\n\r\nBODY";
    let (header, start) = HttpRequestHeader::create_from_buffer(buffer_of(wire)).unwrap();
    assert_eq!(header.verb, HttpVerb::GET);
    assert_eq!(header.route, "/info");
    assert_eq!(header.headers.len(), 1);
    assert_eq!(start, wire.len() - 4);
    assert_eq!(&wire[start..], b"BODY");
}

#[test]
fn buffer_without_empty_line_is_refused() {
    let found = HttpRequestHeader::create_from_buffer([b'a'; 4096]);
    assert_eq!(found.err(), Some("Request header larger than buffer"));
    let found = HttpRequestHeader::create_from_buffer([0u8; 4096]);
    assert_eq!(found.err(), Some("Request header larger than buffer"));
}

#[test]
fn empty_line_at_the_very_start_does_not_end_the_head() {
    let found = HttpRequestHeader::create_from_buffer(buffer_of(b"\r\n\r\n"));
    assert_eq!(found.err(), Some("Request header larger than buffer"));
    let found = HttpRequestHeader::create_from_buffer(buffer_of(b"a\r\n\r\n"));
    assert_eq!(found.err(), Some("Request header larger than buffer"));
    let found = HttpRequestHeader::create_from_buffer(buffer_of(b"ab\r\n\r\n"));
    assert_eq!(found.err(), Some("Unknown http verb"));
}

#[test]
fn bytes_that_are_no_text_are_replaced() {
    let wire = b"GET /\xff HTTP/1.1\r\n\r\n";
    let (header, _) = HttpRequestHeader::create_from_buffer(buffer_of(wire)).unwrap();
    assert_eq!(header.route, "/\u{fffd}");
}

#[test]
fn bogus_request_is_refused() {
    let request = parse_request(buffer_of(b"BOGUS / HTTP/1.1\r\n\r\n"));
    assert_eq!(request.err(), Some("Unknown http verb"));
}

#[test]
fn body_within_buffer_is_attached() {
    let wire = b"POST /run HTTP/1.1\r\nContent-Length: 5\r\n\r\nhello world";
    let request = parse_request(buffer_of(wire)).unwrap();
    assert_eq!(request.header.content_length, 5);
    assert_eq!(request.body, Some(b"hello".to_vec()));
}

#[test]
fn body_beyond_buffer_is_left_out() {
    let wire = b"POST /run HTTP/1.1\r\nContent-Length: 4096\r\n\r\nhello";
    let request = parse_request(buffer_of(wire)).unwrap();
    assert_eq!(request.header.content_length, 4096);
    assert_eq!(request.body, None);
}

#[test]
fn body_that_ends_with_buffer_is_attached() {
    let head = b"POST /run HTTP/1.1\r\nContent-Length: 4052\r\n\r\n";
    assert_eq!(head.len() + 4052, 4096);
    let mut buffer = [b'x'; 4096];
    buffer[..head.len()].copy_from_slice(head);
    let request = parse_request(buffer).unwrap();
    assert_eq!(request.body, Some(vec![b'x'; 4052]));
    let longer = b"POST /run HTTP/1.1\r\nContent-Length: 4053\r\n\r\n";
    let mut buffer = [b'x'; 4096];
    buffer[..longer.len()].copy_from_slice(longer);
    let request = parse_request(buffer).unwrap();
    assert_eq!(request.body, None);
}

#[test]
fn request_without_length_has_no_body() {
    let request = parse_request(buffer_of(b"GET / HTTP/1.1\r\n\r\nrest")).unwrap();
    assert_eq!(request.body, None);
    let wire = b"GET / HTTP/1.1\r\nContent-Length: -3\r\n\r\nrest";
    let request = parse_request(buffer_of(wire)).unwrap();
    assert_eq!(request.header.content_length, 0);
    assert_eq!(request.body, None);
}

#[test]
fn request_is_made_of_its_parts() {
    let header = HttpRequestHeader::parse_from_string("GET / HTTP/1.1".to_string()).unwrap();
    let request = HttpRequest::create(header, Some(vec![1, 2, 3])).unwrap();
    assert_eq!(request.header.route, "/");
    assert_eq!(request.body, Some(vec![1, 2, 3]));
}

#[test]
fn written_head_is_read_back() {
    let text = "PATCH /items/7 HTTP/1.0\r\nAccept: text/html\r\nx-trace: a:b";
    let header = HttpRequestHeader::parse_from_string(text.to_string()).unwrap();
    assert_eq!(header.verb, HttpVerb::PATCH);
    assert_eq!(header.route, "/items/7");
    assert_eq!(header.http_version, "HTTP/1.0");
    assert_eq!(header.headers.len(), 2);
    assert_eq!(header.headers.entry(0).name, "ACCEPT");
    assert_eq!(header.headers.entry(0).value, "text/html");
    assert_eq!(header.headers.entry(1).name, "X-TRACE");
    assert_eq!(header.headers.entry(1).value, "a:b");
    assert_eq!(header.content_length, 0);
}

#[test]
fn reason_phrases() {
    assert_eq!(get_response_type_str(200), "OK");
    assert_eq!(get_response_type_str(400), "Bad Request");
    assert_eq!(get_response_type_str(401), "Unauthorized");
    assert_eq!(get_response_type_str(404), "Not Found");
    assert_eq!(get_response_type_str(405), "Method Not Allowed");
    assert_eq!(get_response_type_str(500), "Internal Error");
    assert_eq!(get_response_type_str(201), "Unknown");
    assert_eq!(get_response_type_str(-1), "Unknown");
}

#[test]
fn response_carries_standard_headers() {
    let response = HttpResponse::create(200, "text/html".to_string(), Some(b"<p>hi</p>".to_vec()));
    assert_eq!(response.http_version, "HTTP/1.1");
    assert_eq!(response.code, 200);
    assert_eq!(response.content_type, "text/html");
    assert_eq!(response.headers.len(), 4);
    assert_eq!(response.headers.get(&"Server".to_string()), Some(&"Psionic 0.0.1".to_string()));
    assert_eq!(response.headers.get(&"Content-Length".to_string()), Some(&"9".to_string()));
    assert_eq!(response.headers.get(&"Connection".to_string()), Some(&"Closed".to_string()));
    assert_eq!(response.headers.get(&"Content-Type".to_string()), Some(&"text/html".to_string()));
    assert_eq!(response.body, Some(b"<p>hi</p>".to_vec()));
}

#[test]
fn response_without_body_declares_length_zero() {
    let response = HttpResponse::create(404, "text/plain".to_string(), None);
    assert_eq!(response.headers.get(&"Content-Length".to_string()), Some(&"0".to_string()));
    assert_eq!(response.body, None);
}

#[test]
fn response_bytes_are_in_order() {
    let mut response = HttpResponse::create(200, "text/plain".to_string(), Some(b"hello".to_vec()));
    let expected = "HTTP/1.1 200 OK\r\nServer: Psionic 0.0.1\r\nContent-Length: 5\r\n\
                    Connection: Closed\r\nContent-Type: text/plain\r\n\r\nhello";
    assert_eq!(response.to_bytes(), expected.as_bytes().to_vec());
    assert_eq!(response.code, 200);
    assert_eq!(response.body, Some(b"hello".to_vec()));
}

#[test]
fn response_bytes_without_body() {
    let mut response = HttpResponse::create(500, "text/plain".to_string(), None);
    let expected = "HTTP/1.1 500 Internal Error\r\nServer: Psionic 0.0.1\r\nContent-Length: 0\r\n\
                    Connection: Closed\r\nContent-Type: text/plain\r\n\r\n";
    assert_eq!(response.to_bytes(), expected.as_bytes().to_vec());
}

#[test]
fn response_bytes_with_unknown_and_negative_code() {
    let mut response = HttpResponse::create(201, "text/plain".to_string(), None);
    assert!(response.to_bytes().starts_with(b"HTTP/1.1 201 Unknown\r\n"));
    let mut response = HttpResponse::create(-32768, "text/plain".to_string(), None);
    assert!(response.to_bytes().starts_with(b"HTTP/1.1 -32768 Unknown\r\n"));
}

#[test]
fn response_bytes_follow_the_header_table() {
    let mut response = HttpResponse::create(200, "a/b".to_string(), Some(vec![0xff, 0x00]));
    response.headers.insert("X-More".to_string(), "yes".to_string());
    response.headers.insert("Server".to_string(), "Other".to_string());
    let mut expected = "HTTP/1.1 200 OK\r\nServer: Other\r\nContent-Length: 2\r\n\
                        Connection: Closed\r\nContent-Type: a/b\r\nX-More: yes\r\n\r\n"
        .as_bytes()
        .to_vec();
    expected.extend_from_slice(&[0xff, 0x00]);
    assert_eq!(response.to_bytes(), expected);
}

#[test]
fn header_table_keeps_each_name_once() {
    let mut headers = Headers::new();
    assert_eq!(headers.len(), 0);
    headers.insert("A".to_string(), "1".to_string());
    headers.insert("B".to_string(), "2".to_string());
    headers.insert("A".to_string(), "3".to_string());
    assert_eq!(headers.len(), 2);
    assert_eq!(headers.get(&"A".to_string()), Some(&"3".to_string()));
    assert_eq!(headers.get(&"B".to_string()), Some(&"2".to_string()));
    assert_eq!(headers.get(&"C".to_string()), None);
    assert_eq!(headers.entry(0).name, "A");
    assert_eq!(headers.entry(1).name, "B");
}

#[test]
fn ascii_names_are_folded_letter_by_letter() {
    let name: String = (0u8..128)
        .map(|b| b as char)
        .filter(|c| !matches!(c, ':' | '\r' | '\n'))
        .collect();
    let text = format!("GET / HTTP/1.1\r\n{}: v", name);
    let header = HttpRequestHeader::parse_from_string(text).unwrap();
    assert_eq!(header.headers.len(), 1);
    assert_eq!(header.headers.entry(0).name, name.to_ascii_uppercase());
    assert_eq!(header.headers.entry(0).value, "v");
}

#[test]
fn other_names_are_folded_as_unicode_has_it() {
    let text = "GET / HTTP/1.1\r\nstraße: 1\r\nébène: 2";
    let header = HttpRequestHeader::parse_from_string(text.to_string()).unwrap();
    assert_eq!(header.headers.entry(0).name, "STRASSE");
    assert_eq!(header.headers.entry(1).name, "ÉBÈNE");
}

#[test]
fn text_of_more_than_one_byte_is_read() {
    let wire = "GET /caf\u{e9}/\u{4e2d} HTTP/1.1\r\nX-N: \u{1f600}\r\n\r\n";
    let (header, start) =
        HttpRequestHeader::create_from_buffer(buffer_of(wire.as_bytes())).unwrap();
    assert_eq!(header.route, "/caf\u{e9}/\u{4e2d}");
    assert_eq!(header.headers.get(&"X-N".to_string()), Some(&"\u{1f600}".to_string()));
    assert_eq!(start, wire.len());
}

#[test]
fn written_request_is_read_back_from_buffer() {
    let body = b"{\"n\":1}";
    let head = format!(
        "PUT /things/1 HTTP/1.1\r\nHost: example.org\r\nAccept: */*\r\nContent-Length: {}",
        body.len()
    );
    let mut wire = head.clone().into_bytes();
    wire.extend_from_slice(b"\r\n\r\n");
    wire.extend_from_slice(body);
    let request = parse_request(buffer_of(&wire)).unwrap();
    assert_eq!(request.header.verb, HttpVerb::PUT);
    assert_eq!(request.header.route, "/things/1");
    assert_eq!(request.header.http_version, "HTTP/1.1");
    assert_eq!(request.header.content_length, 7);
    assert_eq!(request.header.headers.len(), 3);
    assert_eq!(request.header.headers.entry(0).name, "HOST");
    assert_eq!(request.header.headers.entry(0).value, "example.org");
    assert_eq!(request.header.headers.entry(1).name, "ACCEPT");
    assert_eq!(request.header.headers.entry(1).value, "*/*");
    assert_eq!(request.header.headers.entry(2).name, "CONTENT-LENGTH");
    assert_eq!(request.header.headers.entry(2).value, "7");
    assert_eq!(request.body, Some(body.to_vec()));
}

#[test]
fn header_name_may_hold_a_colon() {
    let text = "GET / HTTP/1.1\r\na:b: v\r\n:c: w";
    let header = HttpRequestHeader::parse_from_string(text.to_string()).unwrap();
    assert_eq!(header.headers.len(), 2);
    assert_eq!(header.headers.entry(0).name, "A:B");
    assert_eq!(header.headers.entry(0).value, "v");
    assert_eq!(header.headers.entry(1).name, ":C");
    assert_eq!(header.headers.entry(1).value, "w");
}

#[test]
fn written_request_of_any_text_is_read_back_from_buffer() {
    let body = "\u{e9}t\u{e9}".as_bytes();
    let head = format!(
        "POST /caf\u{e9}/\u{4e2d}\u{6587} HTTP/1.1\r\nX-Nom: Zo\u{eb} \u{1f600}\r\nContent-Length: {}",
        body.len()
    );
    let mut wire = head.clone().into_bytes();
    wire.extend_from_slice(b"\r\n\r\n");
    wire.extend_from_slice(body);
    let (header, start) = HttpRequestHeader::create_from_buffer(buffer_of(&wire)).unwrap();
    assert_eq!(start, head.len() + 4);
    assert_eq!(header.route, "/caf\u{e9}/\u{4e2d}\u{6587}");
    let request = parse_request(buffer_of(&wire)).unwrap();
    assert_eq!(request.header.verb, HttpVerb::POST);
    assert_eq!(request.header.route, "/caf\u{e9}/\u{4e2d}\u{6587}");
    assert_eq!(request.header.headers.entry(0).name, "X-NOM");
    assert_eq!(request.header.headers.entry(0).value, "Zo\u{eb} \u{1f600}");
    assert_eq!(request.header.content_length, 5);
    assert_eq!(request.body, Some(body.to_vec()));
}
