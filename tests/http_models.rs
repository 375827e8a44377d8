use byo_tools::{Request, Response, StatusCode};
use std::io::Read;

fn pairs(v: &[(&str, &str)]) -> Vec<(String, String)> {
    v.iter().map(|(k, x)| (k.to_string(), x.to_string())).collect()
}

#[test]
fn status_code_texts() {
    assert_eq!(StatusCode::OK.to_string(), "200 OK");
    assert_eq!(StatusCode::Created.to_string(), "201 Created");
    assert_eq!(StatusCode::BadRequest.to_string(), "400 Bad Request");
    assert_eq!(StatusCode::NotFound.to_string(), "404 Not Found");
    assert_eq!(StatusCode::InternalServerError.to_string(), "500 Internal Server Error");
    assert_eq!(StatusCode::MethodNotAllowed.to_string(), "405 Method Not Allowed");
}

#[test]
fn response_new_keeps_order_and_replaces_repeated_names() {
    let r = Response::new(
        StatusCode::OK,
        Some(vec![("Content-Type", "text/plain"), ("Content-Length", "3"), ("Content-Type", "text/html")]),
        Some("abc".to_string()),
    );
    assert_eq!(r.version, "HTTP/1.1");
    assert_eq!(r.status_code, StatusCode::OK);
    assert_eq!(r.headers, pairs(&[("Content-Type", "text/html"), ("Content-Length", "3")]));
    assert_eq!(r.body, "abc");
}

#[test]
fn response_new_without_headers_or_body() {
    let r = Response::new(StatusCode::Created, None, None);
    assert!(r.headers.is_empty());
    assert_eq!(r.body, "");
}

#[test]
fn response_from_status_code_only() {
    let r = Response::new_from_status_code(StatusCode::NotFound);
    assert_eq!(r.version, "HTTP/1.1");
    assert!(r.headers.is_empty());
    assert_eq!(r.to_bytes(), b"HTTP/1.1 404 Not Found\r\n\r\n".to_vec());
}

#[test]
fn response_gzip_header_detection() {
    let r = Response::new(StatusCode::OK, Some(vec![("Content-Encoding", "gzip")]), None);
    assert!(r.has_content_encoding_gzip());
    let r = Response::new(StatusCode::OK, Some(vec![("Content-Encoding", "deflate")]), None);
    assert!(!r.has_content_encoding_gzip());
    let r = Response::new(StatusCode::OK, None, None);
    assert!(!r.has_content_encoding_gzip());
}

#[test]
fn response_plain_bytes() {
    let r = Response::new(
        StatusCode::OK,
        Some(vec![("Content-Type", "text/plain"), ("Content-Length", "5")]),
        Some("hello".to_string()),
    );
    assert_eq!(
        r.to_bytes(),
        b"HTTP/1.1 200 OK\r\nContent-Type: text/plain\r\nContent-Length: 5\r\n\r\nhello".to_vec()
    );
}

#[test]
fn response_gzip_bytes_state_compressed_length() {
    let body = "hello hello hello hello";
    let r = Response::new(
        StatusCode::OK,
        Some(vec![("Content-Type", "text/plain"), ("Content-Length", "23"), ("Content-Encoding", "gzip")]),
        Some(body.to_string()),
    );
    let bytes = r.to_bytes();
    let split = bytes.windows(4).position(|w| w == b"\r\n\r\n").unwrap() + 4;
    let head = String::from_utf8(bytes[..split].to_vec()).unwrap();
    let packed = &bytes[split..];
    assert!(head.starts_with("HTTP/1.1 200 OK\r\nContent-Type: text/plain\r\n"));
    assert!(head.contains(&format!("Content-Length: {}\r\n", packed.len())));
    assert!(head.ends_with("Content-Encoding: gzip\r\n\r\n"));
    let mut out = String::new();
    flate2::read::GzDecoder::new(packed).read_to_string(&mut out).unwrap();
    assert_eq!(out, body);
    assert_ne!(packed, body.as_bytes());
}

#[test]
fn request_from_buffer_reads_parts() {
    let mut buffer = b"GET /echo/abc HTTP/1.1\r\nHost: localhost:4221\r\nUser-Agent: curl/7.64.1\r\n\r\n".to_vec();
    buffer.resize(1024, 0);
    let r = Request::new_from_buffer(&buffer).unwrap();
    assert_eq!(r.method, "GET");
    assert_eq!(r.path, "/echo/abc");
    assert_eq!(r.version, "HTTP/1.1");
    assert_eq!(r.headers, pairs(&[("Host", "localhost:4221"), ("User-Agent", "curl/7.64.1")]));
    assert_eq!(r.body, "\0".repeat(1024 - 73));
}

#[test]
fn request_body_between_blank_lines() {
    let r = Request::new_from_buffer(b"POST /files/a HTTP/1.1\r\nContent-Length: 5\r\n\r\n12345").unwrap();
    assert_eq!(r.method, "POST");
    assert_eq!(r.body, "12345");
    let r = Request::new_from_buffer(b"POST /x HTTP/1.1\r\n\r\nab\r\n\r\ncd").unwrap();
    assert_eq!(r.body, "ab");
    assert!(r.headers.is_empty());
}

#[test]
fn request_without_blank_line_has_empty_body() {
    let r = Request::new_from_buffer(b"GET / HTTP/1.1\r\nA: b").unwrap();
    assert_eq!(r.path, "/");
    assert_eq!(r.headers, pairs(&[("A", "b")]));
    assert_eq!(r.body, "");
}

#[test]
fn request_malformed_is_none() {
    assert!(Request::new_from_buffer(b"").is_none());
    assert!(Request::new_from_buffer(b"GET\r\n\r\n").is_none());
    assert!(Request::new_from_buffer(b"GET / HTTP/1.1\r\nNoColon\r\n\r\n").is_none());
}

#[test]
fn request_accept_encoding_lists_gzip() {
    let r = Request::new_from_buffer(b"GET / HTTP/1.1\r\nAccept-Encoding: deflate, gzip, br\r\n\r\n").unwrap();
    assert!(r.has_content_encoding_gzip());
    let r = Request::new_from_buffer(b"GET / HTTP/1.1\r\nAccept-Encoding: gzip\r\n\r\n").unwrap();
    assert!(r.has_content_encoding_gzip());
    let r = Request::new_from_buffer(b"GET / HTTP/1.1\r\nAccept-Encoding: gzipped, x-gzip\r\n\r\n").unwrap();
    assert!(!r.has_content_encoding_gzip());
    let r = Request::new_from_buffer(b"GET / HTTP/1.1\r\n\r\n").unwrap();
    assert!(!r.has_content_encoding_gzip());
}

#[test]
fn request_invalid_utf8_is_replaced() {
    let r = Request::new_from_buffer(b"GET /\xff HTTP/1.1\r\n\r\n").unwrap();
    assert_eq!(r.path, "/\u{fffd}");
}
