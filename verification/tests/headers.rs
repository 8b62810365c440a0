use axum::http::header::HeaderName;
use axum::http::{HeaderMap, HeaderValue};
use myip::headers::{client_ip, forwarded_for, request_ip};

fn name(text: &str) -> HeaderName {
    HeaderName::from_bytes(text.as_bytes()).unwrap()
}

#[test]
fn no_forwarded_header() {
    let mut headers = HeaderMap::new();
    assert_eq!(forwarded_for(&headers), None);
    headers.insert(name("host"), HeaderValue::from_static("example.org"));
    headers.insert(name("forwarded"), HeaderValue::from_static("for=203.0.113.7"));
    assert_eq!(forwarded_for(&headers), None);
}

#[test]
fn forwarded_header_is_read() {
    let mut headers = HeaderMap::new();
    headers.insert(name("host"), HeaderValue::from_static("example.org"));
    headers.insert(name("x-forwarded-for"), HeaderValue::from_static("203.0.113.7"));
    assert_eq!(forwarded_for(&headers), Some("203.0.113.7".to_string()));
}

#[test]
fn header_name_is_found_however_it_was_written() {
    let mut headers = HeaderMap::new();
    headers.insert(name("X-Forwarded-For"), HeaderValue::from_static("203.0.113.7"));
    assert_eq!(forwarded_for(&headers), Some("203.0.113.7".to_string()));
}

#[test]
fn first_of_several_values_is_taken() {
    let mut headers = HeaderMap::new();
    headers.append(name("x-forwarded-for"), HeaderValue::from_static("203.0.113.7"));
    headers.append(name("x-forwarded-for"), HeaderValue::from_static("198.51.100.2"));
    assert_eq!(forwarded_for(&headers), Some("203.0.113.7".to_string()));
}

#[test]
fn value_is_taken_as_it_stands() {
    let mut headers = HeaderMap::new();
    headers.insert(
        name("x-forwarded-for"),
        HeaderValue::from_static("203.0.113.7, 198.51.100.2\t"),
    );
    assert_eq!(forwarded_for(&headers), Some("203.0.113.7, 198.51.100.2\t".to_string()));
    headers.insert(name("x-forwarded-for"), HeaderValue::from_static(""));
    assert_eq!(forwarded_for(&headers), Some(String::new()));
}

#[test]
fn value_that_is_no_text_is_passed_over() {
    let mut headers = HeaderMap::new();
    headers.insert(name("x-forwarded-for"), HeaderValue::from_bytes(b"203.0.113.\xff").unwrap());
    assert_eq!(forwarded_for(&headers), None);
    headers.insert(name("x-forwarded-for"), HeaderValue::from_bytes("gr\u{fc}n".as_bytes()).unwrap());
    assert_eq!(forwarded_for(&headers), None);
    assert_eq!(client_ip(forwarded_for(&headers), "127.0.0.1".to_string()), "127.0.0.1");
}

#[test]
fn request_ip_from_headers_and_peer() {
    let mut headers = HeaderMap::new();
    assert_eq!(request_ip(&headers, "192.0.2.1".to_string()), "192.0.2.1");
    headers.insert(name("x-forwarded-for"), HeaderValue::from_static("203.0.113.7"));
    assert_eq!(request_ip(&headers, "192.0.2.1".to_string()), "203.0.113.7");
    headers.insert(name("x-forwarded-for"), HeaderValue::from_bytes(b"\xfe").unwrap());
    assert_eq!(request_ip(&headers, "192.0.2.1".to_string()), "192.0.2.1");
}
