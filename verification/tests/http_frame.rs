use std::sync::Arc;

use arti_bridge::errors::{signed_read_status, status_code, BridgeError};
use arti_bridge::http::{build_http_response, parse_method, Method};
use arti_bridge::session::Session;

type TestSession = Session<u8, u32, Vec<u8>, Vec<u8>>;

fn session_with_circuit() -> TestSession {
    let mut s: TestSession = Session::new();
    s.install_client(Arc::new(7u32));
    s.create_circuit(String::from("c")).unwrap();
    s
}

#[test]
fn parse_method_accepts_supported_verbs() {
    assert_eq!(parse_method("GET"), Some(Method::Get));
    assert_eq!(parse_method("POST"), Some(Method::Post));
    assert_eq!(parse_method("PUT"), Some(Method::Put));
    assert_eq!(parse_method("DELETE"), Some(Method::Delete));
    assert_eq!(parse_method("HEAD"), Some(Method::Head));
    assert_eq!(parse_method("PATCH"), Some(Method::Patch));
}

#[test]
fn parse_method_ignores_ascii_case() {
    assert_eq!(parse_method("get"), Some(Method::Get));
    assert_eq!(parse_method("GeT"), Some(Method::Get));
    assert_eq!(parse_method("pAtCh"), Some(Method::Patch));
}

#[test]
fn parse_method_rejects_other_verbs() {
    assert_eq!(parse_method("TRACE"), None);
    assert_eq!(parse_method("OPTIONS"), None);
    assert_eq!(parse_method(""), None);
    assert_eq!(parse_method("GETS"), None);
}

#[test]
fn trace_fails_fast_with_unsupported_method() {
    let s = session_with_circuit();
    let r = s.prepare_http_request(&String::from("c"), "http://example.test/", "TRACE", "{}", "");
    assert_eq!(r.unwrap_err(), BridgeError::UnsupportedMethod);
}

#[test]
fn unknown_circuit_checked_before_method() {
    let s: TestSession = Session::new();
    let r = s.prepare_http_request(&String::from("c"), "http://example.test/", "TRACE", "{}", "");
    assert_eq!(r.unwrap_err(), BridgeError::NotFound);
}

#[test]
fn malformed_headers_fail_the_request() {
    let s = session_with_circuit();
    let r = s.prepare_http_request(
        &String::from("c"),
        "http://example.test/",
        "GET",
        "not json",
        "",
    );
    assert_eq!(r.unwrap_err(), BridgeError::RequestFailed);
    let r = s.prepare_http_request(&String::from("c"), "http://example.test/", "GET", "[1,2]", "");
    assert_eq!(r.unwrap_err(), BridgeError::RequestFailed);
}

#[test]
fn prepared_request_carries_string_headers_in_key_order() {
    let s = session_with_circuit();
    let plan = s
        .prepare_http_request(
            &String::from("c"),
            "https://example.test/p",
            "post",
            "{\"b\":\"2\",\"a\":\"1\",\"n\":5}",
            "payload",
        )
        .unwrap();
    assert_eq!(plan.method, Method::Post);
    assert_eq!(plan.url, "https://example.test/p");
    // The header object is held in key order; the non-string field is dropped.
    assert_eq!(
        plan.headers,
        vec![
            (String::from("a"), String::from("1")),
            (String::from("b"), String::from("2")),
        ]
    );
    assert_eq!(plan.body, Some(String::from("payload")));
}

#[test]
fn empty_body_is_not_attached() {
    let s = session_with_circuit();
    let plan = s
        .prepare_http_request(&String::from("c"), "http://example.test/", "GET", "{}", "")
        .unwrap();
    assert_eq!(plan.headers, Vec::<(String, String)>::new());
    assert_eq!(plan.body, None);
}

#[test]
fn response_envelope_exact_text() {
    let headers = vec![(String::from("content-type"), String::from("text/html"))];
    let r = build_http_response(200, &headers, "ok");
    assert_eq!(
        r,
        "{\"status\":200,\"headers\":{\"content-type\":\"text/html\"},\"body\":\"ok\"}"
    );
}

#[test]
fn response_envelope_without_headers() {
    let r = build_http_response(404, &Vec::new(), "");
    assert_eq!(r, "{\"status\":404,\"headers\":{},\"body\":\"\"}");
}

#[test]
fn response_envelope_escapes_body_and_headers() {
    let headers = vec![(String::from("x-note"), String::from("a\"b\\c"))];
    let r = build_http_response(500, &headers, "line1\nline2\ttabbed \u{1} end");
    assert_eq!(
        r,
        "{\"status\":500,\"headers\":{\"x-note\":\"a\\\"b\\\\c\"},\"body\":\"line1\\nline2\\ttabbed \\u0001 end\"}"
    );
}

#[test]
fn response_envelope_parses_back_as_json() {
    let headers = vec![
        (String::from("server"), String::from("test")),
        (String::from("x-q"), String::from("he said \"hi\"\r\n")),
    ];
    let body = "body with \\ and \" and \u{2} control";
    let text = build_http_response(301, &headers, body);
    let value: serde_json::Value = serde_json::from_str(&text).unwrap();
    assert_eq!(value.get("status").unwrap().as_u64(), Some(301));
    let parsed_headers = value.get("headers").unwrap().as_object().unwrap();
    assert_eq!(
        parsed_headers.get("x-q").unwrap().as_str(),
        Some("he said \"hi\"\r\n")
    );
    assert_eq!(value.get("body").unwrap().as_str(), Some(body));
}

#[test]
fn status_codes_map_results() {
    assert_eq!(status_code(&Ok::<(), BridgeError>(())), 1);
    assert_eq!(status_code(&Err::<(), BridgeError>(BridgeError::IoFailed)), 0);
    assert_eq!(
        status_code(&Err::<(), BridgeError>(BridgeError::ConnectionFailed)),
        0
    );
    assert_eq!(
        status_code(&Err::<(), BridgeError>(BridgeError::HandshakeFailed)),
        0
    );
    assert_eq!(
        status_code(&Err::<(), BridgeError>(BridgeError::RuntimeCreation)),
        0
    );
    assert_eq!(
        status_code(&Err::<(), BridgeError>(BridgeError::Internal)),
        0
    );
    assert_eq!(signed_read_status(&Ok::<usize, BridgeError>(17)), 17);
    assert_eq!(signed_read_status(&Ok::<usize, BridgeError>(0)), 0);
    assert_eq!(
        signed_read_status(&Err::<usize, BridgeError>(BridgeError::IoFailed)),
        -1
    );
}
