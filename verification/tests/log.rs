use default_client::log::{
    compose_error_entry, compose_request_entry, compose_response_entry, format_body_bytes,
    format_headers, log_request, log_response, log_response_error, log_timestamp,
    stamp_or_unknown, REQUEST_LOG_PATH, RESPONSE_LOG_PATH,
};
use default_client::request::CodexHttpClient;

fn headers(fields: &[(&'static str, &[u8])]) -> http::HeaderMap {
    let mut map = http::HeaderMap::new();
    for (name, value) in fields {
        map.append(*name, http::HeaderValue::from_bytes(value).unwrap());
    }
    map
}

/// The entry without its stamp, and the stamp.
fn split_stamp(entry: &str) -> (&str, &str) {
    let inner = entry.strip_prefix('[').unwrap();
    inner.split_once("] ").unwrap()
}

fn is_stamp(stamp: &str) -> bool {
    let bytes = stamp.as_bytes();
    bytes.len() >= 20
        && bytes[4] == b'-'
        && bytes[7] == b'-'
        && bytes[10] == b'T'
        && bytes[13] == b':'
        && bytes[16] == b':'
        && stamp.ends_with('Z')
        && stamp[..4].parse::<u32>().unwrap() >= 2020
}

#[test]
fn no_headers_are_named_so() {
    assert_eq!(format_headers(&headers(&[])), "  <none>\n");
}

#[test]
fn headers_have_a_line_each() {
    let map = headers(&[("content-type", b"text/plain"), ("x-a", b"1"), ("x-a", b"2")]);
    assert_eq!(
        format_headers(&map),
        "  content-type: text/plain\n  x-a: 1\n  x-a: 2\n"
    );
}

#[test]
fn header_value_that_is_no_text_is_escaped() {
    let map = headers(&[("x-a", b"h\xe9 \"q\"\t.")]);
    assert_eq!(format_headers(&map), "  x-a: \"h\\xe9 \\\"q\\\"\t.\"\n");
}

#[test]
fn sensitive_value_that_is_no_text_is_hidden() {
    let mut value = http::HeaderValue::from_bytes(b"\xff").unwrap();
    value.set_sensitive(true);
    let mut map = http::HeaderMap::new();
    map.insert("x-a", value);
    assert_eq!(format_headers(&map), "  x-a: Sensitive\n");
}

#[test]
fn sensitive_value_that_is_text_is_shown() {
    let mut value = http::HeaderValue::from_static("Bearer abc");
    value.set_sensitive(true);
    let mut map = http::HeaderMap::new();
    map.insert("authorization", value);
    assert_eq!(format_headers(&map), "  authorization: Bearer abc\n");
}

#[test]
fn body_is_read_as_utf8() {
    assert_eq!(format_body_bytes("caf\u{e9} \u{1f600}".as_bytes()), "caf\u{e9} \u{1f600}");
    assert_eq!(format_body_bytes(b""), "");
    assert_eq!(format_body_bytes(b"a\xffb"), "a\u{fffd}b");
}

#[test]
fn stamp_is_rfc3339_or_unknown() {
    assert!(is_stamp(&log_timestamp()));
    assert_eq!(stamp_or_unknown(Some("then".to_string())), "then");
    assert_eq!(stamp_or_unknown(None), "unknown");
}

#[test]
fn entries_are_laid_out() {
    assert_eq!(
        compose_request_entry("T", "POST", "https://h/", "  a: b\n", "body"),
        "[T] POST https://h/\nHeaders:\n  a: b\nBody:\nbody\n\n"
    );
    assert_eq!(
        compose_response_entry("T", "200 OK", "https://h/", "HTTP/1.1", "  a: b\n", "body"),
        "[T] 200 OK https://h/ (HTTP/HTTP/1.1)\nHeaders:\n  a: b\nBody:\nbody\n\n"
    );
    assert_eq!(
        compose_error_entry("T", "GET", "https://h/", "no route"),
        "[T] GET https://h/\nError: no route\n\n"
    );
}

#[test]
fn request_is_logged() {
    let client = CodexHttpClient::new(reqwest::Client::new());
    let prepared = client
        .request(http::Method::PUT, "https://h/x")
        .header("X-A", "1")
        .map(|builder| builder.body("hello"))
        .send()
        .unwrap();
    let entry = log_request(&prepared.request);
    let (stamp, rest) = split_stamp(&entry);
    assert!(is_stamp(stamp));
    assert_eq!(rest, "PUT https://h/x\nHeaders:\n  x-a: 1\nBody:\nhello\n\n");
}

#[test]
fn logged_request_is_the_one_that_is_executed() {
    let client = CodexHttpClient::new(reqwest::Client::new());
    let prepared = client
        .post("https://user:pw@h?q")
        .bearer_auth("secret")
        .send()
        .unwrap();
    let entry = log_request(&prepared.request);
    let (_, rest) = split_stamp(&entry);
    assert!(rest.starts_with("POST https://h/?q\nHeaders:\n  authorization: Basic "));
    assert!(rest.contains("\n  authorization: Bearer secret\nBody:\n"));
}

#[test]
fn request_without_a_body_at_hand_is_logged() {
    let client = CodexHttpClient::new(reqwest::Client::new());
    let prepared = client.get("https://h/x").send().unwrap();
    let entry = log_request(&prepared.request);
    let (_, rest) = split_stamp(&entry);
    assert_eq!(
        rest,
        "GET https://h/x\nHeaders:\n  <none>\nBody:\n<body not captured (streaming or multipart)>\n\n"
    );
}

#[test]
fn response_is_logged() {
    let entry = log_response(
        &http::StatusCode::NOT_FOUND,
        "https://h/x",
        &http::Version::HTTP_2,
        &headers(&[("x-a", b"1")]),
        b"gone",
    );
    let (stamp, rest) = split_stamp(&entry);
    assert!(is_stamp(stamp));
    assert_eq!(
        rest,
        "404 Not Found https://h/x (HTTP/HTTP/2.0)\nHeaders:\n  x-a: 1\nBody:\ngone\n\n"
    );
}

#[test]
fn failure_is_logged() {
    let client = CodexHttpClient::new(reqwest::Client::new());
    let error = client.get("no url").send().unwrap_err().error;
    let entry = log_response_error(&http::Method::GET, "no url", &error);
    let (stamp, rest) = split_stamp(&entry);
    assert!(is_stamp(stamp));
    assert_eq!(rest, "GET no url\nError: builder error\n\n");
}

#[test]
fn logs_have_their_places() {
    assert_eq!(REQUEST_LOG_PATH, "/tmp/codex-http-requests.log");
    assert_eq!(RESPONSE_LOG_PATH, "/tmp/codex-http-responses.log");
}
