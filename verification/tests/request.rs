use default_client::header::MAX_NAMES;
use default_client::names::NameSet;
use default_client::request::{CodexHttpClient, CodexRequestBuilder};
use serde_json::value::RawValue;

fn client() -> CodexHttpClient {
    CodexHttpClient::new(reqwest::Client::new())
}

fn raw(text: &str) -> Box<RawValue> {
    RawValue::from_string(text.to_string()).unwrap()
}

#[test]
fn get_and_post_name_their_methods() {
    let get = client().get("https://example.com/a").send().unwrap();
    assert_eq!(get.request.method().as_str(), "GET");
    assert_eq!(get.method, http::Method::GET);
    assert_eq!(get.request.url().as_str(), "https://example.com/a");
    assert_eq!(get.url, "https://example.com/a");
    assert!(get.request.headers().is_empty());
    assert!(get.request.body().is_none());

    let post = client().post("https://example.com/a").send().unwrap();
    assert_eq!(post.request.method().as_str(), "POST");
    assert_eq!(post.method, http::Method::POST);
}

#[test]
fn request_takes_any_method() {
    let prepared = client()
        .request(http::Method::DELETE, "https://example.com")
        .send()
        .unwrap();
    assert_eq!(prepared.request.method(), &http::Method::DELETE);
    assert_eq!(prepared.url, "https://example.com");
    assert_eq!(prepared.request.url().as_str(), "https://example.com/");
}

#[test]
fn text_that_is_no_url_is_refused() {
    for url in ["", "no url", "/path", "data:text/plain,x"] {
        let refused = client().get(url).send().unwrap_err();
        assert!(refused.error.is_builder());
    }
}

#[test]
fn headers_are_added_in_order() {
    let prepared = client()
        .get("https://example.com")
        .header("X-A", "1")
        .header("x-b", "2")
        .header("x-a", "3")
        .send()
        .unwrap();
    let values: Vec<&str> = prepared
        .request
        .headers()
        .get_all("x-a")
        .iter()
        .map(|value| value.to_str().unwrap())
        .collect();
    assert_eq!(values, vec!["1", "3"]);
    assert_eq!(prepared.request.headers().get("x-b").unwrap(), "2");
    assert_eq!(prepared.request.headers().keys_len(), 2);
}

#[test]
fn bad_header_refuses_the_request_for_good() {
    for (key, value) in [("", "v"), ("a b", "v"), ("a\u{e9}", "v"), ("a", "v\n")] {
        let refused = client()
            .get("https://example.com")
            .header(key, value)
            .header("good", "v")
            .json(&raw("1"))
            .send()
            .unwrap_err();
        assert!(refused.error.is_builder());
    }
}

#[test]
fn every_name_character_is_taken() {
    for code in 0u8..=255 {
        let text = (code as char).to_string();
        let taken = client()
            .get("https://example.com")
            .header(&text, "v")
            .send()
            .is_ok();
        let expected = text
            .chars()
            .all(|c| c.is_ascii_alphanumeric() || "!#$%&'*+-.^_`|~".contains(c));
        assert_eq!(taken, expected);
    }
}

#[test]
fn bearer_token_is_a_sensitive_header() {
    let prepared = client()
        .post("https://example.com")
        .bearer_auth("abc")
        .send()
        .unwrap();
    let value = prepared.request.headers().get("authorization").unwrap();
    assert_eq!(value, "Bearer abc");
    assert!(value.is_sensitive());
}

#[test]
fn json_body_is_the_text_with_its_type() {
    let prepared = client()
        .post("https://example.com")
        .json(&raw("{\"b\":1, \"a\":2}"))
        .send()
        .unwrap();
    assert_eq!(
        prepared.request.body().unwrap().as_bytes().unwrap(),
        b"{\"b\":1, \"a\":2}"
    );
    assert_eq!(
        prepared.request.headers().get("content-type").unwrap(),
        "application/json"
    );
}

#[test]
fn named_content_type_stays() {
    let prepared = client()
        .post("https://example.com")
        .header("Content-Type", "application/vnd.x+json")
        .json(&raw("[]"))
        .json(&raw("[1]"))
        .send()
        .unwrap();
    assert_eq!(prepared.request.body().unwrap().as_bytes().unwrap(), b"[1]");
    let types: Vec<&http::HeaderValue> = prepared
        .request
        .headers()
        .get_all("content-type")
        .iter()
        .collect();
    assert_eq!(types.len(), 1);
    assert_eq!(types[0], "application/vnd.x+json");
}

#[test]
fn first_refusal_is_the_one_that_is_told() {
    let source = |error: reqwest::Error| {
        std::error::Error::source(&error).unwrap().to_string()
    };
    let name_first = client()
        .get("https://example.com")
        .header("a b", "v")
        .header("a", "v\n")
        .send()
        .unwrap_err();
    assert_eq!(source(name_first.error), "invalid HTTP header name");
    let value_first = client()
        .get("https://example.com")
        .header("a", "v\n")
        .header("a b", "v")
        .bearer_auth("t")
        .json(&raw("1"))
        .send()
        .unwrap_err();
    assert_eq!(source(value_first.error), "failed to parse header value");
}

#[test]
fn header_names_are_counted_once() {
    let request = client().get("https://user:pw@example.com/");
    assert_eq!(request.header_names(), Some(1));
    let request = request.header("a", "b").header("A", "c").bearer_auth("t");
    assert_eq!(request.header_names(), Some(2));
    let request = request.json(&raw("1")).header("Content-Type", "text/plain");
    assert_eq!(request.header_names(), Some(3));
    let prepared = request.send().unwrap();
    assert_eq!(prepared.request.url().as_str(), "https://example.com/");
    assert_eq!(prepared.request.headers().keys_len(), 3);
}

#[test]
fn header_names_are_not_known_after_map() {
    let request = client()
        .get("https://example.com")
        .map(|builder| builder.header("a", "1").header("b", "2"));
    assert_eq!(request.header_names(), None);
    let request = request.header("c", "3");
    assert_eq!(request.header_names(), None);
    assert_eq!(request.send().unwrap().request.headers().keys_len(), 3);
}

#[test]
fn map_changes_only_the_inner_builder() {
    let prepared = client()
        .get("https://example.com")
        .map(|builder| builder.body("text"))
        .send()
        .unwrap();
    assert_eq!(prepared.method, http::Method::GET);
    assert_eq!(prepared.url, "https://example.com");
    assert_eq!(prepared.request.body().unwrap().as_bytes().unwrap(), b"text");
}

#[test]
fn many_headers_fit() {
    let mut request = client().get("https://example.com");
    let mut count = request.header_names().unwrap();
    while count < MAX_NAMES {
        let name = format!("x-{count}");
        request = request.header(&name, "v");
        count = request.header_names().unwrap();
    }
    let prepared = request.send().unwrap();
    assert_eq!(prepared.request.headers().keys_len(), MAX_NAMES - 1);
}

#[test]
fn many_values_of_one_name_fit() {
    let mut request = client().get("https://example.com");
    for _ in 0..2 * MAX_NAMES {
        request = request.header("x-a", "v");
    }
    assert_eq!(request.header_names(), Some(2));
    let prepared = request.send().unwrap();
    assert_eq!(prepared.request.headers().len(), 2 * MAX_NAMES);
}

#[test]
fn name_sets_ignore_case() {
    let names = NameSet::of("X-A").with("x-a").with("X-B_Z").with("x-b_z");
    assert_eq!(names.len(), 2);
    assert_eq!(NameSet::of("[").with("{").len(), 2);
}

#[test]
fn request_ids_are_found() {
    let mut headers = http::HeaderMap::new();
    headers.insert("cf-ray", http::HeaderValue::from_static("ray-1"));
    headers.append("x-request-id", http::HeaderValue::from_static("first"));
    headers.append("x-request-id", http::HeaderValue::from_static("second"));
    headers.insert(
        "x-oai-request-id",
        http::HeaderValue::from_bytes(b"\xff").unwrap(),
    );
    headers.insert("x-other", http::HeaderValue::from_static("no"));
    let ids = CodexRequestBuilder::extract_request_ids(&headers);
    assert_eq!(
        ids,
        vec![
            ("cf-ray".to_string(), "ray-1".to_string()),
            ("x-request-id".to_string(), "first".to_string()),
        ]
    );
}

#[test]
fn every_request_id_is_found() {
    let mut headers = http::HeaderMap::new();
    headers.insert("x-oai-request-id", http::HeaderValue::from_static("3"));
    headers.insert("x-request-id", http::HeaderValue::from_static("2"));
    headers.insert("cf-ray", http::HeaderValue::from_static("1"));
    let ids = CodexRequestBuilder::extract_request_ids(&headers);
    assert_eq!(
        ids,
        vec![
            ("cf-ray".to_string(), "1".to_string()),
            ("x-request-id".to_string(), "2".to_string()),
            ("x-oai-request-id".to_string(), "3".to_string()),
        ]
    );
}

#[test]
fn no_request_ids_are_found_without_headers() {
    let ids = CodexRequestBuilder::extract_request_ids(&http::HeaderMap::new());
    assert!(ids.is_empty());
}
