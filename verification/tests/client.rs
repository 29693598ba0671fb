use default_client::client::{
    build_reqwest_client, built_client, configure_client, create_client, is_sandboxed,
};
use default_client::originator::{originator, set_default_originator, Originator, OriginatorCell};
use default_client::user_agent::get_codex_user_agent;

fn named(value: &str) -> Originator {
    let mut cell = OriginatorCell::new();
    set_default_originator(&mut cell, None, value.to_string()).unwrap();
    originator(&mut cell, None).clone()
}

#[test]
fn client_has_the_default_headers() {
    let who = named("my_app");
    let client = create_client(&who, "1.2.3", "xterm", Some("mcp"), None).unwrap();
    let agent = get_codex_user_agent(&who, "1.2.3", "xterm", Some("mcp"));
    let shown = format!("{:?}", client.inner);
    assert!(shown.contains("\"originator\": \"my_app\""));
    assert!(shown.contains(&format!("\"user-agent\": {agent:?}")));
    assert!(shown.contains("\"accept\": \"*/*\""));
}

#[test]
fn sandboxed_client_uses_no_proxy() {
    let who = named("my_app");
    let open = build_reqwest_client(&who, "1.2.3", "xterm", None, None).unwrap();
    assert!(format!("{open:?}").contains("proxies"));
    let closed = build_reqwest_client(&who, "1.2.3", "xterm", None, Some("seatbelt")).unwrap();
    assert!(!format!("{closed:?}").contains("proxies"));
}

#[test]
fn given_user_agent_is_the_one_sent() {
    let who = named("my_app");
    let client = built_client(configure_client(&who, "agent/1".to_string(), false).build()).unwrap();
    assert!(format!("{client:?}").contains("\"user-agent\": \"agent/1\""));
}

#[test]
fn user_agent_that_is_no_header_value_is_refused() {
    let who = named("my_app");
    let refused = built_client(configure_client(&who, "bad\n".to_string(), false).build());
    assert!(refused.unwrap_err().error.is_builder());
}

#[test]
fn only_the_seatbelt_is_a_sandbox() {
    assert!(is_sandboxed(Some("seatbelt")));
    assert!(!is_sandboxed(Some("Seatbelt")));
    assert!(!is_sandboxed(Some("")));
    assert!(!is_sandboxed(None));
}

#[test]
fn every_way_to_the_client_sets_its_headers() {
    let who = named("my_app");
    let built = build_reqwest_client(&who, "1.2.3", "xterm", Some("mcp"), None).unwrap();
    let agent = get_codex_user_agent(&who, "1.2.3", "xterm", Some("mcp"));
    let shown = format!("{built:?}");
    assert!(shown.contains("\"originator\": \"my_app\""));
    assert!(shown.contains(&format!("\"user-agent\": {agent:?}")));
}

#[test]
fn client_keeps_the_suffix_it_was_created_with() {
    let who = named("my_app");
    let first = create_client(&who, "1.2.3", "xterm", Some("one"), None).unwrap();
    let second = create_client(&who, "1.2.3", "xterm", Some("two"), None).unwrap();
    assert!(format!("{:?}", first.inner).contains("xterm (one)"));
    assert!(format!("{:?}", second.inner).contains("xterm (two)"));
}

#[test]
fn started_requests_leave_the_default_headers_to_the_client() {
    let mut cell = OriginatorCell::new();
    let who = originator(&mut cell, None).clone();
    let client = create_client(&who, "1.2.3", "xterm", None, None).unwrap();
    for url in ["https://example.com", "https://user:pw@example.com"] {
        for started in [
            client.get(url),
            client.post(url),
            client.request(http::Method::PUT, url),
        ] {
            let prepared = started.send().unwrap();
            assert!(prepared
                .request
                .headers()
                .keys()
                .all(|name| name == "authorization"));
            let shown = format!("{:?}", prepared.client);
            assert!(shown.contains("\"originator\": \"codex_cli_rs\""));
            assert!(shown.contains("\"user-agent\": \"codex_cli_rs/1.2.3 ("));
        }
    }
}
