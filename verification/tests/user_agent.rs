use default_client::originator::{originator, Originator, OriginatorCell};
use default_client::user_agent::{
    compose_sanitized_agent, compose_user_agent, get_codex_user_agent, sanitize_user_agent,
    sanitized_codex_agent, OsDescription,
};

fn default_originator() -> Originator {
    let mut cell = OriginatorCell::new();
    originator(&mut cell, None).clone()
}

fn linux() -> OsDescription {
    OsDescription {
        os_type: "Ubuntu".to_string(),
        version: "24.4.0".to_string(),
        architecture: Some("x86_64".to_string()),
    }
}

#[test]
fn test_get_codex_user_agent() {
    let user_agent = get_codex_user_agent(&default_originator(), "0.0.0", "unknown", None);
    assert!(user_agent.starts_with("codex_cli_rs/"));
}

#[test]
fn test_invalid_suffix_is_sanitized() {
    let prefix = "codex_cli_rs/0.0.0";
    let suffix = "bad\rsuffix";

    assert_eq!(
        sanitize_user_agent(format!("{prefix} ({suffix})"), prefix, &default_originator()),
        "codex_cli_rs/0.0.0 (bad_suffix)"
    );
}

#[test]
fn test_invalid_suffix_is_sanitized2() {
    let prefix = "codex_cli_rs/0.0.0";
    let suffix = "bad\0suffix";

    assert_eq!(
        sanitize_user_agent(format!("{prefix} ({suffix})"), prefix, &default_originator()),
        "codex_cli_rs/0.0.0 (bad_suffix)"
    );
}

#[test]
fn user_agent_on_mac_os() {
    let os = |architecture: &str| OsDescription {
        os_type: "Mac OS".to_string(),
        version: "15.6.1".to_string(),
        architecture: Some(architecture.to_string()),
    };
    assert_eq!(
        compose_user_agent(&default_originator(), "0.0.0", &os("arm64"), "iTerm.app/3.5", None),
        "codex_cli_rs/0.0.0 (Mac OS 15.6.1; arm64) iTerm.app/3.5"
    );
    assert_eq!(
        compose_user_agent(&default_originator(), "0.44.0", &os("x86_64"), "unknown", None),
        "codex_cli_rs/0.44.0 (Mac OS 15.6.1; x86_64) unknown"
    );
}

#[test]
fn user_agent_has_every_part() {
    let agent = compose_user_agent(
        &default_originator(),
        "1.2.3",
        &linux(),
        "vscode/1.0",
        Some("my-client; 4"),
    );
    assert_eq!(
        agent,
        "codex_cli_rs/1.2.3 (Ubuntu 24.4.0; x86_64) vscode/1.0 (my-client; 4)"
    );
}

#[test]
fn unknown_architecture_is_named_so() {
    let os = OsDescription {
        os_type: "Ubuntu".to_string(),
        version: "24.4.0".to_string(),
        architecture: None,
    };
    let agent = compose_user_agent(&default_originator(), "1.2.3", &os, "xterm", None);
    assert_eq!(agent, "codex_cli_rs/1.2.3 (Ubuntu 24.4.0; unknown) xterm");
}

#[test]
fn suffix_is_trimmed() {
    let agent = compose_user_agent(
        &default_originator(),
        "1.2.3",
        &linux(),
        "xterm",
        Some(" \t\u{a0}\u{2003}inner  space\u{3000}\r\n"),
    );
    assert_eq!(
        agent,
        "codex_cli_rs/1.2.3 (Ubuntu 24.4.0; x86_64) xterm (inner  space)"
    );
}

#[test]
fn every_white_space_character_is_trimmed() {
    let blank: String = (0u32..0x11_0000)
        .filter_map(char::from_u32)
        .filter(|c| c.is_whitespace())
        .collect();
    assert_eq!(blank.chars().count(), 25);
    for c in blank.chars() {
        let listed = ('\u{9}'..='\u{d}').contains(&c)
            || ('\u{2000}'..='\u{200a}').contains(&c)
            || [
                ' ', '\u{85}', '\u{a0}', '\u{1680}', '\u{2028}', '\u{2029}', '\u{202f}',
                '\u{205f}', '\u{3000}',
            ]
            .contains(&c);
        assert!(listed);
    }
}

#[test]
fn blank_suffix_is_left_out() {
    let plain = compose_user_agent(&default_originator(), "1.2.3", &linux(), "xterm", None);
    for blank in ["", " ", "\t\r\n", "\u{3000}"] {
        let agent = compose_user_agent(
            &default_originator(),
            "1.2.3",
            &linux(),
            "xterm",
            Some(blank),
        );
        assert_eq!(agent, plain);
    }
}

#[test]
fn sendable_candidate_is_kept() {
    for candidate in ["", "codex", "tab\there", "caf\u{e9} \u{4f60}"] {
        assert_eq!(
            sanitize_user_agent(candidate.to_string(), "fallback", &default_originator()),
            candidate
        );
    }
}

#[test]
fn every_unprintable_character_is_masked() {
    assert_eq!(
        sanitize_user_agent(
            "a\nb\u{7f}c\td\u{e9}e~".to_string(),
            "fallback",
            &default_originator()
        ),
        "a_b_c_d_e~"
    );
}

#[test]
fn sanitizing_twice_is_sanitizing_once() {
    let once = sanitize_user_agent("x\r\ny".to_string(), "f", &default_originator());
    assert_eq!(once, "x__y");
    let twice = sanitize_user_agent(once.clone(), "g", &default_originator());
    assert_eq!(twice, once);
}

#[test]
fn fallback_is_not_needed_for_an_empty_candidate() {
    assert_eq!(
        sanitize_user_agent(String::new(), "fallback", &default_originator()),
        ""
    );
}

#[test]
fn masking_is_told() {
    let agent = |os: &OsDescription, terminal: &str, suffix: Option<&str>| {
        let agent = compose_sanitized_agent(&default_originator(), "1", os, terminal, suffix);
        (agent.text, agent.masked)
    };
    assert_eq!(
        agent(&linux(), "t", Some("a_b")),
        ("codex_cli_rs/1 (Ubuntu 24.4.0; x86_64) t (a_b)".to_string(), false)
    );
    assert_eq!(
        agent(&linux(), "t", Some("a\nb")),
        ("codex_cli_rs/1 (Ubuntu 24.4.0; x86_64) t (a_b)".to_string(), true)
    );
    assert!(agent(&linux(), "t\0", None).1);
    let mut os = linux();
    os.version = "2\r4".to_string();
    assert!(agent(&os, "t", None).1);
}

#[test]
fn told_agent_is_the_one_used() {
    let who = default_originator();
    let told = sanitized_codex_agent(&who, "1.2.3", "xterm", Some("a\nb"));
    assert!(told.masked);
    assert!(told.text.ends_with(" xterm (a_b)"));
    assert_eq!(told.text, get_codex_user_agent(&who, "1.2.3", "xterm", Some("a\nb")));
}
