use default_client::originator::{
    get_originator_value, originator, originator_asked_for, set_default_originator,
    OriginatorCell, SetOriginatorError, CODEX_INTERNAL_ORIGINATOR_OVERRIDE_ENV_VAR,
    DEFAULT_ORIGINATOR,
};

#[test]
fn default_originator_is_used_where_nothing_is_asked() {
    let chosen = get_originator_value(None, None);
    assert_eq!(chosen.value, "codex_cli_rs");
    assert_eq!(chosen.header_value.to_str().unwrap(), "codex_cli_rs");
    assert_eq!(DEFAULT_ORIGINATOR, "codex_cli_rs");
    assert_eq!(
        CODEX_INTERNAL_ORIGINATOR_OVERRIDE_ENV_VAR,
        "CODEX_INTERNAL_ORIGINATOR_OVERRIDE"
    );
}

#[test]
fn provided_originator_is_used() {
    let chosen = get_originator_value(None, Some("my_app".to_string()));
    assert_eq!(chosen.value, "my_app");
    assert_eq!(chosen.header_value.as_bytes(), b"my_app");
    assert!(!chosen.header_value.is_sensitive());
}

#[test]
fn override_goes_before_the_provided_originator() {
    let chosen = get_originator_value(Some("forced".to_string()), Some("my_app".to_string()));
    assert_eq!(chosen.value, "forced");
}

#[test]
fn originator_that_cannot_be_sent_gives_the_default() {
    let chosen = get_originator_value(None, Some("bad\nname".to_string()));
    assert_eq!(chosen.value, "codex_cli_rs");
    assert_eq!(chosen.header_value.to_str().unwrap(), "codex_cli_rs");
    let chosen = get_originator_value(Some("bad\u{7f}".to_string()), Some("good".to_string()));
    assert_eq!(chosen.value, "codex_cli_rs");
}

#[test]
fn originator_outside_ascii_is_sent_in_utf8() {
    let chosen = get_originator_value(None, Some("caf\u{e9}".to_string()));
    assert_eq!(chosen.value, "caf\u{e9}");
    assert_eq!(chosen.header_value.as_bytes(), "caf\u{e9}".as_bytes());
}

#[test]
fn originator_is_set_once() {
    let mut cell = OriginatorCell::new();
    assert!(set_default_originator(&mut cell, None, "first".to_string()).is_ok());
    let refused = set_default_originator(&mut cell, None, "second".to_string());
    assert!(matches!(
        refused,
        Err(SetOriginatorError::AlreadyInitialized)
    ));
    assert_eq!(originator(&mut cell, None).value, "first");
}

#[test]
fn first_use_settles_the_originator() {
    let mut cell = OriginatorCell::new();
    assert_eq!(
        originator(&mut cell, Some("from_env".to_string())).value,
        "from_env"
    );
    assert!(matches!(
        set_default_originator(&mut cell, None, "late".to_string()),
        Err(SetOriginatorError::AlreadyInitialized)
    ));
    assert_eq!(originator(&mut cell, None).value, "from_env");
}

#[test]
fn setting_an_originator_that_cannot_be_sent_settles_the_default() {
    let mut cell = OriginatorCell::new();
    assert!(set_default_originator(&mut cell, None, "bad\r".to_string()).is_ok());
    assert_eq!(originator(&mut cell, None).value, "codex_cli_rs");
}

#[test]
fn originator_is_asked_for_as_it_is() {
    let text = |value: &str| Some(value.to_string());
    assert_eq!(originator_asked_for(text("bad\n"), text("good")), "bad\n");
    assert_eq!(originator_asked_for(None, text("good")), "good");
    assert_eq!(originator_asked_for(None, None), "codex_cli_rs");
}

#[test]
fn cell_tells_whether_it_is_settled() {
    let mut cell = OriginatorCell::new();
    assert!(!cell.is_settled());
    assert_eq!(originator(&mut cell, None).value, "codex_cli_rs");
    assert!(cell.is_settled());
}
