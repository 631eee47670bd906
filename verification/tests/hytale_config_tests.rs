use grate_bot::hytale_config::{hytale_config_with_password, ConfigFileError};
use grate_bot::settings::HytalePasswordSettings;
use serde_json::Value;

fn parse(bytes: &[u8]) -> Value {
    serde_json::from_slice(bytes).unwrap()
}

#[test]
fn writes_gratebot_password_config_and_preserves_unknown_fields() {
    let existing =
        r#"{"bind_port":5520,"nested":{"keep":true},"GrateBot":{"password_enabled":false,"password":"old"}}"#;
    let bytes = hytale_config_with_password(
        Some(existing),
        &HytalePasswordSettings {
            password_enabled: true,
            last_password: Some("new-pass".to_owned()),
        },
    )
    .unwrap();

    let config = parse(&bytes);
    assert_eq!(config["bind_port"], Value::from(5520));
    assert_eq!(config["nested"]["keep"], Value::from(true));
    assert_eq!(config["GrateBot"]["password_enabled"], Value::from(true));
    assert_eq!(config["GrateBot"]["password"], Value::from("new-pass"));
}

#[test]
fn missing_config_gets_only_the_bot_entry() {
    let bytes = hytale_config_with_password(
        None,
        &HytalePasswordSettings {
            password_enabled: false,
            last_password: None,
        },
    )
    .unwrap();
    let config = parse(&bytes);
    let object = config.as_object().unwrap();
    assert_eq!(object.len(), 1);
    assert_eq!(config["GrateBot"]["password_enabled"], Value::from(false));
    assert_eq!(config["GrateBot"]["password"], Value::Null);
}

#[test]
fn config_that_is_not_an_object_is_replaced_by_the_bot_entry() {
    let bytes = hytale_config_with_password(
        Some("[1, 2, 3]"),
        &HytalePasswordSettings {
            password_enabled: true,
            last_password: Some("pw".to_owned()),
        },
    )
    .unwrap();
    let config = parse(&bytes);
    assert_eq!(config.as_object().unwrap().len(), 1);
    assert_eq!(config["GrateBot"]["password"], Value::from("pw"));
}

#[test]
fn config_that_is_not_json_is_refused() {
    let r = hytale_config_with_password(
        Some("{not json"),
        &HytalePasswordSettings {
            password_enabled: true,
            last_password: Some("pw".to_owned()),
        },
    );
    assert_eq!(r, Err(ConfigFileError::Parse));
}

#[test]
fn bot_entry_is_added_beside_other_members_and_written_pretty() {
    let bytes = hytale_config_with_password(
        Some(r#"{"bind_port":5520}"#),
        &HytalePasswordSettings {
            password_enabled: false,
            last_password: Some("quote\"and\\slash".to_owned()),
        },
    )
    .unwrap();
    let text = String::from_utf8(bytes.clone()).unwrap();
    assert!(text.contains('\n'));
    let config = parse(&bytes);
    assert_eq!(config.as_object().unwrap().len(), 2);
    assert_eq!(config["bind_port"], Value::from(5520));
    assert_eq!(config["GrateBot"]["password"], Value::from("quote\"and\\slash"));
    assert_eq!(config["GrateBot"]["password_enabled"], Value::from(false));
}
