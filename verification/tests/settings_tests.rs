use grate_bot::settings::{
    default_settings_path, settings_path_from, BotSettings, ChannelFamily, HytalePasswordSettings,
};

#[test]
fn default_settings_path_is_repo_local_file() {
    assert_eq!(default_settings_path(), "grate-bot-settings.json");
}

#[test]
fn settings_path_uses_env_override() {
    assert_eq!(
        settings_path_from(Some("/tmp/custom-grate-settings.json")),
        "/tmp/custom-grate-settings.json"
    );
    assert_eq!(settings_path_from(Some("  ")), "grate-bot-settings.json");
    assert_eq!(settings_path_from(None), "grate-bot-settings.json");
}

#[test]
fn stores_hytale_password_settings() {
    let mut settings = BotSettings::default();

    let password = settings.set_hytale_password(1, "secret".to_owned(), true);
    assert_eq!(password.last_password.as_deref(), Some("secret"));
    assert!(password.password_enabled);

    let password = settings.set_hytale_password_enabled(1, false);
    assert_eq!(password.last_password.as_deref(), Some("secret"));
    assert!(!password.password_enabled);
    assert_eq!(settings.hytale_password(1), password);
}

#[test]
fn stores_cached_hytale_public_ip() {
    let mut settings = BotSettings::default();

    assert_eq!(settings.hytale_cached_public_ip(1), None);
    settings.set_hytale_cached_public_ip(1, "203.0.113.10".to_owned());
    assert_eq!(settings.hytale_cached_public_ip(1).as_deref(), Some("203.0.113.10"));
}

#[test]
fn channels_read_back_per_server_and_family() {
    let mut settings = BotSettings::default();
    assert_eq!(settings.channel(1, ChannelFamily::Grateic), None);
    settings.set_channel(1, ChannelFamily::Grateic, 10);
    settings.set_channel(2, ChannelFamily::Hytale, 20);
    assert_eq!(settings.channel(1, ChannelFamily::Grateic), Some(10));
    assert_eq!(settings.channel(1, ChannelFamily::Hytale), None);
    assert_eq!(settings.channel(2, ChannelFamily::Hytale), Some(20));
    settings.clear_channel(1, ChannelFamily::Grateic);
    assert_eq!(settings.channel(1, ChannelFamily::Grateic), None);
    assert_eq!(settings.guilds.len(), 2);
    assert_eq!(settings.guilds[0].0, "1");
    assert_eq!(ChannelFamily::Hytale.label(), "Hytale");
}

#[test]
fn missing_servers_read_as_defaults() {
    let settings = BotSettings::default();
    assert_eq!(
        settings.hytale_password(9),
        HytalePasswordSettings {
            password_enabled: false,
            last_password: None,
        }
    );
}
