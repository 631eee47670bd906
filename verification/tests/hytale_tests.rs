use grate_bot::hytale::{
    choose_public_ip, code_block, extract_first_url, failure_hint, final_output_response, final_response,
    format_hytale_join_message, format_progress_message, hytale_config_path, joined_output,
    nested_progress_payload, password_to_save, progress_key, toggled_password, truncate_inline,
    truncate_text, CommandSpec, ConfigError, HytaleConfig, HytaleEnv, HytaleProgress,
    HytaleScriptAction, ProgressLine, ScriptOutput, ScriptSession,
};
use grate_bot::hytale_help::{hytale_help_text, HytaleHelpTopicChoice};
use grate_bot::settings::HytalePasswordSettings;

fn test_config() -> HytaleConfig {
    HytaleConfig {
        manager_role_id: 12345,
        service_name: "hytale-server.service".to_owned(),
        manage_script: "/opt/hytale/hytale-manage.sh".to_owned(),
        hytale_dir: "/opt/hytale".to_owned(),
        command_timeout_secs: 15,
        download_timeout_secs: 1_800,
    }
}

fn empty_env() -> HytaleEnv {
    HytaleEnv {
        manager_role_id: None,
        service_name: None,
        manage_script: None,
        hytale_dir: None,
        command_timeout_seconds: None,
        download_timeout_seconds: None,
        home: None,
    }
}

fn progress(stage: &str, status: &str, message: &str) -> HytaleProgress {
    HytaleProgress {
        timestamp: "2026-04-30T13:15:40Z".to_owned(),
        source: "hytale-manage".to_owned(),
        stage: stage.to_owned(),
        status: status.to_owned(),
        message: message.to_owned(),
    }
}

fn line(p: HytaleProgress) -> ProgressLine {
    ProgressLine {
        progress: p,
        nested: None,
    }
}

#[test]
fn config_uses_defaults_and_required_role() {
    let env = HytaleEnv {
        manager_role_id: Some("12345".to_owned()),
        home: Some("/home/bot".to_owned()),
        ..empty_env()
    };
    let config = HytaleConfig::from_env(&env).unwrap();

    assert_eq!(config.manager_role_id, 12345);
    assert_eq!(config.service_name, "hytale-server.service");
    assert_eq!(config.manage_script, "/home/bot/hytale/hytale-manage.sh");
    assert_eq!(config.hytale_dir, "/home/bot/hytale");
    assert_eq!(config.command_timeout_secs, 15);
    assert_eq!(config.download_timeout_secs, 1800);
}

#[test]
fn config_fails_closed_without_role() {
    assert_eq!(HytaleConfig::from_env(&empty_env()), Err(ConfigError::MissingRole));
}

#[test]
fn config_rejects_invalid_role() {
    let env = HytaleEnv {
        manager_role_id: Some("not-a-role".to_owned()),
        ..empty_env()
    };
    assert_eq!(
        HytaleConfig::from_env(&env),
        Err(ConfigError::InvalidRole("not-a-role".to_owned()))
    );
}

#[test]
fn config_reads_overrides() {
    let env = HytaleEnv {
        manager_role_id: Some("12345".to_owned()),
        service_name: Some("custom-hytale.service".to_owned()),
        manage_script: Some("/srv/hytale/manage".to_owned()),
        hytale_dir: Some("/srv/hytale/server".to_owned()),
        command_timeout_seconds: Some("22".to_owned()),
        download_timeout_seconds: Some("2400".to_owned()),
        home: None,
    };
    let config = HytaleConfig::from_env(&env).unwrap();

    assert_eq!(config.service_name, "custom-hytale.service");
    assert_eq!(config.manage_script, "/srv/hytale/manage");
    assert_eq!(config.hytale_dir, "/srv/hytale/server");
    assert_eq!(config.command_timeout_secs, 22);
    assert_eq!(config.download_timeout_secs, 2_400);
}

#[test]
fn config_trims_values_and_keeps_timeouts_positive() {
    let env = HytaleEnv {
        manager_role_id: Some(" 77 ".to_owned()),
        service_name: Some("   ".to_owned()),
        command_timeout_seconds: Some("0".to_owned()),
        download_timeout_seconds: Some("soon".to_owned()),
        ..empty_env()
    };
    let config = HytaleConfig::from_env(&env).unwrap();
    assert_eq!(config.manager_role_id, 77);
    assert_eq!(config.service_name, "hytale-server.service");
    assert_eq!(config.manage_script, "hytale-manage.sh");
    assert_eq!(config.hytale_dir, "hytale");
    assert_eq!(config.command_timeout_secs, 1);
    assert_eq!(config.download_timeout_secs, 1800);
}

#[test]
fn config_errors_explain_setup() {
    assert!(ConfigError::MissingRole.setup_message().contains("HYTALE_MANAGER_ROLE_ID"));
    assert_eq!(
        ConfigError::InvalidRole("a\nb".to_owned()).setup_message(),
        "Hytale controls are paused because `HYTALE_MANAGER_ROLE_ID` is not a valid Discord role ID: `a b`."
    );
}

#[test]
fn command_specs_are_allowlisted_script_actions() {
    let config = test_config();
    let all = [
        HytaleScriptAction::Status,
        HytaleScriptAction::Logs,
        HytaleScriptAction::Start,
        HytaleScriptAction::Stop,
        HytaleScriptAction::Restart,
        HytaleScriptAction::CheckUpdate,
        HytaleScriptAction::Update,
    ];
    let args = all
        .into_iter()
        .map(|action| CommandSpec::script(&config, action).args)
        .collect::<Vec<_>>();

    assert_eq!(
        args,
        vec![
            vec!["status".to_owned()],
            vec!["logs".to_owned()],
            vec!["start".to_owned()],
            vec!["stop".to_owned()],
            vec!["restart".to_owned()],
            vec!["check-update".to_owned()],
            vec!["update".to_owned()],
        ]
    );
}

#[test]
fn script_spec_sets_program_env_and_timeout() {
    let config = test_config();
    let spec = CommandSpec::script(&config, HytaleScriptAction::Restart);

    assert_eq!(spec.program, "/opt/hytale/hytale-manage.sh");
    assert_eq!(spec.args, vec!["restart".to_owned()]);
    assert_eq!(
        spec.envs,
        vec![("SERVICE_NAME".to_owned(), "hytale-server.service".to_owned())]
    );
    assert_eq!(spec.timeout_secs, 15);
}

#[test]
fn update_spec_uses_download_timeout_and_env() {
    let config = test_config();
    let spec = CommandSpec::script(&config, HytaleScriptAction::Update);

    assert_eq!(spec.args, vec!["update".to_owned()]);
    assert_eq!(
        spec.envs,
        vec![
            ("SERVICE_NAME".to_owned(), "hytale-server.service".to_owned()),
            ("DOWNLOAD_TIMEOUT_SECONDS".to_owned(), "1800".to_owned()),
        ]
    );
    assert_eq!(spec.timeout_secs, 1_800);
}

#[test]
fn check_update_spec_uses_download_timeout_and_env() {
    let config = test_config();
    let spec = CommandSpec::script(&config, HytaleScriptAction::CheckUpdate);

    assert_eq!(spec.args, vec!["check-update".to_owned()]);
    assert_eq!(
        spec.envs,
        vec![
            ("SERVICE_NAME".to_owned(), "hytale-server.service".to_owned()),
            ("DOWNLOAD_TIMEOUT_SECONDS".to_owned(), "1800".to_owned()),
        ]
    );
    assert_eq!(spec.timeout_secs, 1_800);
}

#[test]
fn extracts_auth_url_from_output_line() {
    assert_eq!(
        extract_first_url("Please visit https://example.com/device?code=abc to authenticate"),
        Some("https://example.com/device?code=abc".to_owned())
    );
    assert_eq!(
        extract_first_url("<https://example.com/device>,"),
        Some("https://example.com/device".to_owned())
    );
    assert_eq!(extract_first_url("waiting for auth"), None);
}

#[test]
fn url_extraction_prefers_https_and_drops_trailing_punctuation() {
    assert_eq!(
        extract_first_url("see http://a.example then https://b.example/x;."),
        Some("https://b.example/x".to_owned())
    );
    assert_eq!(extract_first_url("(http://c.example)"), Some("http://c.example".to_owned()));
}

#[test]
fn formats_nested_updater_progress() {
    let outer = progress(
        "update",
        "running",
        r#"updater progress: {"timestamp":"2026-04-30T13:11:02Z","source":"hytale-update","stage":"auth","status":"waiting","message":"waiting for Hytale device authorization to complete"}"#,
    );
    assert_eq!(
        nested_progress_payload(&outer.message).unwrap(),
        r#"{"timestamp":"2026-04-30T13:11:02Z","source":"hytale-update","stage":"auth","status":"waiting","message":"waiting for Hytale device authorization to complete"}"#
    );
    let nested = HytaleProgress {
        timestamp: "2026-04-30T13:11:02Z".to_owned(),
        source: "hytale-update".to_owned(),
        stage: "auth".to_owned(),
        status: "waiting".to_owned(),
        message: "waiting for Hytale device authorization to complete".to_owned(),
    };
    let line = ProgressLine {
        progress: outer,
        nested: Some(nested),
    };

    let message = format_progress_message(HytaleScriptAction::Update, &line);

    assert_eq!(
        message,
        "Hytale update waiting: waiting for Hytale device authorization to complete"
    );
}

#[test]
fn formats_success_response() {
    let output = ScriptOutput {
        success: true,
        human_output: "(no output)".to_owned(),
        latest_progress: Some(line(progress(
            "restart",
            "completed",
            "hytale-server is active after restart",
        ))),
    };

    assert_eq!(
        final_response(HytaleScriptAction::Restart, &output),
        "Hytale restart completed: hytale-server is active after restart"
    );
}

#[test]
fn formats_failure_response_with_output() {
    let output = ScriptOutput {
        success: false,
        human_output: "systemctl refused".to_owned(),
        latest_progress: Some(line(progress("start", "failed", "command failed with exit code 1"))),
    };
    let response = final_response(HytaleScriptAction::Start, &output);

    assert!(response.contains("Hytale start failed: command failed with exit code 1"));
    assert!(response.contains("systemctl refused"));
}

#[test]
fn formats_sudo_password_failure_with_hint() {
    let output = ScriptOutput {
        success: false,
        human_output: "sudo: a password is required\nsudo: a password is required".to_owned(),
        latest_progress: Some(line(progress("update", "failed", "command failed with exit code 1"))),
    };
    let response = final_response(HytaleScriptAction::Update, &output);

    assert!(response.contains("Hytale update failed: command failed with exit code 1"));
    assert!(response.contains("passwordless sudo"));
    assert!(response.contains("sudo -n systemctl status hytale-server.service --no-pager"));
}

#[test]
fn formats_status_output_and_trims() {
    let output = ScriptOutput {
        success: true,
        human_output: "abcdef".to_owned(),
        latest_progress: None,
    };

    let response = final_output_response(HytaleScriptAction::Status, &output);

    assert!(response.contains("Hytale status"));
    assert!(response.contains("abcdef"));
    assert_eq!(truncate_text("abcdef", 3), "abc\n... output trimmed ...");
}

#[test]
fn formats_check_update_output() {
    let output = ScriptOutput {
        success: true,
        human_output: "Update available: 2026.5.13".to_owned(),
        latest_progress: None,
    };

    let response = final_output_response(HytaleScriptAction::CheckUpdate, &output);

    assert!(response.contains("Hytale update check"));
    assert!(response.contains("Update available"));
}

#[test]
fn formats_hytale_join_with_password_only_when_enabled() {
    let disabled = HytalePasswordSettings {
        password_enabled: false,
        last_password: Some("secret".to_owned()),
    };
    assert_eq!(
        format_hytale_join_message("203.0.113.10", 5520, &disabled),
        "Hytale server\nAddress: `203.0.113.10:5520`"
    );

    let enabled = HytalePasswordSettings {
        password_enabled: true,
        last_password: Some("sec`ret".to_owned()),
    };
    assert_eq!(
        format_hytale_join_message("203.0.113.10", 5520, &enabled),
        "Hytale server\nAddress: `203.0.113.10:5520`\nPassword: `sec'ret`"
    );
}

#[test]
fn final_response_without_progress_reports_script_state() {
    let ok = ScriptOutput {
        success: true,
        human_output: "(no output)".to_owned(),
        latest_progress: None,
    };
    assert_eq!(
        final_response(HytaleScriptAction::Stop, &ok),
        "Hytale stop completed: script completed"
    );
    let failed = ScriptOutput {
        success: false,
        human_output: "boom".to_owned(),
        latest_progress: None,
    };
    assert_eq!(
        final_response(HytaleScriptAction::Stop, &failed),
        "Hytale stop failed: script failed\n```text\nboom\n```"
    );
    assert_eq!(
        final_output_response(HytaleScriptAction::Logs, &failed),
        "Recent Hytale server logs:\n```text\nThe Hytale logs command failed.\n\nboom\n```"
    );
}

#[test]
fn output_helpers_escape_join_and_trim() {
    assert_eq!(code_block("a```b"), "```text\na'''b\n```");
    assert_eq!(joined_output(&[]), "(no output)");
    assert_eq!(joined_output(&["a".to_owned(), "b".to_owned()]), "a\nb");
    assert_eq!(truncate_inline("ab\ncd", 10), "ab cd");
    assert_eq!(truncate_text("abc", 3), "abc");
    assert!(failure_hint("SUDO: NO TTY PRESENT").is_some());
    assert!(failure_hint("all good").is_none());
    assert_eq!(hytale_config_path("/opt/hytale"), "/opt/hytale/Server/config.json");
    assert_eq!(hytale_config_path("/opt/hytale/"), "/opt/hytale/Server/config.json");
}

#[test]
fn progress_keys_separate_fields() {
    let p = progress("update", "running", "step");
    assert_eq!(progress_key(&p), "hytale-manage\0update\0running\0step");
}

#[test]
fn session_announces_each_progress_and_link_once() {
    let mut session = ScriptSession::new();
    let p = progress("update", "running", "downloading");
    let sent = session.handle_line(HytaleScriptAction::Update, "{json}", Some(line(p.clone())));
    assert_eq!(sent, vec!["Hytale update running: downloading".to_owned()]);
    let sent = session.handle_line(HytaleScriptAction::Update, "{json}", Some(line(p)));
    assert!(sent.is_empty());

    let sent = session.handle_line(HytaleScriptAction::Update, "visit https://x.example/a.", None);
    assert_eq!(sent, vec!["Hytale update auth link: https://x.example/a".to_owned()]);
    let sent = session.handle_line(HytaleScriptAction::Update, "again https://x.example/a", None);
    assert!(sent.is_empty());
    let sent = session.handle_line(HytaleScriptAction::Update, "   ", None);
    assert!(sent.is_empty());
    let sent = session.handle_line(HytaleScriptAction::Status, "https://y.example", None);
    assert!(sent.is_empty());

    let output = session.finish(true);
    assert!(output.success);
    assert_eq!(
        output.human_output,
        "visit https://x.example/a.\nagain https://x.example/a\nhttps://y.example"
    );
    assert_eq!(output.latest_progress.unwrap().progress.message, "downloading");
}

#[test]
fn password_changes_need_a_saved_password_to_enable() {
    assert_eq!(password_to_save("  hunter2 "), Some("hunter2".to_owned()));
    assert_eq!(password_to_save("   "), None);
    let none_saved = HytalePasswordSettings {
        password_enabled: false,
        last_password: Some(String::new()),
    };
    assert_eq!(toggled_password(&none_saved), None);
    let saved = HytalePasswordSettings {
        password_enabled: false,
        last_password: Some("pw".to_owned()),
    };
    assert_eq!(
        toggled_password(&saved),
        Some(HytalePasswordSettings {
            password_enabled: true,
            last_password: Some("pw".to_owned()),
        })
    );
    let enabled = HytalePasswordSettings {
        password_enabled: true,
        last_password: None,
    };
    assert_eq!(
        toggled_password(&enabled),
        Some(HytalePasswordSettings {
            password_enabled: false,
            last_password: None,
        })
    );
}

#[test]
fn hytale_help_topics_are_distinct() {
    assert!(hytale_help_text(HytaleHelpTopicChoice::Overview).starts_with("Hytale help"));
    assert!(hytale_help_text(HytaleHelpTopicChoice::Settings).contains("HYTALE_DIR"));
}

#[test]
fn join_address_prefers_fresh_lookup_then_cache() {
    assert_eq!(
        choose_public_ip(Some("1.2.3.4".to_owned()), Some("5.6.7.8".to_owned())),
        Some(("1.2.3.4".to_owned(), true))
    );
    assert_eq!(
        choose_public_ip(None, Some("5.6.7.8".to_owned())),
        Some(("5.6.7.8".to_owned(), false))
    );
    assert_eq!(choose_public_ip(None, None), None);
}
