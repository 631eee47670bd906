use grate_bot::bot::{
    channel_gate_action, help_message, is_unknown_channel_response, lower_hex_string,
    release_checksum_url, release_status, release_url, sha256_hex, verify_report, BuildInfo,
    ChannelGateAction, ChannelLookup,
};

#[test]
fn help_message_mentions_major_features_and_commands() {
    let message = help_message();

    assert!(message.contains("Grateic Phone"));
    assert!(message.contains("Build verification"));
    assert!(message.contains("/grate verify"));
    assert!(message.contains("/grate hytale status"));
    assert!(message.contains("/grate hytale check-update"));
    assert!(message.contains("/grate hytale update"));
}

#[test]
fn channel_gate_allows_matching_channel() {
    assert_eq!(
        channel_gate_action(10, 10, ChannelLookup::AmbiguousFailure),
        ChannelGateAction::Allow
    );
}

#[test]
fn channel_gate_blocks_wrong_channel_when_configured_channel_exists() {
    assert_eq!(
        channel_gate_action(10, 11, ChannelLookup::ExistsInGuild),
        ChannelGateAction::Block
    );
}

#[test]
fn channel_gate_clears_only_definitive_missing_channel() {
    assert_eq!(
        channel_gate_action(10, 11, ChannelLookup::Missing),
        ChannelGateAction::ClearAndAllow
    );
    assert_eq!(
        channel_gate_action(10, 11, ChannelLookup::AmbiguousFailure),
        ChannelGateAction::Block
    );
}

#[test]
fn unknown_channel_is_404_with_code_10003() {
    assert!(is_unknown_channel_response(404, 10003));
    assert!(!is_unknown_channel_response(404, 10004));
    assert!(!is_unknown_channel_response(403, 10003));
}

#[test]
fn sha256_of_known_input() {
    assert_eq!(
        sha256_hex(b"abc"),
        "ba7816bf8f01cfea414140de5dae2223b00361a396177a9cb410ff61f20015ad"
    );
    assert_eq!(lower_hex_string(&[0x00, 0x0f, 0xa0, 0xff]), "000fa0ff");
}

#[test]
fn release_links_need_repository_tag_and_arch() {
    let repo = Some("grate/grate-bot".to_owned());
    let tag = Some("v1.2.3".to_owned());
    let arch = Some("x86_64-linux".to_owned());
    assert_eq!(release_status(&tag), "✅ official GitHub release");
    assert_eq!(release_status(&None), "⚠️ branch or local build");
    assert_eq!(
        release_url(&repo, &tag),
        "https://github.com/grate/grate-bot/releases/tag/v1.2.3"
    );
    assert_eq!(release_url(&repo, &None), "`unknown`");
    assert_eq!(
        release_checksum_url(&repo, &tag, &arch),
        "https://github.com/grate/grate-bot/releases/download/v1.2.3/grate-bot-v1.2.3-x86_64-linux.sha256"
    );
    assert_eq!(release_checksum_url(&repo, &tag, &None), "`unknown`");
}

#[test]
fn verify_report_lists_build_facts() {
    let build = BuildInfo {
        version: "0.1.0".to_owned(),
        source_ref: Some("main".to_owned()),
        commit: None,
        input_state: Some("clean".to_owned()),
        repository: None,
        release_tag: None,
        release_arch: None,
    };
    let report = verify_report(&build, "abcd");
    assert_eq!(
        report,
        "Build verification\nRelease status: ⚠️ branch or local build\nVersion: `0.1.0`\nSource ref: `main`\nCommit: `unknown`\nBuild inputs: `clean`\nExecutable SHA-256: `abcd`\nRelease: `unknown`\nRelease checksum: `unknown`"
    );
}
