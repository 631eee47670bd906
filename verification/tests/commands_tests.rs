use grate_bot::canvas::CanvasPreset;
use grate_bot::choices::GameModeChoice;
use grate_bot::commands::{
    assignment_message_content, button_custom_id, canvas_size_constraint_submission_text,
    is_image_attachment, mention_list, parse_button_custom_id, validate_canvas_size,
    validate_text_submission_content, ButtonAction, TextSubmissionError,
};
use grate_bot::games::GameTable;
use grate_bot::state::{
    CanvasConfig, ChainEntry, Game, GameError, GameKey, GamePhase, RoundAssignment, RoundKind,
    SubmissionKind,
};
use grate_bot::status::{format_dm_status, format_game_status};

fn canvas(require_canvas_size: bool) -> CanvasConfig {
    CanvasConfig {
        preset: CanvasPreset::Square,
        background_hex: "#ffffff".to_owned(),
        require_canvas_size,
    }
}

fn test_key() -> GameKey {
    GameKey {
        guild_id: 1,
        channel_id: 10,
    }
}

fn game_with_players(count: u64) -> Game {
    let mut game = Game::new(test_key(), 1, canvas(true));
    for player_id in 2..=count {
        game.join(player_id).unwrap();
    }
    game
}

fn table_with(game: Game) -> GameTable {
    let mut table = GameTable::new();
    table.games.push(game);
    table
}

#[test]
fn canvas_size_validation_accepts_exact_match_when_enabled() {
    assert_eq!(validate_canvas_size(&canvas(true), Some((1024, 1024))), Ok(()));
}

#[test]
fn canvas_size_validation_rejects_wrong_size_when_enabled() {
    let error = validate_canvas_size(&canvas(true), Some((800, 800))).unwrap_err();

    assert!(error.contains("1024x1024"));
    assert!(error.contains("800x800"));
}

#[test]
fn canvas_size_validation_rejects_missing_dimensions_when_enabled() {
    let error = validate_canvas_size(&canvas(true), None).unwrap_err();

    assert!(error.contains("could not read"));
    assert!(error.contains("1024x1024"));
}

#[test]
fn canvas_size_validation_accepts_any_dimensions_when_disabled() {
    assert_eq!(validate_canvas_size(&canvas(false), Some((800, 800))), Ok(()));
    assert_eq!(validate_canvas_size(&canvas(false), None), Ok(()));
}

#[test]
fn text_submission_validation_rejects_stickers() {
    let error = validate_text_submission_content("draw a house", true).unwrap_err();

    assert!(error.message().contains("stickers"));
}

#[test]
fn text_submission_validation_caps_at_140_characters_after_trimming() {
    assert_eq!(
        validate_text_submission_content(&format!("  {}  ", "a".repeat(140)), false).unwrap(),
        "a".repeat(140)
    );

    let error = validate_text_submission_content(&"a".repeat(141), false).unwrap_err();
    assert!(error.message().contains("140"));
}

#[test]
fn live_lobby_status_lists_joined_players() {
    let game = game_with_players(3);
    let status = format_game_status(&game);

    assert!(status.contains("Grateic Phone lobby"));
    assert!(status.contains("Players joined (3/2 minimum): <@1>, <@2>, <@3>"));
    assert!(status.contains("Ready: 3/3"));
}

#[test]
fn dm_status_reports_requester_submission_state() {
    let mut game = game_with_players(2);
    game.start(1).unwrap();
    game.submit_text(1, "tiny castle".to_owned()).unwrap();

    let submitted_status = format_dm_status(&game, 1);
    let waiting_status = format_dm_status(&game, 2);

    assert!(submitted_status.contains("You have submitted this round."));
    assert!(waiting_status.contains("You have not submitted this round yet."));
}

#[test]
fn drawing_assignment_omits_prompt_author() {
    let assignment = RoundAssignment {
        player_id: 2,
        chain_index: 0,
        previous_entry: Some(ChainEntry {
            author_id: 1,
            kind: SubmissionKind::Prompt("tiny castle".to_owned()),
        }),
        round_kind: RoundKind::Drawing,
    };

    let content = assignment_message_content(&assignment, true, 1024, 1024);

    assert!(content.contains("tiny castle"));
    assert!(!content.contains("<@1>"));
    assert!(!content.contains("wrote"));
}

#[test]
fn lobby_button_toggles_membership() {
    let mut table = table_with(game_with_players(1));

    let joined = table.toggle_lobby_membership(test_key(), 2).unwrap();
    assert!(joined.contains("joined"));

    let left = table.toggle_lobby_membership(test_key(), 2).unwrap();
    assert!(left.contains("left"));

    let i = table.find(test_key()).unwrap();
    assert_eq!(table.games[i].players, vec![1]);
}

#[test]
fn normal_cancel_is_lobby_only_and_force_cancel_handles_started_game() {
    let mut game = game_with_players(2);
    game.start(1).unwrap();
    let mut table = table_with(game);

    let error = table.cancel_game(test_key(), 1).unwrap_err();
    assert!(error.message().contains("already started"));

    table.force_cancel_game(test_key(), 1).unwrap();
    assert!(table.find(test_key()).is_none());
}

#[test]
fn button_ids_round_trip_and_reject_other_ids() {
    let key = GameKey {
        guild_id: 123456789012,
        channel_id: 42,
    };
    let id = button_custom_id(ButtonAction::Start, key);
    assert_eq!(id, "grateic:start:123456789012:42");
    assert_eq!(parse_button_custom_id(&id), Some((ButtonAction::Start, key)));
    assert_eq!(parse_button_custom_id("grateic:start:1:2:3"), None);
    assert_eq!(parse_button_custom_id("grateic:dance:1:2"), None);
    assert_eq!(parse_button_custom_id("other:join:1:2"), None);
    assert_eq!(parse_button_custom_id("grateic:join:x:2"), None);
}

#[test]
fn image_attachments_are_recognised_by_type_or_extension() {
    assert!(is_image_attachment(Some("image/png"), "upload"));
    assert!(is_image_attachment(None, "drawing.JPEG"));
    assert!(is_image_attachment(None, "a.b.webp"));
    assert!(!is_image_attachment(Some("text/plain"), "notes.txt"));
    assert!(!is_image_attachment(None, "png"));
}

#[test]
fn empty_text_submissions_are_refused() {
    assert_eq!(
        validate_text_submission_content("   \n ", false),
        Err(TextSubmissionError::Empty)
    );
}

#[test]
fn mention_lists_name_nobody_when_empty() {
    assert_eq!(mention_list(&[]), "nobody");
    assert_eq!(mention_list(&[5, 6]), "<@5>, <@6>");
}

#[test]
fn submission_note_states_the_canvas_rule() {
    assert_eq!(
        canvas_size_constraint_submission_text(&canvas(true)),
        "Exact canvas size is enabled for this game (1024x1024)."
    );
}

#[test]
fn one_game_per_server_and_one_game_per_player() {
    let mut table = GameTable::new();
    assert_eq!(table.create_game(test_key(), 1, canvas(true), GameModeChoice::Full), Ok(()));
    let same_server = GameKey {
        guild_id: 1,
        channel_id: 11,
    };
    assert_eq!(
        table.create_game(same_server, 2, canvas(true), GameModeChoice::Short),
        Err(GameError::GameAlreadyExists)
    );
    let other_server = GameKey {
        guild_id: 2,
        channel_id: 20,
    };
    assert_eq!(
        table.create_game(other_server, 1, canvas(true), GameModeChoice::Short),
        Err(GameError::AlreadyInAnotherGame)
    );
    assert_eq!(table.create_game(other_server, 5, canvas(true), GameModeChoice::Short), Ok(()));
    assert_eq!(
        table.join_game(other_server, 1),
        Err(GameError::AlreadyInAnotherGame)
    );
    assert_eq!(
        table.join_game(test_key(), 2).unwrap(),
        "<@2> joined the Grateic Phone lobby. Players: 2."
    );
    assert_eq!(table.active_game_key_for_guild(2), Ok(other_server));
    assert_eq!(table.active_game_key_for_guild(3), Err(GameError::GameNotFound));
}

#[test]
fn direct_messages_reach_only_running_games_of_the_player() {
    let mut table = GameTable::new();
    table.create_game(test_key(), 1, canvas(true), GameModeChoice::Full).unwrap();
    table.join_game(test_key(), 2).unwrap();
    assert!(table.games_accepting_submissions(2).is_empty());
    table.start_game(test_key(), 1).unwrap();
    assert_eq!(table.games_accepting_submissions(2), vec![test_key()]);
    assert!(table.games_accepting_submissions(3).is_empty());
    assert_eq!(table.games[0].phase, GamePhase::InProgress);
}
