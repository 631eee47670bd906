use grate_bot::canvas::CanvasPreset;
use grate_bot::choices::GameModeChoice;
use grate_bot::games::GameTable;
use grate_bot::state::{Advance, CanvasConfig, GameError, GameKey, GamePhase, StartRound};
use grate_bot::submission::SubmittedMessage;

fn canvas() -> CanvasConfig {
    CanvasConfig {
        preset: CanvasPreset::Portrait,
        background_hex: "#dbeafe".to_owned(),
        require_canvas_size: false,
    }
}

fn key() -> GameKey {
    GameKey {
        guild_id: 7,
        channel_id: 70,
    }
}

fn lobby(mode: GameModeChoice, players: &[u64]) -> GameTable {
    let mut table = GameTable::new();
    table.create_game(key(), 1, canvas(), mode).unwrap();
    for player in players {
        table.join_game(key(), *player).unwrap();
    }
    table
}

#[test]
fn start_checks_host_players_phase_and_readiness() {
    let mut table = lobby(GameModeChoice::Full, &[]);
    assert_eq!(table.start_precheck(key(), 1), Err(GameError::NotEnoughPlayers));
    table.join_game(key(), 2).unwrap();
    assert_eq!(table.start_precheck(key(), 2), Err(GameError::NotHost));
    assert_eq!(table.start_precheck(key(), 1), Ok(None));

    table.start_game(key(), 1).unwrap();
    table.mark_failed_start(key(), 2);
    assert_eq!(table.games[0].phase, GamePhase::Lobby);
    assert_eq!(
        table.start_precheck(key(), 1),
        Ok(Some(
            "Cannot start yet. I could not DM these players before. They need to enable DMs from this server and run `/grate grateic ready`: <@2>"
                .to_owned()
        ))
    );
    assert_eq!(table.ready_precheck(key(), 2), Ok(()));
    assert_eq!(table.ready_precheck(key(), 9), Err(GameError::NotAPlayer));
    assert_eq!(table.mark_ready(key(), 2).unwrap(), "<@2> is ready. Ready players: 2/2.");
    assert_eq!(table.start_precheck(key(), 1), Ok(None));
    assert!(matches!(table.start_game(key(), 1), Ok(StartRound::Classic(_))));
    assert_eq!(table.start_precheck(key(), 1), Err(GameError::AlreadyStarted));
    assert_eq!(table.ready_precheck(key(), 2), Err(GameError::NotInLobby));
}

#[test]
fn status_replies_depend_on_phase_and_membership() {
    let mut table = lobby(GameModeChoice::Short, &[2]);
    assert_eq!(
        table.status_command_reply(key(), 9).unwrap(),
        "Lobby status refreshed in the original lobby message."
    );
    assert_eq!(
        table.status_button_reply(key(), 2),
        ("Lobby status refreshed in the original lobby message.".to_owned(), true)
    );
    assert_eq!(
        table.status_button_reply(key(), 9).0,
        "This status button belongs to a Grateic Phone game you are not in."
    );
    table.start_game(key(), 1).unwrap();
    assert_eq!(table.status_command_reply(key(), 9), Err(GameError::NotAPlayer));
    assert_eq!(
        table.status_command_reply(key(), 2).unwrap(),
        "Grateic Phone status\nMode: short\nPhase: InProgress\nRound: 1/2\nSubmitted this round: 0/2\nWaiting for inputs: 2\nYou have not submitted this round yet."
    );
    let other = GameKey {
        guild_id: 8,
        channel_id: 80,
    };
    assert_eq!(
        table.status_button_reply(other, 2),
        ("That Grateic Phone game is no longer active.".to_owned(), false)
    );
    assert_eq!(table.status_command_reply(other, 2), Err(GameError::GameNotFound));
}

#[test]
fn lobby_message_shows_settings_and_start_hint() {
    let table = lobby(GameModeChoice::Short, &[]);
    let status = table.lobby_status(key()).unwrap();
    assert_eq!(
        status,
        "Grateic Phone lobby\nMode: short\nHost: <@1>\nPlayers joined (1/2 minimum): <@1>\nPhase: Lobby\nRound: 0/2\nSubmitted this round: 0/1\nWaiting for inputs: not in progress\nReady: 1/1\nNeeds ready: nobody\nCanvas: portrait 1080x1920 #dbeafe\nDrawing size rule: Drawing uploads may use any image size.\nStart: waiting for at least 2 players."
    );
}

#[test]
fn submissions_flow_through_the_table_until_removed() {
    let mut table = lobby(GameModeChoice::Short, &[2]);
    table.start_game(key(), 1).unwrap();
    let text = |content: &str| SubmittedMessage {
        content: content.to_owned(),
        has_sticker: false,
        attachments: Vec::new(),
    };
    assert_eq!(table.submit_message(key(), &text("red door"), 1), Ok((Advance::Waiting, None)));
    let (advance, _) = table.submit_message(key(), &text("blue key"), 2).unwrap();
    assert!(matches!(advance, Advance::ShortDrawingRound { .. }));
    assert_eq!(table.commit_next_round(key(), 2), Err(GameError::StaleRoundTransition));
    assert_eq!(table.commit_next_round(key(), 1), Ok(()));
    assert!(table.remove_game(key()).is_some());
    assert!(table.remove_game(key()).is_none());
    assert!(table.lobby_status(key()).is_none());
}

#[test]
fn leaving_and_cancelling_through_the_table() {
    let mut table = lobby(GameModeChoice::Full, &[2, 3]);
    assert_eq!(table.leave_game(key(), 3).unwrap(), "<@3> left the Grateic Phone lobby. Players: 2.");
    assert_eq!(table.leave_game(key(), 1), Err(GameError::HostCannotLeave));
    assert_eq!(table.cancel_game(key(), 2).unwrap_err(), GameError::NotHost);
    let game = table.cancel_game(key(), 1).unwrap();
    assert_eq!(game.phase, GamePhase::Cancelled);
    assert!(table.games.is_empty());
    assert_eq!(table.join_game(key(), 4), Err(GameError::GameNotFound));
    assert_eq!(table.set_lobby_message_id(key(), 5), Err(GameError::GameNotFound));
}

#[test]
fn drawing_round_refuses_text_and_missing_guild_reads_well() {
    let mut table = lobby(GameModeChoice::Full, &[2]);
    table.start_game(key(), 1).unwrap();
    let game = &mut table.games[0];
    game.submit_text(1, "a".to_owned()).unwrap();
    let advance = game.submit_text(2, "b".to_owned()).unwrap();
    let Advance::NextRound { next_round, .. } = advance else {
        panic!("expected the next round");
    };
    game.commit_next_round(next_round).unwrap();
    assert_eq!(game.submit_text(1, "words".to_owned()), Err(GameError::ExpectedDrawing));
    assert_eq!(
        GameError::MissingGuild.message(),
        "this command must be used in a server channel"
    );
}
