use grate_bot::canvas::CanvasPreset;
use grate_bot::state::{
    Advance, CanvasConfig, Game, GameError, GameKey, GamePhase, RoundKind, StartRound,
    SubmissionKind,
};

fn test_canvas() -> CanvasConfig {
    CanvasConfig {
        preset: CanvasPreset::Square,
        background_hex: "#ffffff".to_owned(),
        require_canvas_size: true,
    }
}

fn test_key() -> GameKey {
    GameKey {
        guild_id: 1,
        channel_id: 10,
    }
}

fn game_with_players(count: u64) -> Game {
    let mut game = Game::new(test_key(), 1, test_canvas());
    for player_id in 2..=count {
        game.join(player_id).unwrap();
    }
    game
}

fn short_game_with_players(count: u64) -> Game {
    let mut game = Game::new_short(test_key(), 1, test_canvas());
    for player_id in 2..=count {
        game.join(player_id).unwrap();
    }
    game
}

fn commit_if_next_round(game: &mut Game, advance: Advance) {
    if let Advance::NextRound { next_round, .. } = advance {
        game.commit_next_round(next_round).unwrap();
    }
}

fn start_in_join_order(game: &mut Game) -> StartRound {
    let order = game.players.clone();
    game.start_with_player_order(1, order).unwrap()
}

#[test]
fn each_chain_alternates_text_and_drawing_until_author_names_final_image() {
    for count in [2u64, 3, 4, 5, 6] {
        let mut game = game_with_players(count);
        let player_order = match count {
            3 => vec![2, 3, 1],
            4 => vec![3, 1, 4, 2],
            5 => vec![4, 1, 5, 2, 3],
            6 => vec![6, 2, 4, 1, 5, 3],
            _ => game.players.clone(),
        };
        game.start_with_player_order(1, player_order.clone()).unwrap();

        for round in 0..game.total_rounds() {
            let assignments = game.assignments_for_current_round();
            let mut chain_indexes = assignments
                .iter()
                .map(|assignment| assignment.chain_index)
                .collect::<Vec<_>>();
            chain_indexes.sort_unstable();

            assert_eq!(chain_indexes, (0..count as usize).collect::<Vec<_>>());

            for assignment in assignments {
                let result = match game.round_kind() {
                    RoundKind::Prompt => {
                        game.submit_text(assignment.player_id, format!("prompt {round}"))
                    }
                    RoundKind::Drawing => game.submit_drawing(
                        assignment.player_id,
                        format!("https://cdn.example/{round}.png"),
                        "drawing.png".to_owned(),
                    ),
                    RoundKind::Naming => {
                        game.submit_text(assignment.player_id, format!("name {round}"))
                    }
                };
                commit_if_next_round(&mut game, result.unwrap());
            }
        }

        assert_eq!(game.phase, GamePhase::Finished);
        for (chain_index, chain) in game.chains.iter().enumerate() {
            assert_eq!(chain.entries.len(), game.total_rounds());
            assert_eq!(chain.original_player_id, player_order[chain_index]);
            assert_eq!(chain.entries.first().unwrap().author_id, chain.original_player_id);
            assert!(matches!(chain.entries.first().unwrap().kind, SubmissionKind::Prompt(_)));
            assert_eq!(chain.entries.last().unwrap().author_id, chain.original_player_id);
            assert!(matches!(chain.entries.last().unwrap().kind, SubmissionKind::Name(_)));

            let mut prompt_authors = Vec::new();
            let mut drawing_authors = Vec::new();
            for (entry_index, entry) in chain.entries.iter().enumerate() {
                match entry_index {
                    0 => {
                        assert!(matches!(entry.kind, SubmissionKind::Prompt(_)));
                        prompt_authors.push(entry.author_id);
                    }
                    index if index + 1 == count as usize * 2 + 1 => {
                        assert!(matches!(entry.kind, SubmissionKind::Name(_)))
                    }
                    index if index % 2 == 1 => {
                        assert!(matches!(entry.kind, SubmissionKind::Drawing { .. }));
                        drawing_authors.push(entry.author_id);
                    }
                    _ => {
                        assert!(matches!(entry.kind, SubmissionKind::Prompt(_)));
                        prompt_authors.push(entry.author_id);
                    }
                }
            }

            let mut sorted_prompt_authors = prompt_authors;
            sorted_prompt_authors.sort_unstable();
            assert_eq!(sorted_prompt_authors, (1..=count).collect::<Vec<_>>());

            let mut sorted_drawing_authors = drawing_authors;
            sorted_drawing_authors.sort_unstable();
            assert_eq!(sorted_drawing_authors, (1..=count).collect::<Vec<_>>());
        }
    }
}

#[test]
fn detects_completion_after_final_round() {
    let mut game = game_with_players(3);
    game.start(1).unwrap();

    assert_eq!(game.submit_text(1, "a".to_owned()).unwrap(), Advance::Waiting);
    assert_eq!(game.submit_text(2, "b".to_owned()).unwrap(), Advance::Waiting);
    let advance = game.submit_text(3, "c".to_owned()).unwrap();
    assert!(matches!(advance, Advance::NextRound { .. }));
    commit_if_next_round(&mut game, advance);

    while game.round_kind() != RoundKind::Naming {
        let assignments = game.assignments_for_current_round();
        for assignment in assignments {
            let advance = match game.round_kind() {
                RoundKind::Prompt => game.submit_text(assignment.player_id, "next prompt".to_owned()),
                RoundKind::Drawing => game.submit_drawing(
                    assignment.player_id,
                    "https://cdn.example/image.png".to_owned(),
                    "drawing.png".to_owned(),
                ),
                RoundKind::Naming => unreachable!(),
            }
            .unwrap();

            commit_if_next_round(&mut game, advance);
        }
    }

    assert_eq!(game.round_kind(), RoundKind::Naming);
    assert_eq!(game.assignments_for_current_round()[0].chain_index, 0);
    assert_eq!(game.assignments_for_current_round()[1].chain_index, 1);
    assert_eq!(game.assignments_for_current_round()[2].chain_index, 2);

    let naming_assignments = game.assignments_for_current_round();
    let naming_cases = [
        (naming_assignments[0].player_id, naming_assignments[0].chain_index, "noodle ruins"),
        (naming_assignments[1].player_id, naming_assignments[1].chain_index, "robot fog"),
        (naming_assignments[2].player_id, naming_assignments[2].chain_index, "dragon office"),
    ];

    assert_eq!(
        game.submit_text(naming_cases[0].0, naming_cases[0].2.to_owned()).unwrap(),
        Advance::Waiting
    );
    assert_eq!(
        game.chains[naming_cases[0].1].entries.last().unwrap().kind,
        SubmissionKind::Name(naming_cases[0].2.to_owned())
    );

    assert_eq!(
        game.submit_text(naming_cases[1].0, naming_cases[1].2.to_owned()).unwrap(),
        Advance::Waiting
    );
    assert_eq!(
        game.chains[naming_cases[1].1].entries.last().unwrap().kind,
        SubmissionKind::Name(naming_cases[1].2.to_owned())
    );

    assert!(matches!(
        game.submit_text(naming_cases[2].0, naming_cases[2].2.to_owned()).unwrap(),
        Advance::Finished { .. }
    ));
    assert_eq!(
        game.chains[naming_cases[2].1].entries.last().unwrap().kind,
        SubmissionKind::Name(naming_cases[2].2.to_owned())
    );
    assert_eq!(game.phase, GamePhase::Finished);

    for chain in &game.chains {
        assert!(matches!(chain.entries.last().unwrap().kind, SubmissionKind::Name(_)));
        assert_eq!(chain.entries.last().unwrap().author_id, chain.original_player_id);
    }
}

#[test]
fn next_round_does_not_commit_until_delivery_succeeds() {
    let mut game = game_with_players(3);
    game.start(1).unwrap();

    game.submit_text(1, "a".to_owned()).unwrap();
    game.submit_text(2, "b".to_owned()).unwrap();
    let advance = game.submit_text(3, "c".to_owned()).unwrap();

    let Advance::NextRound { next_round, assignments } = advance else {
        panic!("expected next round assignments");
    };

    assert_eq!(next_round, 1);
    assert_eq!(assignments.len(), 3);
    assert_eq!(game.current_round, 0);
    assert_eq!(game.submitted_count(), 3);
    assert!(matches!(
        game.pending_next_round(),
        Some(Advance::NextRound { next_round: 1, .. })
    ));

    game.commit_next_round(next_round).unwrap();
    assert_eq!(game.current_round, 1);
    assert_eq!(game.submitted_count(), 0);
    assert_eq!(game.round_kind(), RoundKind::Drawing);
}

#[test]
fn rejects_invalid_actions() {
    let mut game = game_with_players(2);

    assert_eq!(game.start(2), Err(GameError::NotHost));
    assert_eq!(game.submit_text(1, "too early".to_owned()), Err(GameError::NotInProgress));

    game.start(1).unwrap();
    assert_eq!(game.join(99), Err(GameError::AlreadyStarted));
    assert_eq!(
        game.submit_drawing(1, "url".to_owned(), "x.png".to_owned()),
        Err(GameError::ExpectedText)
    );
    assert_eq!(game.submit_text(99, "oops".to_owned()), Err(GameError::NotAPlayer));

    game.submit_text(1, "ok".to_owned()).unwrap();
    assert_eq!(game.submit_text(1, "again".to_owned()), Err(GameError::AlreadySubmitted));
}

#[test]
fn players_are_ready_by_default_and_failed_dm_marks_unready() {
    let mut game = game_with_players(3);

    assert!(game.unready_players().is_empty());
    assert_eq!(game.ready_count(), 3);
    assert!(game.start(1).is_ok());

    let mut game = game_with_players(3);
    game.mark_not_ready(2);
    assert_eq!(game.start(1), Err(GameError::PlayersNotReady));
    assert_eq!(game.unready_players(), vec![2]);

    game.mark_ready(2).unwrap();
    assert!(game.unready_players().is_empty());
    assert!(game.start(1).is_ok());
}

#[test]
fn non_host_can_leave_lobby() {
    let mut game = game_with_players(3);

    game.leave(2).unwrap();

    assert_eq!(game.players, vec![1, 3]);
    assert!(!game.has_player(2));
}

#[test]
fn host_cannot_leave_lobby() {
    let mut game = game_with_players(2);

    assert_eq!(game.leave(1), Err(GameError::HostCannotLeave));
    assert_eq!(game.players, vec![1, 2]);
}

#[test]
fn leave_is_rejected_after_start() {
    let mut game = game_with_players(2);
    start_in_join_order(&mut game);

    assert_eq!(game.leave(2), Err(GameError::AlreadyStarted));
}

#[test]
fn normal_cancel_is_lobby_only_but_force_cancel_can_end_started_game() {
    let mut game = game_with_players(2);

    game.cancel(1).unwrap();
    assert_eq!(game.phase, GamePhase::Cancelled);

    let mut game = game_with_players(2);
    start_in_join_order(&mut game);

    assert_eq!(game.cancel(1), Err(GameError::AlreadyStarted));
    game.force_cancel(1).unwrap();
    assert_eq!(game.phase, GamePhase::Cancelled);
}

#[test]
fn leave_removes_readiness_tracking() {
    let mut game = game_with_players(3);
    game.mark_not_ready(2);

    game.leave(2).unwrap();

    assert_eq!(game.players, vec![1, 3]);
    assert_eq!(game.unready_players(), Vec::<u64>::new());
    assert_eq!(game.ready_count(), 2);
}

#[test]
fn text_submissions_are_trimmed_and_capped_at_140_characters() {
    let mut game = game_with_players(2);
    start_in_join_order(&mut game);

    let accepted = format!("  {}  ", "a".repeat(140));
    assert_eq!(game.submit_text(1, accepted).unwrap(), Advance::Waiting);
    assert_eq!(game.chains[0].entries[0].kind, SubmissionKind::Prompt("a".repeat(140)));

    assert_eq!(game.submit_text(2, "b".repeat(141)), Err(GameError::TextTooLong));
}

#[test]
fn short_game_collects_prompts_then_assigns_each_to_another_player() {
    let mut game = short_game_with_players(3);

    assert_eq!(game.start_with_player_order(1, vec![2, 3, 1]).unwrap(), StartRound::ShortPrompt);
    assert_eq!(game.total_rounds(), 2);
    assert_eq!(game.round_kind(), RoundKind::Prompt);

    assert_eq!(game.submit_text(1, "sun whale".to_owned()).unwrap(), Advance::Waiting);
    assert_eq!(game.submit_text(2, "moon castle".to_owned()).unwrap(), Advance::Waiting);

    let advance = game.submit_text(3, "tiny train".to_owned()).unwrap();
    let Advance::ShortDrawingRound { assignments } = advance else {
        panic!("expected short drawing assignments");
    };

    assert_eq!(assignments.len(), 3);
    for assignment in &assignments {
        assert_ne!(assignment.player_id, assignment.prompt_author_id);
    }

    assert_eq!(assignments[0].player_id, 2);
    assert_eq!(assignments[0].prompt_author_id, 1);
    assert_eq!(assignments[0].prompt, "sun whale");

    game.commit_next_round(1).unwrap();
    assert_eq!(game.round_kind(), RoundKind::Drawing);
    assert_eq!(game.submitted_count(), 0);
}

fn assignments_for_submission_order(order: &[u64]) -> Vec<(u64, u64, String)> {
    let mut game = short_game_with_players(3);
    game.start_with_player_order(1, vec![2, 3, 1]).unwrap();

    let mut advance = Advance::Waiting;
    for player_id in order {
        advance = game.submit_text(*player_id, format!("prompt from {player_id}")).unwrap();
    }

    let Advance::ShortDrawingRound { assignments } = advance else {
        panic!("expected short drawing assignments");
    };

    assignments
        .into_iter()
        .map(|assignment| (assignment.player_id, assignment.prompt_author_id, assignment.prompt))
        .collect()
}

#[test]
fn short_game_drawing_assignments_follow_shuffled_order_not_submission_order() {
    let expected = vec![
        (2, 1, "prompt from 1".to_owned()),
        (3, 2, "prompt from 2".to_owned()),
        (1, 3, "prompt from 3".to_owned()),
    ];

    assert_eq!(assignments_for_submission_order(&[1, 2, 3]), expected);
    assert_eq!(assignments_for_submission_order(&[3, 1, 2]), expected);
}

#[test]
fn short_game_finishes_with_showcases_after_one_drawing_round() {
    let mut game = short_game_with_players(2);
    game.start(1).unwrap();

    game.submit_text(1, "red door".to_owned()).unwrap();
    let advance = game.submit_text(2, "blue key".to_owned()).unwrap();
    let Advance::ShortDrawingRound { assignments } = advance else {
        panic!("expected short drawing assignments");
    };
    game.commit_next_round(1).unwrap();

    assert_eq!(game.round_kind(), RoundKind::Drawing);
    assert_eq!(
        game.submit_drawing(
            assignments[0].player_id,
            "https://cdn.example/one.png".to_owned(),
            "one.png".to_owned(),
        )
        .unwrap(),
        Advance::Waiting
    );

    let advance = game
        .submit_drawing(
            assignments[1].player_id,
            "https://cdn.example/two.png".to_owned(),
            "two.png".to_owned(),
        )
        .unwrap();
    let Advance::ShortFinished { showcases } = advance else {
        panic!("expected short showcases");
    };

    assert_eq!(game.phase, GamePhase::Finished);
    assert_eq!(showcases.len(), 2);
    assert!(showcases.iter().any(|showcase| {
        showcase.prompt_author_id == 1
            && showcase.prompt == "red door"
            && showcase.drawing_author_id == 2
    }));
    assert!(showcases.iter().any(|showcase| {
        showcase.prompt_author_id == 2
            && showcase.prompt == "blue key"
            && showcase.drawing_author_id == 1
    }));
}

#[test]
fn start_keeps_the_same_players_in_some_order() {
    let mut game = game_with_players(6);
    game.start(1).unwrap();
    let mut players = game.players.clone();
    players.sort_unstable();
    assert_eq!(players, vec![1, 2, 3, 4, 5, 6]);
    assert_eq!(game.chains.len(), 6);
}

#[test]
fn full_game_with_four_players_runs_nine_rounds() {
    let mut game = game_with_players(4);
    assert_eq!(game.total_rounds(), 9);
    start_in_join_order(&mut game);
    assert_eq!(game.round_kind(), RoundKind::Prompt);
}

#[test]
fn leaving_a_started_game_and_joining_twice_are_refused() {
    let mut game = game_with_players(2);
    assert_eq!(game.join(2), Err(GameError::AlreadyJoined));
    assert_eq!(game.leave(7), Err(GameError::NotAPlayer));
    assert_eq!(game.mark_ready(7), Err(GameError::NotAPlayer));
}

#[test]
fn failed_start_returns_to_lobby_and_marks_player_unready() {
    let mut game = short_game_with_players(3);
    game.start(1).unwrap();
    game.reset_to_lobby_after_failed_start(3);
    assert_eq!(game.phase, GamePhase::Lobby);
    assert_eq!(game.current_round, 0);
    assert_eq!(game.unready_players(), vec![3]);
    assert_eq!(game.start(1), Err(GameError::PlayersNotReady));
}

#[test]
fn commit_refuses_stale_or_incomplete_rounds() {
    let mut game = game_with_players(2);
    start_in_join_order(&mut game);
    assert_eq!(game.commit_next_round(1), Err(GameError::RoundNotComplete));
    game.submit_text(1, "a".to_owned()).unwrap();
    game.submit_text(2, "b".to_owned()).unwrap();
    assert_eq!(game.commit_next_round(3), Err(GameError::StaleRoundTransition));
    assert_eq!(game.commit_next_round(1), Ok(()));
    assert_eq!(game.commit_next_round(2), Err(GameError::RoundNotComplete));
}

#[test]
fn game_error_messages_read_as_sentences() {
    assert_eq!(GameError::GameAlreadyExists.message(), "a game already exists in this server");
    assert_eq!(GameError::GameNotFound.message(), "there is no game in this server");
}

#[test]
fn marking_not_ready_lowers_ready_count_and_blocks_start() {
    let mut game = game_with_players(4);
    game.mark_not_ready(3);
    assert_eq!(game.ready_count(), 3);
    assert_eq!(game.unready_players(), vec![3]);
    assert_eq!(game.players, vec![1, 2, 3, 4]);
    assert_eq!(game.phase, GamePhase::Lobby);
    assert_eq!(game.start(1), Err(GameError::PlayersNotReady));
}

#[test]
fn full_game_never_hands_a_player_their_own_entry() {
    for count in [3u64, 4, 5] {
        let mut game = game_with_players(count);
        start_in_join_order(&mut game);
        for round in 0..game.total_rounds() {
            let assignments = game.assignments_for_current_round();
            for assignment in &assignments {
                if round >= 1 {
                    let previous = assignment.previous_entry.as_ref().unwrap();
                    assert_ne!(previous.author_id, assignment.player_id);
                }
            }
            for assignment in assignments {
                let advance = match game.round_kind() {
                    RoundKind::Drawing => game
                        .submit_drawing(
                            assignment.player_id,
                            format!("https://example.test/{}.png", assignment.player_id),
                            "drawing.png".to_owned(),
                        )
                        .unwrap(),
                    _ => game
                        .submit_text(assignment.player_id, format!("text {}", assignment.player_id))
                        .unwrap(),
                };
                commit_if_next_round(&mut game, advance);
            }
        }
        assert_eq!(game.phase, GamePhase::Finished);
    }
}
