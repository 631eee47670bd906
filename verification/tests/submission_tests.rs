use grate_bot::canvas::CanvasPreset;
use grate_bot::commands::TextSubmissionError;
use grate_bot::messages::{
    after_delivery, chain_title, classic_start_dm, entry_post, reveal_header, short_drawing_dm, short_start_dm, DeliveryStep,
    showcase_description, start_dm_failed_message, start_success_message, RevealPost,
};
use grate_bot::state::{
    Advance, CanvasConfig, ChainEntry, Game, GameError, GameKey, RoundAssignment, RoundKind,
    ShortDrawingAssignment, ShortShowcase, SubmissionKind,
};
use grate_bot::submission::{
    submission_reply, submit_message_to_game, MessageAttachment, SubmitError, SubmittedMessage,
};

fn canvas(require_canvas_size: bool) -> CanvasConfig {
    CanvasConfig {
        preset: CanvasPreset::Square,
        background_hex: "#ffffff".to_owned(),
        require_canvas_size,
    }
}

fn key() -> GameKey {
    GameKey {
        guild_id: 1,
        channel_id: 10,
    }
}

fn text_message(content: &str) -> SubmittedMessage {
    SubmittedMessage {
        content: content.to_owned(),
        has_sticker: false,
        attachments: Vec::new(),
    }
}

fn image(name: &str, dimensions: Option<(u32, u32)>) -> MessageAttachment {
    MessageAttachment {
        content_type: None,
        filename: name.to_owned(),
        url: format!("https://cdn.example/{name}"),
        dimensions,
    }
}

fn started_two_player_game() -> Game {
    let mut game = Game::new(key(), 1, canvas(true));
    game.join(2).unwrap();
    game.start_with_player_order(1, vec![1, 2]).unwrap();
    game
}

#[test]
fn text_rounds_take_the_trimmed_message() {
    let mut game = started_two_player_game();
    let r = submit_message_to_game(&mut game, &text_message("  castle  "), 1);
    assert_eq!(r, Ok((Advance::Waiting, None)));
    assert_eq!(game.chains[0].entries[0].kind, SubmissionKind::Prompt("castle".to_owned()));
    let sticker = SubmittedMessage {
        content: "x".to_owned(),
        has_sticker: true,
        attachments: Vec::new(),
    };
    assert_eq!(
        submit_message_to_game(&mut game, &sticker, 2),
        Err(SubmitError::Text(TextSubmissionError::Sticker))
    );
    assert_eq!(
        submit_message_to_game(&mut game, &text_message("again"), 1),
        Err(SubmitError::Game(GameError::AlreadySubmitted))
    );
}

#[test]
fn drawing_rounds_take_the_first_image_of_the_right_size() {
    let mut game = started_two_player_game();
    submit_message_to_game(&mut game, &text_message("a"), 1).unwrap();
    let (advance, note) = submit_message_to_game(&mut game, &text_message("b"), 2).unwrap();
    assert!(note.is_none());
    let Advance::NextRound { next_round, .. } = advance else {
        panic!("expected the next round");
    };

    let pending = submit_message_to_game(&mut game, &text_message("whatever"), 2).unwrap();
    assert!(matches!(pending.0, Advance::NextRound { next_round: 1, .. }));
    assert_eq!(game.current_round, 0);
    game.commit_next_round(next_round).unwrap();

    assert_eq!(
        submit_message_to_game(&mut game, &text_message("no image"), 1),
        Err(SubmitError::MissingImage)
    );
    let wrong = SubmittedMessage {
        content: String::new(),
        has_sticker: false,
        attachments: vec![image("notes.txt", None), image("small.png", Some((10, 10)))],
    };
    let Err(SubmitError::CanvasSize(message)) = submit_message_to_game(&mut game, &wrong, 1) else {
        panic!("expected a size error");
    };
    assert!(message.contains("Your file is 10x10"));

    let right = SubmittedMessage {
        content: String::new(),
        has_sticker: false,
        attachments: vec![image("big.png", Some((1024, 1024))), image("other.png", None)],
    };
    let r = submit_message_to_game(&mut game, &right, 1).unwrap();
    assert_eq!(r.0, Advance::Waiting);
    assert_eq!(
        r.1,
        Some("Exact canvas size is enabled for this game (1024x1024).".to_owned())
    );
    assert_eq!(
        submission_reply(&Ok(r)),
        "Submission accepted. Exact canvas size is enabled for this game (1024x1024)."
    );
}

#[test]
fn replies_name_the_next_step() {
    assert_eq!(submission_reply(&Ok((Advance::Waiting, None))), "Submission accepted.");
    assert_eq!(
        submission_reply(&Ok((
            Advance::NextRound {
                next_round: 1,
                assignments: Vec::new(),
            },
            None
        ))),
        "Submission accepted. Next round is starting."
    );
    assert_eq!(
        submission_reply(&Err(SubmitError::MissingImage)),
        "This round needs an image attachment."
    );
    assert_eq!(
        submission_reply(&Err(SubmitError::Game(GameError::NotAPlayer))),
        "you are not in this game"
    );
}

#[test]
fn start_and_reveal_texts() {
    let assignment = RoundAssignment {
        player_id: 2,
        chain_index: 0,
        previous_entry: None,
        round_kind: RoundKind::Prompt,
    };
    assert_eq!(
        classic_start_dm(&canvas(true), &assignment),
        "Your Grateic Phone canvas is 1024x1024 with background #ffffff. Drawing uploads must match the canvas size exactly (1024x1024).\n\nRound 1: reply here with your initial prompt."
    );
    assert!(short_start_dm(&canvas(false)).starts_with(
        "Your short Grateic Phone canvas is 1024x1024 with background #ffffff. Drawing uploads may use any image size."
    ));
    let drawing = ShortDrawingAssignment {
        player_id: 2,
        prompt_author_id: 1,
        prompt: "sun whale".to_owned(),
    };
    assert_eq!(
        short_drawing_dm(&canvas(true), &drawing),
        "Short Grateic Phone drawing round: draw this prompt from another player, then upload your image here. Upload an image exactly 1024x1024.\n\nsun whale"
    );
    assert_eq!(
        start_success_message(true, 3),
        "Short game started with 3 players. Everyone has the canvas and first prompt instructions in DM."
    );
    assert!(start_dm_failed_message(4, "closed").starts_with("Could not start because I cannot DM <@4>."));
    assert_eq!(reveal_header(3, 7), "Grateic Phone reveal: 3 players, 7 rounds.");
    assert_eq!(chain_title(0), "Chain 1");
    let entry = ChainEntry {
        author_id: 5,
        kind: SubmissionKind::Drawing {
            attachment_url: "https://cdn.example/d.png".to_owned(),
            filename: "d.png".to_owned(),
        },
    };
    assert_eq!(
        entry_post(1, &entry),
        RevealPost::Plain {
            content: "2. <@5> drew:\nhttps://cdn.example/d.png".to_owned(),
        }
    );
    let showcase = ShortShowcase {
        prompt_author_id: 1,
        prompt: "red door".to_owned(),
        drawing_author_id: 2,
        attachment_url: "https://cdn.example/one.png".to_owned(),
        filename: "one.png".to_owned(),
    };
    assert_eq!(showcase_description(&showcase), "<@1> prompted:\nred door\n\n<@2> drew:");
}

#[test]
fn round_is_committed_only_after_every_dm_was_delivered() {
    assert_eq!(after_delivery(false, 3, None), DeliveryStep::Commit(3));
    assert_eq!(after_delivery(true, 1, None), DeliveryStep::Commit(1));
    match after_delivery(false, 3, Some("blocked")) {
        DeliveryStep::Report(notice) => {
            assert!(notice.starts_with("I could not deliver every next-round DM"));
            assert!(notice.ends_with("(blocked)"));
        }
        DeliveryStep::Commit(_) => panic!("a failed delivery must not commit"),
    }
    match after_delivery(true, 1, Some("x")) {
        DeliveryStep::Report(notice) => {
            assert!(notice.starts_with("I could not deliver every short-game drawing DM"))
        }
        DeliveryStep::Commit(_) => panic!("a failed delivery must not commit"),
    }
}
