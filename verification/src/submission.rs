//! Turning a direct message into a game submission, and the reply to it.

use crate::canvas::preset_dimensions;
use crate::commands::{
    accepted_submission_message, accepted_text, canvas_size_constraint_submission_text,
    canvas_size_error_text, is_image, is_image_attachment, submission_constraint_text,
    text_submission_error_text, validate_canvas_size, validate_text_submission_content,
    TextSubmissionError,
};
use crate::state::{
    chain_for, game_error_text, mode_drawings, Advance, ChainEntry, Game, GameError, RoundKind,
    SubmissionKind,
};
use crate::text::{self, push_str};
use vstd::prelude::*;

verus! {

broadcast use vstd::string::group_string_axioms;

/// What the logic reads of an attachment of a direct message.
#[derive(Debug, Clone, PartialEq, Eq)]
pub struct MessageAttachment {
    pub content_type: Option<String>,
    pub filename: String,
    pub url: String,
    pub dimensions: Option<(u32, u32)>,
}

/// What the logic reads of a direct message sent to the bot.
#[derive(Debug, Clone, PartialEq, Eq)]
pub struct SubmittedMessage {
    pub content: String,
    pub has_sticker: bool,
    pub attachments: Vec<MessageAttachment>,
}

pub open spec fn attachment_is_image(a: MessageAttachment) -> bool {
    is_image(
        match a.content_type {
            Some(t) => Some(t@),
            None => None,
        },
        a.filename@,
    )
}

/// The position of the first image among `atts[i..]`.
pub open spec fn first_image_from(atts: Seq<MessageAttachment>, i: int) -> Option<int>
    decreases atts.len() - i,
{
    if i < 0 || i >= atts.len() {
        None
    } else if attachment_is_image(atts[i]) {
        Some(i)
    } else {
        first_image_from(atts, i + 1)
    }
}

pub open spec fn first_image(atts: Seq<MessageAttachment>) -> Option<int> {
    first_image_from(atts, 0)
}

proof fn lemma_first_image_bound(atts: Seq<MessageAttachment>, i: int)
    ensures
        first_image_from(atts, i) matches Some(k) ==> i <= k < atts.len() && attachment_is_image(
            atts[k],
        ),
    decreases atts.len() - i,
{
    if 0 <= i < atts.len() && !attachment_is_image(atts[i]) {
        lemma_first_image_bound(atts, i + 1);
    }
}

fn find_first_image(atts: &Vec<MessageAttachment>) -> (r: Option<usize>)
    ensures
        match r {
            Some(k) => first_image(atts@) == Some(k as int),
            None => first_image(atts@) is None,
        },
{
    let mut i: usize = 0;
    while i < atts.len()
        invariant
            i <= atts@.len(),
            first_image(atts@) == first_image_from(atts@, i as int),
        decreases atts@.len() - i,
    {
        let a = &atts[i];
        let ct: Option<&str> = match &a.content_type {
            Some(t) => Some(t.as_str()),
            None => None,
        };
        if is_image_attachment(ct, a.filename.as_str()) {
            return Some(i);
        }
        i += 1;
    }
    None
}

/// Why a direct message was not taken as a submission.
#[derive(Debug, Clone, PartialEq, Eq)]
pub enum SubmitError {
    Text(TextSubmissionError),
    MissingImage,
    CanvasSize(String),
    Game(GameError),
}

pub open spec fn submit_error_text(e: SubmitError) -> Seq<char> {
    match e {
        SubmitError::Text(t) => text_submission_error_text(t),
        SubmitError::MissingImage => "This round needs an image attachment."@,
        SubmitError::CanvasSize(m) => m@,
        SubmitError::Game(g) => game_error_text(g),
    }
}

impl SubmitError {
    /// The reply the player gets.
    pub fn message(&self) -> (m: String)
        ensures
            m@ == submit_error_text(*self),
    {
        match self {
            SubmitError::Text(t) => text::owned(t.message()),
            SubmitError::MissingImage => text::owned("This round needs an image attachment."),
            SubmitError::CanvasSize(m) => m.clone(),
            SubmitError::Game(g) => text::owned(g.message()),
        }
    }
}

/// Why a text reply is refused before it reaches the game, if it is.
pub open spec fn text_refusal(content: Seq<char>, has_sticker: bool) -> Option<TextSubmissionError> {
    if has_sticker {
        Some(TextSubmissionError::Sticker)
    } else if text::trim_seq(content).len() == 0 {
        Some(TextSubmissionError::Empty)
    } else if text::trim_seq(content).len() > 140 {
        Some(TextSubmissionError::TooLong)
    } else {
        None
    }
}

/// The game's own answer inside a submission result.
pub open spec fn game_part(r: Result<(Advance, Option<String>), SubmitError>) -> Result<
    Advance,
    GameError,
> {
    match r {
        Ok((a, _)) => Ok(a),
        Err(SubmitError::Game(e)) => Err(e),
        Err(_) => Err(GameError::NotInProgress),
    }
}

/// `r` is what the game answered, with `note` attached on success.
pub open spec fn answered_by_game(
    r: Result<(Advance, Option<String>), SubmitError>,
    note: Option<Seq<char>>,
) -> bool {
    match r {
        Ok((_, n)) => match note {
            None => n is None,
            Some(t) => n matches Some(m) && m@ == t,
        },
        Err(e) => e is Game,
    }
}

/// What handing `message` to the game does; see `submit_message_to_game`.
pub open spec fn message_outcome(
    old: Game,
    new: Game,
    message: SubmittedMessage,
    player_id: u64,
    r: Result<(Advance, Option<String>), SubmitError>,
) -> bool {
    &&& (old.has_pending() ==> (r matches Ok((a, n)) && n is None && old.pending_ok(
            Some(a),
        )) && new == old)
    &&& (!old.has_pending() && old.spec_round_kind() != RoundKind::Drawing ==> match text_refusal(
            message.content@,
            message.has_sticker,
        ) {
            Some(e) => r == Err::<(Advance, Option<String>), SubmitError>(SubmitError::Text(e))
                && new == old,
            None => answered_by_game(r, None) && Game::text_outcome(
                old,
                new,
                player_id,
                text::trim_seq(message.content@),
                game_part(r),
            ),
        })
    &&& (!old.has_pending() && old.spec_round_kind() == RoundKind::Drawing ==> match first_image(
            message.attachments@,
        ) {
            None => r == Err::<(Advance, Option<String>), SubmitError>(SubmitError::MissingImage)
                && new == old,
            Some(k) => {
                let a = message.attachments@[k];
                let expected = preset_dimensions(old.canvas.preset);
                if old.canvas.require_canvas_size && a.dimensions != Some(expected) {
                    (r matches Err(SubmitError::CanvasSize(m)) && m@ == canvas_size_error_text(
                        expected,
                        a.dimensions,
                    )) && new == old
                } else {
                    answered_by_game(r, Some(submission_constraint_text(old.canvas)))
                        && Game::drawing_outcome(
                        old,
                        new,
                        player_id,
                        a.url,
                        a.filename,
                        game_part(r),
                    )
                }
            },
        })
}

/// Hands a direct message to the game as the sender's submission. A round
/// that every player finished, but that was not committed because its DMs
/// failed, is answered with its pending advance so delivery can be retried.
/// Prompt and naming rounds take the message text; drawing rounds take the
/// first image attachment, which must meet the canvas size rule.
pub fn submit_message_to_game(game: &mut Game, message: &SubmittedMessage, player_id: u64) -> (r:
    Result<(Advance, Option<String>), SubmitError>)
    requires
        old(game).wf(),
    ensures
        final(game).wf(),
        message_outcome(*old(game), *final(game), *message, player_id, r),
{
    if let Some(pending) = game.pending_next_round() {
        return Ok((pending, None));
    }
    match game.round_kind() {
        RoundKind::Prompt | RoundKind::Naming => {
            let text = match validate_text_submission_content(
                message.content.as_str(),
                message.has_sticker,
            ) {
                Ok(t) => t,
                Err(e) => {
                    return Err(SubmitError::Text(e));
                },
            };
            match game.submit_text(player_id, text) {
                Ok(advance) => Ok((advance, None)),
                Err(e) => Err(SubmitError::Game(e)),
            }
        },
        RoundKind::Drawing => {
            let k = match find_first_image(&message.attachments) {
                Some(k) => k,
                None => {
                    return Err(SubmitError::MissingImage);
                },
            };
            proof {
                lemma_first_image_bound(message.attachments@, 0);
            }
            let attachment = &message.attachments[k];
            match validate_canvas_size(&game.canvas, attachment.dimensions) {
                Ok(()) => {},
                Err(m) => {
                    return Err(SubmitError::CanvasSize(m));
                },
            }
            let note = canvas_size_constraint_submission_text(&game.canvas);
            match game.submit_drawing(player_id, attachment.url.clone(), attachment.filename.clone()) {
                Ok(advance) => Ok((advance, Some(note))),
                Err(e) => Err(SubmitError::Game(e)),
            }
        },
    }
}

proof fn lemma_first_image_is_first(atts: Seq<MessageAttachment>, i: int)
    requires
        0 <= i,
    ensures
        first_image_from(atts, i) matches Some(k) ==> forall|j: int|
            i <= j < k ==> !attachment_is_image(#[trigger] atts[j]),
    decreases atts.len() - i,
{
    if 0 <= i < atts.len() && !attachment_is_image(atts[i]) {
        lemma_first_image_is_first(atts, i + 1);
    }
}

/// `k` is the position of the first image among the attachments.
pub open spec fn is_first_image(atts: Seq<MessageAttachment>, k: int) -> bool {
    &&& 0 <= k < atts.len()
    &&& attachment_is_image(atts[k])
    &&& forall|j: int| 0 <= j < k ==> !attachment_is_image(#[trigger] atts[j])
}

/// The game holds a new drawing by `player` made of the attachment `a`: its
/// link and its file name, in that order. In the full game it is the last
/// entry of one chain, and every other chain is unchanged; in the short game
/// it is the last of the drawings.
pub open spec fn records_drawing_of(old: Game, new: Game, player: u64, a: MessageAttachment) -> bool {
    if old.is_short_mode() {
        &&& mode_drawings(new.mode).len() == mode_drawings(old.mode).len() + 1
        &&& mode_drawings(new.mode).take(mode_drawings(old.mode).len() as int) == mode_drawings(old.mode)
        &&& mode_drawings(new.mode).last().author_id == player
        &&& mode_drawings(new.mode).last().attachment_url == a.url
        &&& mode_drawings(new.mode).last().filename == a.filename
    } else {
        exists|c: int|
            0 <= c < old.n() && (#[trigger] new.chains@[c]).entries@ == old.chains@[c].entries@.push(
                ChainEntry {
                    author_id: player,
                    kind: SubmissionKind::Drawing { attachment_url: a.url, filename: a.filename },
                },
            )
    }
}

/// A drawing DM that the game accepts is the first image attachment of the
/// message, it meets the canvas size rule where that is on, and the game
/// records that attachment's own link and file name as the sender's drawing.
pub proof fn law_drawing_dm_records_its_attachment(
    old: Game,
    new: Game,
    message: SubmittedMessage,
    player_id: u64,
    r: Result<(Advance, Option<String>), SubmitError>,
)
    requires
        old.wf(),
        message_outcome(old, new, message, player_id, r),
        !old.has_pending(),
        old.spec_round_kind() == RoundKind::Drawing,
        r is Ok,
    ensures
        exists|k: int|
            #[trigger] is_first_image(message.attachments@, k) && (old.canvas.require_canvas_size
                ==> message.attachments@[k].dimensions == Some(preset_dimensions(old.canvas.preset)))
                && records_drawing_of(old, new, player_id, message.attachments@[k]),
{
    let atts = message.attachments@;
    lemma_first_image_bound(atts, 0);
    lemma_first_image_is_first(atts, 0);
    let k = first_image(atts).unwrap();
    assert(is_first_image(atts, k));
    let a = atts[k];
    if old.is_short_mode() {
        assert(mode_drawings(new.mode).take(mode_drawings(old.mode).len() as int) =~= mode_drawings(
            old.mode,
        ));
    } else {
        let c = chain_for(old.n(), old.player_index(player_id), old.current_round as int);
        crate::state::lemma_chain_author_inverse(old.n(), old.current_round as int);
        let p = old.player_index(player_id);
        assert(0 <= p < old.n());
        assert(0 <= c < old.n());
        assert(new.chains@[c].entries@ == old.chains@[c].entries@.push(
            ChainEntry {
                author_id: player_id,
                kind: SubmissionKind::Drawing { attachment_url: a.url, filename: a.filename },
            },
        ));
    }
    assert(records_drawing_of(old, new, player_id, a));
}

/// What the bot answers in the DM after a submission attempt.
pub open spec fn submission_reply_text(r: Result<(Advance, Option<String>), SubmitError>) -> Seq<
    char,
> {
    match r {
        Ok((advance, note)) => {
            let accepted = accepted_text(
                match note {
                    Some(n) => Some(n@),
                    None => None,
                },
            );
            match advance {
                Advance::Waiting => accepted,
                Advance::NextRound { .. } => accepted + " Next round is starting."@,
                Advance::ShortDrawingRound { .. } => accepted + " Drawing round is starting."@,
                Advance::Finished { .. } => accepted + " Game complete, revealing now."@,
                Advance::ShortFinished { .. } => accepted
                    + " Short game complete, revealing showcases now."@,
            }
        },
        Err(e) => submit_error_text(e),
    }
}

pub fn submission_reply(r: &Result<(Advance, Option<String>), SubmitError>) -> (s: String)
    ensures
        s@ == submission_reply_text(*r),
{
    match r {
        Ok((advance, note)) => {
            let n: Option<&str> = match note {
                Some(n) => Some(n.as_str()),
                None => None,
            };
            let mut s = accepted_submission_message(n);
            match advance {
                Advance::Waiting => {},
                Advance::NextRound { .. } => push_str(&mut s, " Next round is starting."),
                Advance::ShortDrawingRound { .. } => push_str(&mut s, " Drawing round is starting."),
                Advance::Finished { .. } => push_str(&mut s, " Game complete, revealing now."),
                Advance::ShortFinished { .. } => push_str(
                    &mut s,
                    " Short game complete, revealing showcases now.",
                ),
            }
            s
        },
        Err(e) => e.message(),
    }
}

} // verus!
