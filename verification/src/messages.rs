//! The direct messages and channel posts of a Grateic Phone game: start
//! DMs, drawing assignments, start and delivery notices, and the reveal.

use crate::canvas::preset_dimensions;
use crate::commands::{
    assignment_message_content, assignment_text, canvas_size_constraint_text, constraint_text,
    drawing_constraint_text, drawing_round_constraint_text, mention, push_mention, push_size,
    size_text,
};
use crate::state::{CanvasConfig, ChainEntry, RoundAssignment, ShortDrawingAssignment, ShortShowcase, SubmissionKind};
use crate::text::{self, decimal, push_decimal, push_str};
use vstd::prelude::*;

verus! {

broadcast use vstd::string::group_string_axioms;

pub open spec fn canvas_intro_text(short: bool, canvas: CanvasConfig) -> Seq<char> {
    let (w, h) = preset_dimensions(canvas.preset);
    (if short {
        "Your short Grateic Phone canvas is "@
    } else {
        "Your Grateic Phone canvas is "@
    }) + size_text(w, h) + " with background "@ + canvas.background_hex@ + ". "@ + constraint_text(
        canvas.require_canvas_size,
        w,
        h,
    )
}

fn push_canvas_intro(s: &mut String, short: bool, canvas: &CanvasConfig)
    ensures
        final(s)@ == old(s)@ + canvas_intro_text(short, *canvas),
{
    let (width, height) = canvas.preset.dimensions();
    if short {
        push_str(s, "Your short Grateic Phone canvas is ");
    } else {
        push_str(s, "Your Grateic Phone canvas is ");
    }
    push_size(s, width, height);
    push_str(s, " with background ");
    push_str(s, canvas.background_hex.as_str());
    push_str(s, ". ");
    let c = canvas_size_constraint_text(canvas.require_canvas_size, width, height);
    push_str(s, c.as_str());
}

pub open spec fn classic_start_text(canvas: CanvasConfig, a: RoundAssignment) -> Seq<char> {
    let (w, h) = preset_dimensions(canvas.preset);
    canvas_intro_text(false, canvas) + "\n\n"@ + assignment_text(a, canvas.require_canvas_size, w, h)
}

/// The start DM of a full game: the canvas and the first assignment.
pub fn classic_start_dm(canvas: &CanvasConfig, assignment: &RoundAssignment) -> (s: String)
    ensures
        s@ == classic_start_text(*canvas, *assignment),
{
    let (width, height) = canvas.preset.dimensions();
    let mut s = String::new();
    push_canvas_intro(&mut s, false, canvas);
    push_str(&mut s, "\n\n");
    let a = assignment_message_content(assignment, canvas.require_canvas_size, width, height);
    push_str(&mut s, a.as_str());
    s
}

pub open spec fn short_start_text(canvas: CanvasConfig) -> Seq<char> {
    canvas_intro_text(true, canvas)
        + "\n\nRound 1: reply here with one prompt. After everyone submits, another player will draw it."@
}

/// The start DM of a short game.
pub fn short_start_dm(canvas: &CanvasConfig) -> (s: String)
    ensures
        s@ == short_start_text(*canvas),
{
    let mut s = String::new();
    push_canvas_intro(&mut s, true, canvas);
    push_str(
        &mut s,
        "\n\nRound 1: reply here with one prompt. After everyone submits, another player will draw it.",
    );
    s
}

pub open spec fn short_drawing_text(canvas: CanvasConfig, a: ShortDrawingAssignment) -> Seq<char> {
    let (w, h) = preset_dimensions(canvas.preset);
    "Short Grateic Phone drawing round: draw this prompt from another player, then upload your image here. "@
        + drawing_constraint_text(canvas.require_canvas_size, w, h) + "\n\n"@ + a.prompt@
}

/// The drawing DM of a short game: someone else's prompt, without its
/// author.
pub fn short_drawing_dm(canvas: &CanvasConfig, assignment: &ShortDrawingAssignment) -> (s: String)
    ensures
        s@ == short_drawing_text(*canvas, *assignment),
{
    let (width, height) = canvas.preset.dimensions();
    let mut s = text::owned(
        "Short Grateic Phone drawing round: draw this prompt from another player, then upload your image here. ",
    );
    let c = drawing_round_constraint_text(canvas.require_canvas_size, width, height);
    push_str(&mut s, c.as_str());
    push_str(&mut s, "\n\n");
    push_str(&mut s, assignment.prompt.as_str());
    s
}

pub open spec fn started_text(short: bool, players: nat) -> Seq<char> {
    (if short {
        "Short game"@
    } else {
        "Game"@
    }) + " started with "@ + decimal(players)
        + " players. Everyone has the canvas and first prompt instructions in DM."@
}

/// The host's notice once every start DM went out.
pub fn start_success_message(short: bool, players: usize) -> (s: String)
    ensures
        s@ == started_text(short, players as nat),
{
    let mut s = if short {
        text::owned("Short game")
    } else {
        text::owned("Game")
    };
    push_str(&mut s, " started with ");
    push_decimal(&mut s, players as u64);
    push_str(&mut s, " players. Everyone has the canvas and first prompt instructions in DM.");
    s
}

pub open spec fn start_dm_failed_text(player: u64, error: Seq<char>) -> Seq<char> {
    "Could not start because I cannot DM "@ + mention(player)
        + ". I marked them unready; ask them to enable DMs and run `/grate grateic ready`, then try `/grate grateic start` again. ("@
        + error + ")"@
}

/// The host's notice when a start DM failed.
pub fn start_dm_failed_message(player_id: u64, error: &str) -> (s: String)
    ensures
        s@ == start_dm_failed_text(player_id, error@),
{
    let mut s = text::owned("Could not start because I cannot DM ");
    push_mention(&mut s, player_id);
    push_str(
        &mut s,
        ". I marked them unready; ask them to enable DMs and run `/grate grateic ready`, then try `/grate grateic start` again. (",
    );
    push_str(&mut s, error);
    push_str(&mut s, ")");
    s
}

pub open spec fn ready_dm_failed_text(player: u64, error: Seq<char>) -> Seq<char> {
    "I still cannot DM "@ + mention(player)
        + ". Enable DMs from this server, then run `/grate grateic ready` again. ("@ + error + ")"@
}

/// The reply when the ready DM still fails.
pub fn ready_dm_failed_message(player_id: u64, error: &str) -> (s: String)
    ensures
        s@ == ready_dm_failed_text(player_id, error@),
{
    let mut s = text::owned("I still cannot DM ");
    push_mention(&mut s, player_id);
    push_str(&mut s, ". Enable DMs from this server, then run `/grate grateic ready` again. (");
    push_str(&mut s, error);
    push_str(&mut s, ")");
    s
}

pub open spec fn delivery_failed_text(short: bool, error: Seq<char>) -> Seq<char> {
    (if short {
        "I could not deliver every short-game drawing DM, so the game has not advanced yet. Ask players to check DMs, then have any player DM me again to retry delivery. ("@
    } else {
        "I could not deliver every next-round DM, so the game has not advanced yet. Ask players to check DMs, then have any player DM me again to retry delivery. ("@
    }) + error + ")"@
}

/// The notice when next-round DMs failed and the round was kept.
pub fn delivery_failed_message(short: bool, error: &str) -> (s: String)
    ensures
        s@ == delivery_failed_text(short, error@),
{
    let mut s = if short {
        text::owned(
            "I could not deliver every short-game drawing DM, so the game has not advanced yet. Ask players to check DMs, then have any player DM me again to retry delivery. (",
        )
    } else {
        text::owned(
            "I could not deliver every next-round DM, so the game has not advanced yet. Ask players to check DMs, then have any player DM me again to retry delivery. (",
        )
    };
    push_str(&mut s, error);
    push_str(&mut s, ")");
    s
}

/// What follows sending a new round's DMs.
#[derive(Debug, Clone, PartialEq, Eq)]
pub enum DeliveryStep {
    /// Every DM went out: the round is committed.
    Commit(usize),
    /// A DM failed: the round is kept, and this notice is posted so that a
    /// later DM can retry the delivery.
    Report(String),
}

/// The round `next_round` is committed only when every DM was delivered;
/// otherwise the failure is reported and nothing advances.
pub fn after_delivery(short: bool, next_round: usize, failure: Option<&str>) -> (r: DeliveryStep)
    ensures
        match failure {
            None => r matches DeliveryStep::Commit(n) && n == next_round,
            Some(e) => r matches DeliveryStep::Report(m) && m@ == delivery_failed_text(short, e@),
        },
{
    match failure {
        None => DeliveryStep::Commit(next_round),
        Some(e) => DeliveryStep::Report(delivery_failed_message(short, e)),
    }
}

pub open spec fn channel_set_text(label: Seq<char>, channel_id: u64) -> Seq<char> {
    label + " commands now only work in <#"@ + decimal(channel_id as nat) + ">."@
}

/// The reply to a `set channel` command.
pub fn channel_set_message(family: crate::settings::ChannelFamily, channel_id: u64) -> (s: String)
    ensures
        s@ == channel_set_text(crate::settings::family_label(family), channel_id),
{
    let mut s = text::owned(family.label());
    push_str(&mut s, " commands now only work in <#");
    push_decimal(&mut s, channel_id);
    push_str(&mut s, ">.");
    s
}

// ---------------------------------------------------------------- reveal

pub open spec fn reveal_header_text(players: nat, rounds: nat) -> Seq<char> {
    "Grateic Phone reveal: "@ + decimal(players) + " players, "@ + decimal(rounds) + " rounds."@
}

/// The first post of a full game's reveal.
pub fn reveal_header(players: usize, rounds: usize) -> (s: String)
    ensures
        s@ == reveal_header_text(players as nat, rounds as nat),
{
    let mut s = text::owned("Grateic Phone reveal: ");
    push_decimal(&mut s, players as u64);
    push_str(&mut s, " players, ");
    push_decimal(&mut s, rounds as u64);
    push_str(&mut s, " rounds.");
    s
}

pub open spec fn chain_title_text(index: nat) -> Seq<char> {
    "Chain "@ + decimal(index + 1)
}

/// The title of chain `index`, counted from one.
pub fn chain_title(index: usize) -> (s: String)
    requires
        index < usize::MAX,
    ensures
        s@ == chain_title_text(index as nat),
{
    let mut s = text::owned("Chain ");
    push_decimal(&mut s, (index + 1) as u64);
    s
}

pub open spec fn chain_starter_text(player: u64) -> Seq<char> {
    "Started by "@ + mention(player)
}

pub fn chain_starter(player_id: u64) -> (s: String)
    ensures
        s@ == chain_starter_text(player_id),
{
    let mut s = text::owned("Started by ");
    push_mention(&mut s, player_id);
    s
}

/// How one chain entry is revealed: a titled text, or a post with the
/// drawing's link.
#[derive(Debug, Clone, PartialEq, Eq)]
pub enum RevealPost {
    Titled { title: String, body: String },
    Plain { content: String },
}

pub open spec fn entry_post_ok(index: nat, entry: ChainEntry, post: RevealPost) -> bool {
    let head = decimal(index + 1) + ". "@ + mention(entry.author_id);
    match entry.kind {
        SubmissionKind::Prompt(t) => post matches RevealPost::Titled { title, body } && title@ == head
            + " wrote"@ && body@ == t@,
        SubmissionKind::Name(t) => post matches RevealPost::Titled { title, body } && title@ == head
            + " named it"@ && body@ == t@,
        SubmissionKind::Drawing { attachment_url, .. } => post matches RevealPost::Plain { content }
            && content@ == head + " drew:\n"@ + attachment_url@,
    }
}

/// The reveal post of entry `index` of a chain, counted from one.
pub fn entry_post(index: usize, entry: &ChainEntry) -> (p: RevealPost)
    requires
        index < usize::MAX,
    ensures
        entry_post_ok(index as nat, *entry, p),
{
    let mut head = String::new();
    push_decimal(&mut head, (index + 1) as u64);
    push_str(&mut head, ". ");
    push_mention(&mut head, entry.author_id);
    match &entry.kind {
        SubmissionKind::Prompt(t) => {
            push_str(&mut head, " wrote");
            RevealPost::Titled { title: head, body: t.clone() }
        },
        SubmissionKind::Name(t) => {
            push_str(&mut head, " named it");
            RevealPost::Titled { title: head, body: t.clone() }
        },
        SubmissionKind::Drawing { attachment_url, .. } => {
            push_str(&mut head, " drew:\n");
            push_str(&mut head, attachment_url.as_str());
            RevealPost::Plain { content: head }
        },
    }
}

pub open spec fn showcase_header_text(count: nat) -> Seq<char> {
    "Short Grateic Phone showcase: "@ + decimal(count) + " drawings."@
}

/// The first post of a short game's reveal.
pub fn showcase_header(count: usize) -> (s: String)
    ensures
        s@ == showcase_header_text(count as nat),
{
    let mut s = text::owned("Short Grateic Phone showcase: ");
    push_decimal(&mut s, count as u64);
    push_str(&mut s, " drawings.");
    s
}

pub open spec fn showcase_title_text(index: nat) -> Seq<char> {
    "Showcase "@ + decimal(index + 1)
}

pub fn showcase_title(index: usize) -> (s: String)
    requires
        index < usize::MAX,
    ensures
        s@ == showcase_title_text(index as nat),
{
    let mut s = text::owned("Showcase ");
    push_decimal(&mut s, (index + 1) as u64);
    s
}

pub open spec fn showcase_text(sc: ShortShowcase) -> Seq<char> {
    mention(sc.prompt_author_id) + " prompted:\n"@ + sc.prompt@ + "\n\n"@ + mention(
        sc.drawing_author_id,
    ) + " drew:"@
}

/// The text of one showcase; its image is the drawing.
pub fn showcase_description(showcase: &ShortShowcase) -> (s: String)
    ensures
        s@ == showcase_text(*showcase),
{
    let mut s = String::new();
    push_mention(&mut s, showcase.prompt_author_id);
    push_str(&mut s, " prompted:\n");
    push_str(&mut s, showcase.prompt.as_str());
    push_str(&mut s, "\n\n");
    push_mention(&mut s, showcase.drawing_author_id);
    push_str(&mut s, " drew:");
    s
}

} // verus!
