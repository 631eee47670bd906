//! The lobby message and the private status reply of a Grateic Phone game.

use crate::canvas::{preset_dimensions, preset_label};
use crate::commands::{
    constraint_text, mention, mention_list, mention_list_text, mentions_joined, push_mention,
    push_mentions, push_size, size_text,
};
use crate::state::{Game, GamePhase};
use crate::text::{decimal, push_decimal, push_str};
use vstd::prelude::*;

verus! {

broadcast use vstd::string::group_string_axioms;

/// How a phase is written in status messages.
pub open spec fn phase_name(phase: GamePhase) -> Seq<char> {
    match phase {
        GamePhase::Lobby => "Lobby"@,
        GamePhase::InProgress => "InProgress"@,
        GamePhase::Finished => "Finished"@,
        GamePhase::Cancelled => "Cancelled"@,
    }
}

pub fn phase_label(phase: GamePhase) -> (l: &'static str)
    ensures
        l@ == phase_name(phase),
{
    match phase {
        GamePhase::Lobby => "Lobby",
        GamePhase::InProgress => "InProgress",
        GamePhase::Finished => "Finished",
        GamePhase::Cancelled => "Cancelled",
    }
}

fn push_count(s: &mut String, n: usize)
    ensures
        final(s)@ == old(s)@ + decimal(n as nat),
{
    push_decimal(s, n as u64);
}

/// The round shown to players: none in the lobby, else counted from one.
pub open spec fn shown_round(game: Game) -> nat {
    if game.phase == GamePhase::Lobby {
        0
    } else {
        (game.current_round + 1) as nat
    }
}

/// Players who have not submitted yet, while the game collects submissions.
pub open spec fn waiting_text(game: Game) -> Seq<char> {
    if game.phase == GamePhase::InProgress {
        decimal(
            if game.submitted().len() <= game.n() {
                (game.n() - game.submitted().len()) as nat
            } else {
                0
            },
        )
    } else {
        "not in progress"@
    }
}

/// The unready players, in player order.
pub open spec fn unready_list(game: Game) -> Seq<u64> {
    game.players@.filter(game.unready_pred())
}

pub open spec fn start_hint(game: Game) -> Seq<char> {
    if game.phase == GamePhase::Lobby {
        if game.n() < 2 {
            "Start: waiting for at least 2 players."@
        } else if unready_list(game).len() == 0 {
            "Start: ready when the host presses Start."@
        } else {
            "Start: waiting for ready checks from "@ + mention_list_text(unready_list(game)) + "."@
        }
    } else {
        "Start: game has already started."@
    }
}

/// The round lines that the lobby message and the DM status share.
pub open spec fn round_lines(game: Game) -> Seq<char> {
    "\nPhase: "@ + phase_name(game.phase) + "\nRound: "@ + decimal(shown_round(game)) + "/"@
        + decimal(game.spec_total_rounds() as nat) + "\nSubmitted this round: "@ + decimal(
        game.submitted().len(),
    ) + "/"@ + decimal(game.n() as nat) + "\nWaiting for inputs: "@ + waiting_text(game)
}

/// The text of the lobby message.
pub open spec fn game_status_text(game: Game) -> Seq<char> {
    let (w, h) = preset_dimensions(game.canvas.preset);
    "Grateic Phone lobby\nMode: "@ + game.spec_mode_label() + "\nHost: "@ + mention(game.host_id)
        + "\nPlayers joined ("@ + decimal(game.n() as nat) + "/2 minimum): "@ + mentions_joined(
        game.players@,
    ) + round_lines(game) + "\nReady: "@ + decimal((game.n() - game.unready().len()) as nat) + "/"@
        + decimal(game.n() as nat) + "\nNeeds ready: "@ + mention_list_text(unready_list(game))
        + "\nCanvas: "@ + preset_label(game.canvas.preset) + " "@ + size_text(w, h) + " "@
        + game.canvas.background_hex@ + "\nDrawing size rule: "@ + constraint_text(
        game.canvas.require_canvas_size,
        w,
        h,
    ) + "\n"@ + start_hint(game)
}

fn push_round_lines(s: &mut String, game: &Game)
    requires
        game.wf(),
    ensures
        final(s)@ == old(s)@ + round_lines(*game),
{
    let ghost start = s@;
    push_str(s, "\nPhase: ");
    push_str(s, phase_label(game.phase));
    push_str(s, "\nRound: ");
    if game.phase == GamePhase::Lobby {
        push_count(s, 0);
    } else {
        push_count(s, game.current_round + 1);
    }
    push_str(s, "/");
    push_count(s, game.total_rounds());
    push_str(s, "\nSubmitted this round: ");
    let submitted = game.submitted_count();
    let n = game.players.len();
    push_count(s, submitted);
    push_str(s, "/");
    push_count(s, n);
    push_str(s, "\nWaiting for inputs: ");
    if game.phase == GamePhase::InProgress {
        let waiting = if submitted <= n {
            n - submitted
        } else {
            0
        };
        push_count(s, waiting);
    } else {
        push_str(s, "not in progress");
    }
    assert(s@ == start + round_lines(*game));
}

fn push_start_hint(s: &mut String, game: &Game)
    ensures
        final(s)@ == old(s)@ + start_hint(*game),
{
    if game.phase == GamePhase::Lobby {
        if game.players.len() < 2 {
            push_str(s, "Start: waiting for at least 2 players.");
        } else {
            let unready = game.unready_players();
            if unready.len() == 0 {
                push_str(s, "Start: ready when the host presses Start.");
            } else {
                push_str(s, "Start: waiting for ready checks from ");
                let m = mention_list(unready.as_slice());
                push_str(s, m.as_str());
                push_str(s, ".");
            }
        }
    } else {
        push_str(s, "Start: game has already started.");
    }
}

/// The lobby message: mode, host, players, round progress, readiness,
/// canvas and what still blocks the start.
pub fn format_game_status(game: &Game) -> (s: String)
    requires
        game.wf(),
        game.unready().len() <= game.players@.len(),
    ensures
        s@ == game_status_text(*game),
{
    let (width, height) = game.canvas.preset.dimensions();
    let mut s = String::new();
    push_str(&mut s, "Grateic Phone lobby\nMode: ");
    push_str(&mut s, game.mode_label());
    push_str(&mut s, "\nHost: ");
    push_mention(&mut s, game.host_id);
    push_str(&mut s, "\nPlayers joined (");
    push_count(&mut s, game.players.len());
    push_str(&mut s, "/2 minimum): ");
    push_mentions(&mut s, game.players.as_slice());
    push_round_lines(&mut s, game);
    push_str(&mut s, "\nReady: ");
    push_count(&mut s, game.ready_count());
    push_str(&mut s, "/");
    push_count(&mut s, game.players.len());
    push_str(&mut s, "\nNeeds ready: ");
    let unready = game.unready_players();
    let m = mention_list(unready.as_slice());
    push_str(&mut s, m.as_str());
    push_str(&mut s, "\nCanvas: ");
    push_str(&mut s, game.canvas.preset.label());
    push_str(&mut s, " ");
    push_size(&mut s, width, height);
    push_str(&mut s, " ");
    push_str(&mut s, game.canvas.background_hex.as_str());
    push_str(&mut s, "\nDrawing size rule: ");
    let rule = crate::commands::canvas_size_constraint_text(
        game.canvas.require_canvas_size,
        width,
        height,
    );
    push_str(&mut s, rule.as_str());
    push_str(&mut s, "\n");
    push_start_hint(&mut s, game);
    s
}

/// Whether the requester has submitted, or that no round is running.
pub open spec fn requester_line(game: Game, requester_id: u64) -> Seq<char> {
    if game.phase == GamePhase::InProgress {
        if game.submitted().contains(requester_id) {
            "You have submitted this round."@
        } else {
            "You have not submitted this round yet."@
        }
    } else {
        "This game is not currently collecting submissions."@
    }
}

/// The private status reply of a player.
pub open spec fn dm_status_text(game: Game, requester_id: u64) -> Seq<char> {
    "Grateic Phone status\nMode: "@ + game.spec_mode_label() + round_lines(game) + "\n"@
        + requester_line(game, requester_id)
}

pub fn format_dm_status(game: &Game, requester_id: u64) -> (s: String)
    requires
        game.wf(),
    ensures
        s@ == dm_status_text(*game, requester_id),
{
    let mut s = String::new();
    push_str(&mut s, "Grateic Phone status\nMode: ");
    push_str(&mut s, game.mode_label());
    push_round_lines(&mut s, game);
    push_str(&mut s, "\n");
    if game.phase == GamePhase::InProgress {
        if game.has_submitted(requester_id) {
            push_str(&mut s, "You have submitted this round.");
        } else {
            push_str(&mut s, "You have not submitted this round yet.");
        }
    } else {
        push_str(&mut s, "This game is not currently collecting submissions.");
    }
    s
}

} // verus!
