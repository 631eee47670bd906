//! Laws of the Grateic Phone game that span several operations.

use crate::state::{
    find_drawing, short_showcases, short_showcases_upto, ShortDrawing, ShortShowcase,
    Advance, GameError, StartRound, SubmissionKind, author_for, author_offset, chain_for, classic_total, find_prompt,
    lemma_chain_author_inverse, lemma_offset_range, lemma_subset_of_players,
    mode_prompts, prompt_source, short_assignments, short_assignments_upto, Game, GamePhase,
    RoundAssignment, ShortDrawingAssignment, ShortPrompt,
};
use vstd::prelude::*;

verus! {

proof fn lemma_mod_distinct(c: int, a: int, b: int, n: int)
    requires
        n >= 1,
        c >= 0,
        0 <= a < n,
        0 <= b < n,
        a != b,
    ensures
        (c + a) % n != (c + b) % n,
{
    let x = c + a;
    let y = c + b;
    vstd::arithmetic::div_mod::lemma_fundamental_div_mod(x, n);
    vstd::arithmetic::div_mod::lemma_fundamental_div_mod(y, n);
    if x % n == y % n {
        let qx = x / n;
        let qy = y / n;
        assert(x - y == n * (qx - qy)) by (nonlinear_arith)
            requires
                x == n * qx + x % n,
                y == n * qy + y % n,
                x % n == y % n,
        ;
        if qx - qy >= 1 {
            assert(n * (qx - qy) >= n) by (nonlinear_arith)
                requires
                    qx - qy >= 1,
                    n >= 1,
            ;
        } else if qx - qy <= -1 {
            assert(n * (qx - qy) <= -n) by (nonlinear_arith)
                requires
                    qx - qy <= -1,
                    n >= 1,
            ;
        }
    }
}

proof fn lemma_mod_small(x: int, n: int)
    requires
        n >= 1,
        0 <= x < n,
    ensures
        x % n == x,
{
    vstd::arithmetic::div_mod::lemma_small_mod(x as nat, n as nat);
}

proof fn lemma_mod_shift(x: int, n: int)
    requires
        n >= 1,
        0 <= x,
    ensures
        (x + n) % n == x % n,
        0 <= x % n < n,
{
    vstd::arithmetic::div_mod::lemma_mod_add_multiples_vanish(x, n);
    vstd::arithmetic::div_mod::lemma_mod_pos_bound(x, n);
}

/// A finished full game: every chain has one entry per round; it opens with
/// a prompt by the player who started it and closes with that same player's
/// name for the final drawing; in between, odd rounds are drawings and even
/// rounds are prompts.
pub proof fn law_finished_chains_are_complete(g: Game)
    requires
        g.wf(),
        !g.is_short_mode(),
        g.phase == GamePhase::Finished,
    ensures
        g.chains@.len() == g.players@.len(),
        forall|c: int|
            0 <= c < g.n() ==> {
                let entries = #[trigger] g.chains@[c].entries@;
                let last = 2 * g.n();
                &&& g.chains@[c].original_player_id == g.players@[c]
                &&& entries.len() == last + 1
                &&& entries[0].author_id == g.chains@[c].original_player_id
                &&& entries[0].kind is Prompt
                &&& entries[last].author_id == g.chains@[c].original_player_id
                &&& entries[last].kind is Name
                &&& forall|r: int|
                    0 < r < last ==> (r % 2 == 1 ==> (#[trigger] entries[r]).kind is Drawing) && (r
                        % 2 == 0 ==> entries[r].kind is Prompt)
            },
{
    let n = g.n();
    assert forall|c: int| 0 <= c < n implies {
        let entries = #[trigger] g.chains@[c].entries@;
        let last = 2 * g.n();
        &&& g.chains@[c].original_player_id == g.players@[c]
        &&& entries.len() == last + 1
        &&& entries[0].author_id == g.chains@[c].original_player_id
        &&& entries[0].kind is Prompt
        &&& entries[last].author_id == g.chains@[c].original_player_id
        &&& entries[last].kind is Name
        &&& forall|r: int|
            0 < r < last ==> (r % 2 == 1 ==> (#[trigger] entries[r]).kind is Drawing) && (r % 2
                == 0 ==> entries[r].kind is Prompt)
    } by {
        let entries = g.chains@[c].entries@;
        let last = 2 * n;
        assert(g.entry_fits(c, 0));
        assert(g.entry_fits(c, last));
        lemma_mod_small(c, n);
        assert(author_for(n, c, 0) == c);
        assert(author_for(n, c, last) == c);
        assert forall|r: int| 0 < r < last implies (r % 2 == 1 ==> (#[trigger] entries[r]).kind is Drawing)
            && (r % 2 == 0 ==> entries[r].kind is Prompt) by {
            assert(g.entry_fits(c, r));
        }
    }
}

/// The player index that writes chain `c`'s prompt in the prompt round that
/// rotates by `k`.
pub open spec fn prompt_round(k: int) -> int {
    2 * k
}

/// The drawing round that rotates by `k`.
pub open spec fn drawing_round(k: int) -> int {
    2 * k + 1
}

/// Rotating by two different amounts below `n` lands on different places,
/// and every place is reached by some amount.
proof fn lemma_rotation(n: int, s: int)
    requires
        n >= 1,
        0 <= s,
    ensures
        forall|c: int, k1: int, k2: int|
            0 <= c && 0 <= k1 < n && 0 <= k2 < n && k1 != k2 ==> #[trigger] ((c + (k1 + s) % n) % n)
                != #[trigger] ((c + (k2 + s) % n) % n),
        forall|c: int, p: int|
            0 <= c < n && 0 <= p < n ==> 0 <= #[trigger] rotation_back(c, p, s, n) < n && (c + (
            rotation_back(c, p, s, n) + s) % n) % n == p,
{
    assert forall|c: int, k1: int, k2: int|
        0 <= c && 0 <= k1 < n && 0 <= k2 < n && k1 != k2 implies #[trigger] ((c + (k1 + s) % n) % n)
        != #[trigger] ((c + (k2 + s) % n) % n) by {
        let a = (k1 + s) % n;
        let b = (k2 + s) % n;
        lemma_mod_shift(k1 + s, n);
        lemma_mod_shift(k2 + s, n);
        lemma_mod_distinct(s, k1, k2, n);
        lemma_mod_distinct(c, a, b, n);
    }
    assert forall|c: int, p: int| 0 <= c < n && 0 <= p < n implies 0 <= #[trigger] rotation_back(
        c,
        p,
        s,
        n,
    ) < n && (c + (rotation_back(c, p, s, n) + s) % n) % n == p by {
        let d = (p - c + n) % n;
        lemma_mod_shift(p - c + n, n);
        let sm = s % n;
        lemma_mod_shift(s, n);
        let k = (d - sm + n) % n;
        lemma_mod_shift(d - sm + n, n);
        assert((k + s) % n == d) by {
            vstd::arithmetic::div_mod::lemma_add_mod_noop(k, s, n);
            lemma_mod_small(k, n);
            lemma_mod_small(sm, n);
            if d >= sm {
                lemma_mod_shift(d - sm, n);
                lemma_mod_small(d - sm, n);
                assert(k == d - sm);
                lemma_mod_small(d, n);
            } else {
                lemma_mod_small(d - sm + n, n);
                assert(k == d - sm + n);
                lemma_mod_shift(d, n);
                lemma_mod_small(d, n);
            }
        }
        assert((c + d) % n == p) by {
            if p >= c {
                lemma_mod_shift(p - c, n);
                lemma_mod_small(p - c, n);
                lemma_mod_small(p, n);
            } else {
                lemma_mod_small(p - c + n, n);
                lemma_mod_shift(p, n);
                lemma_mod_small(p, n);
            }
        }
    }
}

/// The rotation that brings chain `c` to player `p` in rounds that rotate
/// by `k + s`.
pub open spec fn rotation_back(c: int, p: int, s: int, n: int) -> int {
    ((p - c + n) % n - s % n + n) % n
}

/// Who wrote each prompt and each drawing of a finished full game, by the
/// rotation the game uses.
proof fn lemma_finished_authors(g: Game)
    requires
        g.wf(),
        !g.is_short_mode(),
        g.phase == GamePhase::Finished,
    ensures
        forall|c: int, k: int|
            0 <= c < g.n() && 0 <= k < g.n() ==> #[trigger] g.chains@[c].entries@[prompt_round(k)].author_id
                == g.players@[(c + (k + 0) % g.n()) % g.n()],
        forall|c: int, k: int|
            0 <= c < g.n() && 0 <= k < g.n() ==> #[trigger] g.chains@[c].entries@[drawing_round(k)].author_id
                == g.players@[(c + (k + drawing_shift(g.n())) % g.n()) % g.n()],
{
    let n = g.n();
    assert forall|c: int, k: int| 0 <= c < n && 0 <= k < n implies #[trigger] g.chains@[c].entries@[prompt_round(k)].author_id
        == g.players@[(c + (k + 0) % n) % n] by {
        assert(g.chains@[c].entries@.len() == 2 * n + 1);
        assert(g.entry_fits(c, prompt_round(k)));
        assert(prompt_round(k) / 2 == k);
        assert(author_offset(n, prompt_round(k)) == k);
        lemma_mod_small(k, n);
    }
    assert forall|c: int, k: int| 0 <= c < n && 0 <= k < n implies #[trigger] g.chains@[c].entries@[drawing_round(k)].author_id
        == g.players@[(c + (k + drawing_shift(n)) % n) % n] by {
        assert(g.chains@[c].entries@.len() == 2 * n + 1);
        assert(g.entry_fits(c, drawing_round(k)));
        assert((drawing_round(k) - 1) / 2 == k);
        assert(drawing_round(k) % 2 == 1);
    }
}

/// How far drawing rounds rotate beyond the prompt rounds.
pub open spec fn drawing_shift(n: int) -> int {
    if n == 2 {
        1
    } else {
        2
    }
}

/// In a finished full game every chain gets exactly one prompt from each
/// player (counting its opening prompt) and exactly one drawing from each
/// player: the prompt rounds and the drawing rounds each visit every player
/// once.
pub proof fn law_each_player_prompts_and_draws_each_chain_once(g: Game)
    requires
        g.wf(),
        !g.is_short_mode(),
        g.phase == GamePhase::Finished,
    ensures
        forall|c: int, k1: int, k2: int|
            0 <= c < g.n() && 0 <= k1 < k2 < g.n() ==> (#[trigger] g.chains@[c].entries@[prompt_round(
                k1,
            )]).author_id != (#[trigger] g.chains@[c].entries@[prompt_round(k2)]).author_id,
        forall|c: int, k1: int, k2: int|
            0 <= c < g.n() && 0 <= k1 < k2 < g.n() ==> (#[trigger] g.chains@[c].entries@[drawing_round(
                k1,
            )]).author_id != (#[trigger] g.chains@[c].entries@[drawing_round(k2)]).author_id,
        forall|c: int, p: int|
            0 <= c < g.n() && 0 <= p < g.n() ==> 0 <= #[trigger] rotation_back(c, p, 0, g.n()) < g.n()
                && g.chains@[c].entries@[prompt_round(rotation_back(c, p, 0, g.n()))].author_id
                == g.players@[p],
        forall|c: int, p: int|
            0 <= c < g.n() && 0 <= p < g.n() ==> 0 <= #[trigger] rotation_back(
                c,
                p,
                drawing_shift(g.n()),
                g.n(),
            ) < g.n() && g.chains@[c].entries@[drawing_round(
                rotation_back(c, p, drawing_shift(g.n()), g.n()),
            )].author_id == g.players@[p],
{
    let n = g.n();
    lemma_finished_authors(g);
    lemma_rotation(n, 0);
    lemma_rotation(n, drawing_shift(n));
    assert forall|c: int, k1: int, k2: int| 0 <= c < n && 0 <= k1 < k2 < n implies (
    #[trigger] g.chains@[c].entries@[prompt_round(k1)]).author_id != (
    #[trigger] g.chains@[c].entries@[prompt_round(k2)]).author_id by {
        let a = (c + (k1 + 0) % n) % n;
        let b = (c + (k2 + 0) % n) % n;
        assert(a != b);
        lemma_mod_shift(c + (k1 + 0) % n, n);
        lemma_mod_shift(c + (k2 + 0) % n, n);
    }
    assert forall|c: int, k1: int, k2: int| 0 <= c < n && 0 <= k1 < k2 < n implies (
    #[trigger] g.chains@[c].entries@[drawing_round(k1)]).author_id != (
    #[trigger] g.chains@[c].entries@[drawing_round(k2)]).author_id by {
        let s = drawing_shift(n);
        let a = (c + (k1 + s) % n) % n;
        let b = (c + (k2 + s) % n) % n;
        assert(a != b);
        lemma_mod_shift(c + (k1 + s) % n, n);
        lemma_mod_shift(c + (k2 + s) % n, n);
    }
}

/// In every round each chain goes to exactly one player: the chain indices
/// of a round's assignments are all different and cover every chain.
pub proof fn law_round_assignments_cover_each_chain_once(g: Game, round: int, v: Seq<RoundAssignment>)
    requires
        g.wf(),
        g.assignments_ready(round),
        g.assignments_match(round, v),
    ensures
        forall|p1: int, p2: int|
            0 <= p1 < p2 < g.n() ==> (#[trigger] v[p1]).chain_index != (#[trigger] v[p2]).chain_index,
        forall|c: int|
            0 <= c < g.n() ==> 0 <= #[trigger] author_for(g.n(), c, round) < g.n() && v[author_for(
                g.n(),
                c,
                round,
            )].chain_index == c,
        forall|p: int| 0 <= p < g.n() ==> (#[trigger] v[p]).player_id == g.players@[p] && v[p].chain_index
            < g.n(),
{
    let n = g.n();
    lemma_chain_author_inverse(n, round);
    assert forall|p1: int, p2: int| 0 <= p1 < p2 < n implies (#[trigger] v[p1]).chain_index != (
    #[trigger] v[p2]).chain_index by {
        assert(v[p1] == g.assignment_at(round, p1));
        assert(v[p2] == g.assignment_at(round, p2));
        assert(author_for(n, chain_for(n, p1, round), round) == p1);
        assert(author_for(n, chain_for(n, p2, round), round) == p2);
    }
    assert forall|c: int| 0 <= c < n implies 0 <= #[trigger] author_for(n, c, round) < n && v[author_for(
        n,
        c,
        round,
    )].chain_index == c by {
        let p = author_for(n, c, round);
        assert(v[p] == g.assignment_at(round, p));
    }
    assert forall|p: int| 0 <= p < n implies (#[trigger] v[p]).player_id == g.players@[p] && v[p].chain_index
        < n by {
        assert(v[p] == g.assignment_at(round, p));
    }
}

proof fn lemma_prompt_source_other(players: Seq<u64>, i: int)
    requires
        players.no_duplicates(),
        players.len() >= 2,
        0 <= i < players.len(),
    ensures
        prompt_source(players, i) != players[i],
{
    let n = players.len() as int;
    let j = (i + n - 1) % n;
    if i >= 1 {
        lemma_mod_shift(i - 1, n);
        lemma_mod_small(i - 1, n);
    } else {
        lemma_mod_small(n - 1, n);
    }
    assert(j != i);
}

proof fn lemma_short_assignments_shape(players: Seq<u64>, prompts: Seq<ShortPrompt>, k: int)
    requires
        0 <= k <= players.len(),
    ensures
        short_assignments_upto(players, prompts, k).len() <= k,
        forall|j: int|
            0 <= j < short_assignments_upto(players, prompts, k).len() ==> exists|i: int|
                0 <= i < k && (#[trigger] short_assignments_upto(players, prompts, k)[j]).player_id
                    == players[i] && short_assignments_upto(players, prompts, k)[j].prompt_author_id
                    == prompt_source(players, i),
    decreases k,
{
    if k > 0 {
        lemma_short_assignments_shape(players, prompts, k - 1);
        let prev = short_assignments_upto(players, prompts, k - 1);
        let cur = short_assignments_upto(players, prompts, k);
        assert forall|j: int| 0 <= j < cur.len() implies exists|i: int|
            0 <= i < k && (#[trigger] cur[j]).player_id == players[i] && cur[j].prompt_author_id
                == prompt_source(players, i) by {
            if j < prev.len() {
                assert(cur[j] == prev[j]);
                let i = choose|i: int|
                    0 <= i < k - 1 && (#[trigger] prev[j]).player_id == players[i] && prev[j].prompt_author_id
                        == prompt_source(players, i);
                assert(0 <= i < k);
            } else {
                assert(cur[j].player_id == players[k - 1]);
            }
        }
    }
}

/// In the short game nobody is ever asked to draw their own prompt, whatever
/// prompts have arrived so far.
pub proof fn law_short_assignment_never_own_prompt(players: Seq<u64>, prompts: Seq<ShortPrompt>)
    requires
        players.no_duplicates(),
        players.len() >= 2,
    ensures
        forall|j: int|
            0 <= j < short_assignments(players, prompts).len() ==> (#[trigger] short_assignments(
                players,
                prompts,
            )[j]).player_id != short_assignments(players, prompts)[j].prompt_author_id,
{
    let k = players.len() as int;
    lemma_short_assignments_shape(players, prompts, k);
    let a = short_assignments(players, prompts);
    assert forall|j: int| 0 <= j < a.len() implies (#[trigger] a[j]).player_id != a[j].prompt_author_id by {
        let i = choose|i: int|
            0 <= i < k && (#[trigger] short_assignments_upto(players, prompts, k)[j]).player_id
                == players[i] && short_assignments_upto(players, prompts, k)[j].prompt_author_id
                == prompt_source(players, i);
        lemma_prompt_source_other(players, i);
    }
}

proof fn lemma_short_assignments_complete(players: Seq<u64>, prompts: Seq<ShortPrompt>, k: int)
    requires
        0 <= k <= players.len(),
        forall|i: int| 0 <= i < players.len() ==> find_prompt(prompts, #[trigger] players[i]) is Some,
    ensures
        short_assignments_upto(players, prompts, k).len() == k,
        forall|i: int|
            0 <= i < k ==> #[trigger] short_assignments_upto(players, prompts, k)[i] == (
            ShortDrawingAssignment {
                player_id: players[i],
                prompt_author_id: prompt_source(players, i),
                prompt: find_prompt(prompts, prompt_source(players, i))->0.text,
            }),
    decreases k,
{
    if k > 0 {
        lemma_short_assignments_complete(players, prompts, k - 1);
        let n = players.len() as int;
        lemma_mod_shift(k - 1 + n - 1, n);
        assert(find_prompt(prompts, players[(k - 1 + n - 1) % n]) is Some);
    }
}

/// Once every player of a short game has sent a prompt, every player gets
/// exactly one drawing assignment, in player order, holding the prompt of
/// the player before them in the shuffled order, which is never their own.
pub proof fn law_short_round_assigns_everyone_another_prompt(g: Game)
    requires
        g.wf(),
        g.is_short_mode(),
        g.phase == GamePhase::InProgress,
        g.current_round == 0,
        g.submitted().len() == g.n(),
    ensures
        short_assignments(g.players@, mode_prompts(g.mode)).len() == g.n(),
        forall|i: int|
            0 <= i < g.n() ==> {
                let a = #[trigger] short_assignments(g.players@, mode_prompts(g.mode))[i];
                &&& a.player_id == g.players@[i]
                &&& a.prompt_author_id == prompt_source(g.players@, i)
                &&& a.prompt_author_id != a.player_id
                &&& a.prompt == find_prompt(mode_prompts(g.mode), a.prompt_author_id)->0.text
            },
{
    let n = g.n();
    lemma_subset_of_players(g.players@, g.submitted_this_round@);
    assert forall|i: int| 0 <= i < n implies find_prompt(mode_prompts(g.mode), #[trigger] g.players@[i]) is Some by {
        assert(g.submitted_this_round@.contains(g.players@[i]));
    }
    lemma_short_assignments_complete(g.players@, mode_prompts(g.mode), n);
    assert forall|i: int| 0 <= i < n implies {
        let a = #[trigger] short_assignments(g.players@, mode_prompts(g.mode))[i];
        &&& a.player_id == g.players@[i]
        &&& a.prompt_author_id == prompt_source(g.players@, i)
        &&& a.prompt_author_id != a.player_id
        &&& a.prompt == find_prompt(mode_prompts(g.mode), a.prompt_author_id)->0.text
    } by {
        lemma_prompt_source_other(g.players@, i);
    }
}

/// A submission that completes a round of a full game does not move the
/// game on: the round stays pending, with the very advance that was
/// returned, until the next round is committed, so the assignments can be
/// delivered again.
pub proof fn law_completed_round_waits_for_commit(
    old: Game,
    new: Game,
    player: u64,
    kind: SubmissionKind,
    r: Result<Advance, crate::state::GameError>,
)
    requires
        old.wf(),
        new.wf(),
        !old.is_short_mode(),
        Game::submit_outcome(old, new, player, kind, r),
        r matches Ok(Advance::NextRound { .. }),
    ensures
        new.has_pending(),
        new.pending_ok(Some(r->Ok_0)),
        new.current_round == old.current_round,
{
    lemma_subset_of_players(new.players@, new.submitted());
}

/// The same for the prompt round of a short game: once every prompt is in,
/// the drawing round stays pending with the returned assignments until it
/// is committed.
pub proof fn law_completed_prompt_round_waits_for_commit(
    old: Game,
    new: Game,
    player: u64,
    text: String,
    r: Result<Advance, crate::state::GameError>,
)
    requires
        old.wf(),
        new.wf(),
        old.is_short_mode(),
        Game::short_prompt_outcome(old, new, player, text, r),
        r matches Ok(Advance::ShortDrawingRound { .. }),
    ensures
        new.has_pending(),
        new.pending_ok(Some(r->Ok_0)),
        new.current_round == old.current_round,
{
    lemma_subset_of_players(new.players@, new.submitted());
}

proof fn lemma_offsets_differ(n: int, r: int)
    requires
        n >= 3,
        1 <= r < classic_total(n),
    ensures
        author_offset(n, r - 1) != author_offset(n, r),
{
    if r + 1 == classic_total(n) {
        assert((r - 1) % 2 == 1);
        assert((r - 2) / 2 == n - 1);
        lemma_mod_shift(1, n);
        lemma_mod_small(1, n);
    } else if r % 2 == 0 {
        let k = r / 2;
        assert((r - 1) % 2 == 1);
        assert((r - 2) / 2 == k - 1);
        if k + 1 < n {
            lemma_mod_small(k + 1, n);
        } else {
            lemma_mod_shift(0, n);
            lemma_mod_small(0, n);
        }
    } else {
        let k = (r - 1) / 2;
        assert((r - 1) % 2 == 0);
        assert((r - 1) / 2 == k);
        if k + 2 < n {
            lemma_mod_small(k + 2, n);
        } else {
            lemma_mod_shift(k + 2 - n, n);
            lemma_mod_small(k + 2 - n, n);
        }
    }
}

/// In a full game of three or more players, from the second round on, a
/// player who has still to submit builds on an entry that someone else
/// wrote: nobody is handed their own entry to draw, describe or name.
pub proof fn law_full_game_never_hands_back_own_entry(g: Game, p: int)
    requires
        g.wf(),
        !g.is_short_mode(),
        g.phase == GamePhase::InProgress,
        g.n() >= 3,
        g.current_round >= 1,
        0 <= p < g.n(),
        !g.submitted().contains(g.players@[p]),
    ensures
        g.assignment_at(g.current_round as int, p).previous_entry matches Some(e) && e.author_id
            != g.players@[p],
{
    let n = g.n();
    let r = g.current_round as int;
    lemma_chain_author_inverse(n, r);
    lemma_offset_range(n, r);
    lemma_offset_range(n, r - 1);
    let c = chain_for(n, p, r);
    assert(0 <= c < n && author_for(n, c, r) == p);
    assert(g.chains@[c].entries@.len() == r);
    assert(g.entry_fits(c, r - 1));
    lemma_offsets_differ(n, r);
    lemma_mod_distinct(c, author_offset(n, r - 1), author_offset(n, r), n);
    let a = author_for(n, c, r - 1);
    assert(a != p);
    lemma_mod_shift(c + author_offset(n, r - 1), n);
    assert(0 <= a < n);
    assert(g.players@[a] != g.players@[p]);
}

/// Marking a player not ready adds exactly that player to the unready set
/// and changes nothing else; the ready count is then the players less the
/// unready ones, and a lobby of two or more cannot be started by its host
/// until that player passes the check again.
pub proof fn law_mark_not_ready_blocks_start(
    old_game: Game,
    new_game: Game,
    player_id: u64,
    requester_id: u64,
    order: Seq<u64>,
    r: Result<StartRound, GameError>,
)
    requires
        old_game.wf(),
        old_game.players@.contains(player_id),
        forall|x: u64| #[trigger] old_game.unready().contains(x) ==> old_game.players@.contains(x),
        new_game == (Game { unready_players: new_game.unready_players, ..old_game }),
        new_game.unready() == old_game.unready().insert(player_id),
    ensures
        new_game.unready().contains(player_id),
        forall|q: u64|
            q != player_id ==> (#[trigger] new_game.unready().contains(q) == old_game.unready().contains(
                q,
            )),
        new_game.players == old_game.players,
        new_game.phase == old_game.phase,
        new_game.unready().len() <= new_game.players@.len(),
        (new_game.phase == GamePhase::Lobby && new_game.players@.len() >= 2 && requester_id
            == new_game.host_id && Game::start_outcome(new_game, new_game, requester_id, order, r)) ==> r
            == Err::<StartRound, GameError>(GameError::PlayersNotReady),
{
    assert forall|x: u64| #[trigger] new_game.unready().contains(x) implies new_game.players@.contains(x) by {
        if x != player_id {
            assert(old_game.unready().contains(x));
        }
    }
    assert(new_game.players@.no_duplicates());
    assert(new_game.unready().finite());
    lemma_subset_of_players(new_game.players@, new_game.unready());
    let i = choose|i: int| 0 <= i < new_game.players@.len() && new_game.players@[i] == player_id;
    assert(new_game.unready().contains(new_game.players@[i]));
}

/// `j` is the first upload made for the prompt of `author`.
pub open spec fn is_first_drawing_for(drawings: Seq<ShortDrawing>, author: u64, j: int) -> bool {
    &&& 0 <= j < drawings.len()
    &&& drawings[j].prompt_author_id == author
    &&& forall|k: int| 0 <= k < j ==> drawings[k].prompt_author_id != author
}

/// The showcase shows that upload: its prompt, its drawer, its image link
/// and its file name.
pub open spec fn shows_drawing(s: ShortShowcase, d: ShortDrawing) -> bool {
    &&& s.prompt == d.prompt
    &&& s.drawing_author_id == d.author_id
    &&& s.attachment_url == d.attachment_url
    &&& s.filename == d.filename
}

/// The showcase shows the first upload made for its prompt.
pub open spec fn shows_first_drawing(drawings: Seq<ShortDrawing>, s: ShortShowcase) -> bool {
    exists|j: int| is_first_drawing_for(drawings, s.prompt_author_id, j) && shows_drawing(s, drawings[j])
}

proof fn lemma_find_drawing_is_first(drawings: Seq<ShortDrawing>, author: u64)
    ensures
        find_drawing(drawings, author) matches Some(d) ==> exists|j: int|
            is_first_drawing_for(drawings, author, j) && #[trigger] drawings[j] == d,
        find_drawing(drawings, author) is None ==> forall|j: int|
            0 <= j < drawings.len() ==> #[trigger] drawings[j].prompt_author_id != author,
    decreases drawings.len(),
{
    if drawings.len() == 0 {
    } else if drawings[0].prompt_author_id == author {
        assert(is_first_drawing_for(drawings, author, 0));
        assert(drawings[0] == drawings[0]);
    } else {
        let tail = drawings.drop_first();
        lemma_find_drawing_is_first(tail, author);
        match find_drawing(tail, author) {
            Some(d) => {
                let j = choose|j: int| is_first_drawing_for(tail, author, j) && #[trigger] tail[j] == d;
                assert forall|k: int| 0 <= k < j + 1 implies drawings[k].prompt_author_id != author by {
                    if k > 0 {
                        assert(drawings[k] == tail[k - 1]);
                    }
                }
                assert(is_first_drawing_for(drawings, author, j + 1));
                assert(drawings[j + 1] == d);
            },
            None => {
                assert forall|j: int| 0 <= j < drawings.len() implies #[trigger] drawings[j].prompt_author_id
                    != author by {
                    if j > 0 {
                        assert(drawings[j] == tail[j - 1]);
                    }
                }
            },
        }
    }
}

proof fn lemma_showcases_shown(players: Seq<u64>, drawings: Seq<ShortDrawing>, k: int)
    requires
        0 <= k <= players.len(),
    ensures
        forall|i: int|
            0 <= i < short_showcases_upto(players, drawings, k).len() ==> shows_first_drawing(drawings, #[trigger] short_showcases_upto(players, drawings, k)[i]),
    decreases k,
{
    if k > 0 {
        lemma_showcases_shown(players, drawings, k - 1);
        let prev = short_showcases_upto(players, drawings, k - 1);
        let cur = short_showcases_upto(players, drawings, k);
        let a = players[k - 1];
        lemma_find_drawing_is_first(drawings, a);
        match find_drawing(drawings, a) {
            Some(d) => {
                assert(cur == prev.push(
                    ShortShowcase {
                        prompt_author_id: a,
                        prompt: d.prompt,
                        drawing_author_id: d.author_id,
                        attachment_url: d.attachment_url,
                        filename: d.filename,
                    },
                ));
                assert forall|i: int| 0 <= i < cur.len() implies shows_first_drawing(drawings, #[trigger] cur[i]) by {
                    if i < prev.len() {
                        assert(cur[i] == prev[i]);
                    } else {
                        let j = choose|j: int| is_first_drawing_for(drawings, a, j) && #[trigger] drawings[j] == d;
                        assert(is_first_drawing_for(drawings, cur[i].prompt_author_id, j));
                        assert(shows_drawing(cur[i], drawings[j]));
                    }
                }
            },
            None => {
                assert(cur == prev);
            },
        }
    }
}

proof fn lemma_showcases_belong(players: Seq<u64>, drawings: Seq<ShortDrawing>, k: int)
    requires
        0 <= k <= players.len(),
    ensures
        forall|i: int|
            0 <= i < short_showcases_upto(players, drawings, k).len() ==> exists|p: int|
                0 <= p < k && players[p] == (#[trigger] short_showcases_upto(players, drawings, k)[
                    i
                ]).prompt_author_id,
    decreases k,
{
    if k > 0 {
        lemma_showcases_belong(players, drawings, k - 1);
        let prev = short_showcases_upto(players, drawings, k - 1);
        let cur = short_showcases_upto(players, drawings, k);
        assert(cur.len() == prev.len() || cur.len() == prev.len() + 1);
        assert forall|i: int| 0 <= i < cur.len() implies exists|p: int|
            0 <= p < k && players[p] == (#[trigger] cur[i]).prompt_author_id by {
            if i < prev.len() {
                assert(cur[i] == prev[i]);
                let p = choose|p: int| 0 <= p < k - 1 && players[p] == (#[trigger] prev[i]).prompt_author_id;
                assert(0 <= p < k && players[p] == cur[i].prompt_author_id);
            } else {
                assert(players[k - 1] == cur[i].prompt_author_id);
            }
        }
    }
}

proof fn lemma_showcases_cover(players: Seq<u64>, drawings: Seq<ShortDrawing>, k: int)
    requires
        0 <= k <= players.len(),
    ensures
        forall|p: int, j: int|
            0 <= p < k && 0 <= j < drawings.len() && #[trigger] drawings[j].prompt_author_id
                == #[trigger] players[p] ==> exists|i: int|
                0 <= i < short_showcases_upto(players, drawings, k).len() && (
                #[trigger] short_showcases_upto(players, drawings, k)[i]).prompt_author_id
                == players[p],
    decreases k,
{
    if k > 0 {
        lemma_showcases_cover(players, drawings, k - 1);
        let prev = short_showcases_upto(players, drawings, k - 1);
        let cur = short_showcases_upto(players, drawings, k);
        let a = players[k - 1];
        lemma_find_drawing_is_first(drawings, a);
        assert forall|p: int, j: int|
            0 <= p < k && 0 <= j < drawings.len() && #[trigger] drawings[j].prompt_author_id
                == #[trigger] players[p] implies exists|i: int|
            0 <= i < cur.len() && (#[trigger] cur[i]).prompt_author_id == players[p] by {
            if p < k - 1 {
                let i = choose|i: int|
                    0 <= i < prev.len() && (#[trigger] prev[i]).prompt_author_id == players[p];
                assert(cur.len() >= prev.len());
                assert(cur[i] == prev[i]);
            } else {
                assert(drawings[j].prompt_author_id == a);
                assert(find_drawing(drawings, a) is Some);
                assert(cur[prev.len() as int].prompt_author_id == players[p]);
            }
        }
    }
}

proof fn lemma_showcases_distinct(players: Seq<u64>, drawings: Seq<ShortDrawing>, k: int)
    requires
        0 <= k <= players.len(),
        players.no_duplicates(),
    ensures
        forall|i: int, j: int|
            0 <= i < j < short_showcases_upto(players, drawings, k).len() ==> (
            #[trigger] short_showcases_upto(players, drawings, k)[i]).prompt_author_id != (
            #[trigger] short_showcases_upto(players, drawings, k)[j]).prompt_author_id,
    decreases k,
{
    if k > 0 {
        lemma_showcases_distinct(players, drawings, k - 1);
        lemma_showcases_belong(players, drawings, k - 1);
        let prev = short_showcases_upto(players, drawings, k - 1);
        let cur = short_showcases_upto(players, drawings, k);
        assert(cur.len() == prev.len() || cur.len() == prev.len() + 1);
        assert forall|i: int, j: int| 0 <= i < j < cur.len() implies (#[trigger] cur[i]).prompt_author_id
            != (#[trigger] cur[j]).prompt_author_id by {
            assert(cur[i] == prev[i]);
            if j < prev.len() {
                assert(cur[j] == prev[j]);
            } else {
                assert(cur[j].prompt_author_id == players[k - 1]);
                let p = choose|p: int| 0 <= p < k - 1 && players[p] == (#[trigger] prev[i]).prompt_author_id;
                assert(players[p] != players[k - 1]);
            }
        }
    }
}

/// The reveal of a short game shows each prompt with its own drawing: every
/// showcase belongs to a player, and its prompt, drawer, image link and file
/// name are all those of the first upload made for that player's prompt.
/// Every player whose prompt was drawn gets a showcase, and where no player
/// is listed twice no prompt is shown twice.
pub proof fn law_short_showcase_shows_its_own_drawing(players: Seq<u64>, drawings: Seq<ShortDrawing>)
    ensures
        players.no_duplicates() ==> forall|i: int, j: int|
            0 <= i < j < short_showcases(players, drawings).len() ==> (
            #[trigger] short_showcases(players, drawings)[i]).prompt_author_id != (
            #[trigger] short_showcases(players, drawings)[j]).prompt_author_id,
        forall|i: int|
            0 <= i < short_showcases(players, drawings).len() ==> shows_first_drawing(drawings, #[trigger] short_showcases(players, drawings)[i]),
        forall|i: int|
            0 <= i < short_showcases(players, drawings).len() ==> players.contains(
                (#[trigger] short_showcases(players, drawings)[i]).prompt_author_id,
            ),
        forall|p: int, j: int|
            0 <= p < players.len() && 0 <= j < drawings.len() && #[trigger] drawings[j].prompt_author_id
                == #[trigger] players[p] ==> exists|i: int|
                0 <= i < short_showcases(players, drawings).len() && (
                #[trigger] short_showcases(players, drawings)[i]).prompt_author_id == players[p],
{
    let n = players.len() as int;
    lemma_showcases_shown(players, drawings, n);
    lemma_showcases_belong(players, drawings, n);
    lemma_showcases_cover(players, drawings, n);
    let v = short_showcases(players, drawings);
    let w = short_showcases_upto(players, drawings, n);
    assert(v == w);
    if players.no_duplicates() {
        lemma_showcases_distinct(players, drawings, n);
        assert forall|i: int, j: int| 0 <= i < j < v.len() implies (#[trigger] v[i]).prompt_author_id
            != (#[trigger] v[j]).prompt_author_id by {
            assert(v[i] == w[i] && v[j] == w[j]);
        }
    }
    assert forall|i: int| 0 <= i < v.len() implies shows_first_drawing(drawings, #[trigger] v[i]) by {
        assert(v[i] == w[i]);
    }
    assert forall|i: int| 0 <= i < v.len() implies players.contains((#[trigger] v[i]).prompt_author_id) by {
        assert(v[i] == w[i]);
        let p = choose|p: int| 0 <= p < n && players[p] == (#[trigger] w[i]).prompt_author_id;
        assert(players[p] == v[i].prompt_author_id);
    }
    assert forall|p: int, j: int|
        0 <= p < players.len() && 0 <= j < drawings.len() && #[trigger] drawings[j].prompt_author_id
            == #[trigger] players[p] implies exists|i: int|
        0 <= i < v.len() && (#[trigger] v[i]).prompt_author_id == players[p] by {
        let i = choose|i: int| 0 <= i < w.len() && (#[trigger] w[i]).prompt_author_id == players[p];
        assert(v[i] == w[i]);
    }
}

} // verus!
