//! The Grateic Phone games of every server: at most one game per server,
//! and no player in two games at once.

use crate::choices::GameModeChoice;
use crate::commands::{mention, mention_list, mention_list_text, push_mention};
use crate::state::{
    Advance, CanvasConfig, Game, GameError, GameKey, GameMode, GamePhase, StartRound, max_players,
};
use crate::status::{dm_status_text, format_dm_status, format_game_status, game_status_text, unready_list};
use crate::submission::{message_outcome, submit_message_to_game, SubmitError, SubmittedMessage};
use crate::text::{decimal, push_decimal, push_str};
use vstd::prelude::*;

verus! {

broadcast use vstd::string::group_string_axioms;

/// The running games.
#[derive(Debug)]
pub struct GameTable {
    pub games: Vec<Game>,
}

/// Game `i` is the one with `key`.
pub open spec fn holds_key(games: Seq<Game>, key: GameKey, i: int) -> bool {
    0 <= i < games.len() && games[i].key == key
}

pub open spec fn has_game(games: Seq<Game>, key: GameKey) -> bool {
    exists|i: int| holds_key(games, key, i)
}

/// Some game of the server `guild_id` is running.
pub open spec fn guild_taken(games: Seq<Game>, guild_id: u64) -> bool {
    exists|i: int| 0 <= i < games.len() && #[trigger] games[i].key.guild_id == guild_id
}

/// `player` plays in some game.
pub open spec fn in_any_game(games: Seq<Game>, player: u64) -> bool {
    exists|i: int| 0 <= i < games.len() && #[trigger] games[i].players@.contains(player)
}

/// `player` plays in a game other than the one with `key`.
pub open spec fn in_other_game(games: Seq<Game>, key: GameKey, player: u64) -> bool {
    exists|i: int|
        0 <= i < games.len() && games[i].key != key && #[trigger] games[i].players@.contains(player)
}

/// A new lobby with `host` as its only player.
pub open spec fn fresh_lobby(g: Game, key: GameKey, host: u64, canvas: CanvasConfig, short: bool) -> bool {
    &&& g.wf()
    &&& g.key == key
    &&& g.host_id == host
    &&& g.canvas == canvas
    &&& g.lobby_message_id is None
    &&& g.phase == GamePhase::Lobby
    &&& g.players@ == seq![host]
    &&& g.current_round == 0
    &&& g.chains@.len() == 0
    &&& g.unready().is_empty()
    &&& g.submitted().is_empty()
    &&& if short {
        g.mode matches GameMode::Short { prompts, drawings } && prompts@.len() == 0
            && drawings@.len() == 0
    } else {
        g.mode is Classic
    }
}

/// Only players wait for a DM check.
pub open spec fn unready_are_players(g: Game) -> bool {
    forall|x: u64| #[trigger] g.unready().contains(x) ==> g.players@.contains(x)
}

/// The unready players are no more than the players.
proof fn lemma_unready_count(g: Game)
    requires
        g.wf(),
        unready_are_players(g),
    ensures
        g.unready().len() <= g.players@.len(),
{
    assert(g.unready().subset_of(g.players@.to_set()));
    g.players@.lemma_cardinality_of_set();
    vstd::set_lib::lemma_len_subset(g.unready(), g.players@.to_set());
}

proof fn lemma_unready_after_join(old: Game, new: Game, p: u64, r: Result<(), GameError>)
    requires
        unready_are_players(old),
        Game::join_outcome(old, new, p, r),
    ensures
        unready_are_players(new),
{
    assert forall|x: u64| #[trigger] new.unready().contains(x) implies new.players@.contains(x) by {
        if r is Ok {
            let k = choose|k: int| 0 <= k < old.players@.len() && old.players@[k] == x;
            assert(new.players@[k] == x);
        }
    }
}

proof fn lemma_unready_after_leave(old: Game, new: Game, p: u64, r: Result<(), GameError>)
    requires
        unready_are_players(old),
        Game::leave_outcome(old, new, p, r),
    ensures
        unready_are_players(new),
{
    assert forall|x: u64| #[trigger] new.unready().contains(x) implies new.players@.contains(x) by {
        if r is Ok {
            let i = choose|i: int|
                0 <= i < old.players@.len() && old.players@[i] == p && new.players@
                    == old.players@.remove(i);
            let k = choose|k: int| 0 <= k < old.players@.len() && old.players@[k] == x;
            if k < i {
                assert(new.players@[k] == x);
            } else {
                assert(new.players@[k - 1] == x);
            }
        }
    }
}

/// A submission changes neither the players nor who waits for a DM check.
proof fn lemma_message_keeps_players(
    old: Game,
    new: Game,
    message: SubmittedMessage,
    player_id: u64,
    r: Result<(Advance, Option<String>), SubmitError>,
)
    requires
        old.wf(),
        message_outcome(old, new, message, player_id, r),
    ensures
        new.players == old.players,
        new.unready() == old.unready(),
{
}

/// Starting a game shuffles its players and keeps who waits for a DM check.
proof fn lemma_start_keeps_players(
    old: Game,
    new: Game,
    requester_id: u64,
    order: Seq<u64>,
    r: Result<StartRound, GameError>,
)
    requires
        order.to_multiset() == old.players@.to_multiset(),
        Game::start_outcome(old, new, requester_id, order, r),
    ensures
        forall|p: u64| new.players@.contains(p) <==> old.players@.contains(p),
        new.unready() == old.unready(),
{
    broadcast use vstd::seq_lib::group_to_multiset_ensures;

    assert forall|p: u64| new.players@.contains(p) <==> old.players@.contains(p) by {
        if new.players@ == order {
            assert(order.contains(p) <==> order.to_multiset().count(p) > 0);
            assert(old.players@.contains(p) <==> old.players@.to_multiset().count(p) > 0);
        }
    }
}

/// Every game is well formed, no two games share a server, and no player is
/// in two games.
pub open spec fn table_wf(games: Seq<Game>) -> bool {
    &&& forall|i: int| 0 <= i < games.len() ==> #[trigger] games[i].wf()
    &&& forall|i: int| 0 <= i < games.len() ==> unready_are_players(#[trigger] games[i])
    &&& forall|i: int, j: int|
        0 <= i < games.len() && 0 <= j < games.len() && i != j ==> #[trigger] games[i].key.guild_id
            != #[trigger] games[j].key.guild_id
    &&& forall|i: int, j: int, p: u64|
        0 <= i < games.len() && 0 <= j < games.len() && i != j && #[trigger] games[i].players@.contains(
            p,
        ) ==> !#[trigger] games[j].players@.contains(p)
}

/// Replacing game `i` by `g` keeps the table well formed when `g` keeps its
/// key and every player of `g` was already in it or is in no other game.
proof fn lemma_update_keeps_wf(games: Seq<Game>, i: int, g: Game)
    requires
        table_wf(games),
        0 <= i < games.len(),
        g.wf(),
        unready_are_players(g),
        g.key == games[i].key,
        forall|p: u64|
            #[trigger] g.players@.contains(p) ==> games[i].players@.contains(p) || !in_other_game(
                games,
                g.key,
                p,
            ),
    ensures
        table_wf(games.update(i, g)),
{
    let t = games.update(i, g);
    assert forall|a: int, b: int|
        0 <= a < t.len() && 0 <= b < t.len() && a != b implies #[trigger] t[a].key.guild_id
            != #[trigger] t[b].key.guild_id by {
        assert(games[a].key.guild_id != games[b].key.guild_id);
    }
    assert forall|a: int, b: int, p: u64|
        0 <= a < t.len() && 0 <= b < t.len() && a != b && #[trigger] t[a].players@.contains(
            p,
        ) implies !#[trigger] t[b].players@.contains(p) by {
        if a == i {
            if !games[i].players@.contains(p) {
                if t[b].players@.contains(p) {
                    assert(games[b].key != g.key) by {
                        assert(games[b].key.guild_id != games[i].key.guild_id);
                    }
                    assert(in_other_game(games, g.key, p));
                }
            }
        } else if b == i {
            if t[b].players@.contains(p) && !games[i].players@.contains(p) {
                assert(games[a].key != g.key) by {
                    assert(games[a].key.guild_id != games[i].key.guild_id);
                }
                assert(in_other_game(games, g.key, p));
            }
        }
    }
}

proof fn lemma_remove_keeps_wf(games: Seq<Game>, i: int)
    requires
        table_wf(games),
        0 <= i < games.len(),
    ensures
        table_wf(games.remove(i)),
{
    let t = games.remove(i);
    assert forall|a: int| 0 <= a < t.len() implies #[trigger] t[a].wf() && unready_are_players(
        t[a],
    ) by {
        if a < i {
            assert(t[a] == games[a]);
        } else {
            assert(t[a] == games[a + 1]);
        }
    }
    assert forall|a: int, b: int|
        0 <= a < t.len() && 0 <= b < t.len() && a != b implies #[trigger] t[a].key.guild_id
            != #[trigger] t[b].key.guild_id by {
        let a2 = if a < i { a } else { a + 1 };
        let b2 = if b < i { b } else { b + 1 };
        assert(t[a] == games[a2] && t[b] == games[b2]);
        assert(games[a2].key.guild_id != games[b2].key.guild_id);
    }
    assert forall|a: int, b: int, p: u64|
        0 <= a < t.len() && 0 <= b < t.len() && a != b && #[trigger] t[a].players@.contains(
            p,
        ) implies !#[trigger] t[b].players@.contains(p) by {
        let a2 = if a < i { a } else { a + 1 };
        let b2 = if b < i { b } else { b + 1 };
        assert(t[a] == games[a2] && t[b] == games[b2]);
        assert(games[a2].players@.contains(p));
    }
}

/// Keys are unique: the game found for a key is the only one holding it.
proof fn lemma_key_unique(games: Seq<Game>, key: GameKey, i: int, j: int)
    requires
        table_wf(games),
        holds_key(games, key, i),
        holds_key(games, key, j),
    ensures
        i == j,
{
    if i != j {
        assert(games[i].key.guild_id != games[j].key.guild_id);
    }
}

/// The Ok or Err of a result, without its value.
pub open spec fn outcome_of<T>(r: Result<T, GameError>) -> Result<(), GameError> {
    match r {
        Ok(_) => Ok(()),
        Err(e) => Err(e),
    }
}

pub open spec fn joined_text(player: u64, count: nat) -> Seq<char> {
    mention(player) + " joined the Grateic Phone lobby. Players: "@ + decimal(count) + "."@
}

pub open spec fn left_text(player: u64, count: nat) -> Seq<char> {
    mention(player) + " left the Grateic Phone lobby. Players: "@ + decimal(count) + "."@
}

fn lobby_change_message(player: u64, count: usize, joined: bool) -> (s: String)
    ensures
        s@ == if joined {
            joined_text(player, count as nat)
        } else {
            left_text(player, count as nat)
        },
{
    let mut s = String::new();
    push_mention(&mut s, player);
    if joined {
        push_str(&mut s, " joined the Grateic Phone lobby. Players: ");
    } else {
        push_str(&mut s, " left the Grateic Phone lobby. Players: ");
    }
    push_decimal(&mut s, count as u64);
    push_str(&mut s, ".");
    s
}

pub open spec fn cannot_start_text(unready: Seq<u64>) -> Seq<char> {
    "Cannot start yet. I could not DM these players before. They need to enable DMs from this server and run `/grate grateic ready`: "@
        + mention_list_text(unready)
}

pub open spec fn ready_text(player: u64, ready: nat, count: nat) -> Seq<char> {
    mention(player) + " is ready. Ready players: "@ + decimal(ready) + "/"@ + decimal(count) + "."@
}

pub open spec fn lobby_refreshed_text() -> Seq<char> {
    "Lobby status refreshed in the original lobby message."@
}

fn text_owned_lobby_refreshed() -> (s: String)
    ensures
        s@ == lobby_refreshed_text(),
{
    crate::text::owned("Lobby status refreshed in the original lobby message.")
}

/// The keys of the running games that `player` plays in, in order.
pub open spec fn accepting_keys(games: Seq<Game>, player: u64) -> Seq<GameKey>
    decreases games.len(),
{
    if games.len() == 0 {
        Seq::empty()
    } else {
        let rest = accepting_keys(games.drop_last(), player);
        let g = games.last();
        if g.phase == GamePhase::InProgress && g.players@.contains(player) {
            rest.push(g.key)
        } else {
            rest
        }
    }
}

impl GameTable {
    pub open spec fn wf(&self) -> bool {
        table_wf(self.games@)
    }

    pub fn new() -> (t: GameTable)
        ensures
            t.wf(),
            t.games@.len() == 0,
    {
        GameTable { games: Vec::new() }
    }

    /// The position of the game with `key`.
    pub fn find(&self, key: GameKey) -> (r: Option<usize>)
        ensures
            match r {
                Some(i) => holds_key(self.games@, key, i as int),
                None => !has_game(self.games@, key),
            },
    {
        let mut i: usize = 0;
        while i < self.games.len()
            invariant
                i <= self.games@.len(),
                forall|j: int| 0 <= j < i ==> self.games@[j].key != key,
            decreases self.games@.len() - i,
        {
            if self.games[i].key == key {
                return Some(i);
            }
            i += 1;
        }
        None
    }

    /// The position of the game of server `guild_id`.
    pub fn find_guild(&self, guild_id: u64) -> (r: Option<usize>)
        ensures
            match r {
                Some(i) => i < self.games@.len() && self.games@[i as int].key.guild_id == guild_id,
                None => !guild_taken(self.games@, guild_id),
            },
    {
        let mut i: usize = 0;
        while i < self.games.len()
            invariant
                i <= self.games@.len(),
                forall|j: int| 0 <= j < i ==> self.games@[j].key.guild_id != guild_id,
            decreases self.games@.len() - i,
        {
            if self.games[i].key.guild_id == guild_id {
                return Some(i);
            }
            i += 1;
        }
        None
    }

    fn any_game_has_player(&self, player: u64) -> (b: bool)
        ensures
            b == in_any_game(self.games@, player),
    {
        let mut i: usize = 0;
        while i < self.games.len()
            invariant
                i <= self.games@.len(),
                forall|j: int| 0 <= j < i ==> !self.games@[j].players@.contains(player),
            decreases self.games@.len() - i,
        {
            if self.games[i].has_player(player) {
                return true;
            }
            i += 1;
        }
        false
    }

    fn other_game_has_player(&self, key: GameKey, player: u64) -> (b: bool)
        ensures
            b == in_other_game(self.games@, key, player),
    {
        let mut i: usize = 0;
        while i < self.games.len()
            invariant
                i <= self.games@.len(),
                forall|j: int|
                    0 <= j < i ==> !(self.games@[j].key != key && self.games@[j].players@.contains(
                        player,
                    )),
            decreases self.games@.len() - i,
        {
            if self.games[i].key != key && self.games[i].has_player(player) {
                return true;
            }
            i += 1;
        }
        false
    }

    /// The key of the game running in server `guild_id`.
    pub fn active_game_key_for_guild(&self, guild_id: u64) -> (r: Result<GameKey, GameError>)
        requires
            self.wf(),
        ensures
            guild_taken(self.games@, guild_id) ==> (r matches Ok(k) && k.guild_id == guild_id
                && has_game(self.games@, k)),
            !guild_taken(self.games@, guild_id) ==> r == Err::<GameKey, GameError>(
                GameError::GameNotFound,
            ),
    {
        match self.find_guild(guild_id) {
            Some(i) => {
                assert(holds_key(self.games@, self.games@[i as int].key, i as int));
                Ok(self.games[i].key)
            },
            None => Err(GameError::GameNotFound),
        }
    }

    /// Opens a lobby in the server of `key`, hosted by `host_id`. A server
    /// runs one game at a time, and the host may not be playing elsewhere.
    pub fn create_game(
        &mut self,
        key: GameKey,
        host_id: u64,
        canvas: CanvasConfig,
        mode: GameModeChoice,
    ) -> (r: Result<(), GameError>)
        requires
            old(self).wf(),
        ensures
            final(self).wf(),
            guild_taken(old(self).games@, key.guild_id) ==> r == Err::<(), GameError>(
                GameError::GameAlreadyExists,
            ) && final(self).games@ == old(self).games@,
            !guild_taken(old(self).games@, key.guild_id) && in_any_game(old(self).games@, host_id)
                ==> r == Err::<(), GameError>(GameError::AlreadyInAnotherGame)
                && final(self).games@ == old(self).games@,
            !guild_taken(old(self).games@, key.guild_id) && !in_any_game(old(self).games@, host_id)
                ==> {
                &&& r is Ok
                &&& final(self).games@.len() == old(self).games@.len() + 1
                &&& final(self).games@.drop_last() == old(self).games@
                &&& fresh_lobby(
                    final(self).games@.last(),
                    key,
                    host_id,
                    canvas,
                    mode == GameModeChoice::Short,
                )
            },
    {
        if self.find_guild(key.guild_id).is_some() {
            return Err(GameError::GameAlreadyExists);
        }
        if self.any_game_has_player(host_id) {
            return Err(GameError::AlreadyInAnotherGame);
        }
        let game = match mode {
            GameModeChoice::Short => Game::new_short(key, host_id, canvas),
            GameModeChoice::Full => Game::new(key, host_id, canvas),
        };
        self.games.push(game);
        proof {
            let n = old(self).games@.len() as int;
            assert(self.games@.drop_last() =~= old(self).games@);
            assert forall|i: int, j: int|
                0 <= i < self.games@.len() && 0 <= j < self.games@.len() && i != j implies #[trigger] self.games@[i].key.guild_id
                    != #[trigger] self.games@[j].key.guild_id by {
                if i == n {
                    assert(old(self).games@[j].key.guild_id == self.games@[j].key.guild_id);
                } else if j == n {
                    assert(old(self).games@[i].key.guild_id == self.games@[i].key.guild_id);
                }
            }
            assert forall|i: int, j: int, p: u64|
                0 <= i < self.games@.len() && 0 <= j < self.games@.len() && i != j
                    && #[trigger] self.games@[i].players@.contains(p) implies !#[trigger] self.games@[j].players@.contains(
                p,
            ) by {
                if i == n {
                    assert(p == host_id);
                    assert(self.games@[j] == old(self).games@[j]);
                } else if j == n {
                    if self.games@[j].players@.contains(p) {
                        assert(p == host_id);
                        assert(self.games@[i] == old(self).games@[i]);
                    }
                }
            }
        }
        Ok(())
    }

    /// Adds `player_id` to the lobby with `key`, unless they play in another
    /// game.
    pub fn join_game(&mut self, key: GameKey, player_id: u64) -> (r: Result<String, GameError>)
        requires
            old(self).wf(),
            forall|i: int|
                holds_key(old(self).games@, key, i) ==> old(self).games@[i].players@.len()
                    < max_players(),
        ensures
            final(self).wf(),
            in_other_game(old(self).games@, key, player_id) ==> r == Err::<String, GameError>(
                GameError::AlreadyInAnotherGame,
            ) && final(self).games@ == old(self).games@,
            !in_other_game(old(self).games@, key, player_id) && !has_game(old(self).games@, key)
                ==> r == Err::<String, GameError>(GameError::GameNotFound) && final(self).games@
                == old(self).games@,
            forall|i: int|
                #![trigger holds_key(old(self).games@, key, i)]
                !in_other_game(old(self).games@, key, player_id) && holds_key(
                    old(self).games@,
                    key,
                    i,
                ) ==> {
                    &&& final(self).games@ == old(self).games@.update(i, final(self).games@[i])
                    &&& Game::join_outcome(
                        old(self).games@[i],
                        final(self).games@[i],
                        player_id,
                        outcome_of(r),
                    )
                    &&& r matches Ok(m) ==> m@ == joined_text(
                        player_id,
                        final(self).games@[i].players@.len(),
                    )
                },
    {
        if self.other_game_has_player(key, player_id) {
            return Err(GameError::AlreadyInAnotherGame);
        }
        let i = match self.find(key) {
            Some(i) => i,
            None => {
                return Err(GameError::GameNotFound);
            },
        };
        let ghost before = self.games@;
        let res = self.games[i].join(player_id);
        proof {
            assert forall|j: int| holds_key(before, key, j) implies j == i by {
                lemma_key_unique(before, key, i as int, j);
            }
            lemma_unready_after_join(before[i as int], self.games@[i as int], player_id, res);
            lemma_update_keeps_wf(before, i as int, self.games@[i as int]);
            assert(self.games@ =~= before.update(i as int, self.games@[i as int]));
        }
        match res {
            Ok(()) => Ok(lobby_change_message(player_id, self.games[i].players.len(), true)),
            Err(e) => Err(e),
        }
    }

    /// Takes `player_id` out of the lobby with `key`.
    pub fn leave_game(&mut self, key: GameKey, player_id: u64) -> (r: Result<String, GameError>)
        requires
            old(self).wf(),
        ensures
            final(self).wf(),
            !has_game(old(self).games@, key) ==> r == Err::<String, GameError>(
                GameError::GameNotFound,
            ) && final(self).games@ == old(self).games@,
            forall|i: int|
                #![trigger holds_key(old(self).games@, key, i)]
                holds_key(old(self).games@, key, i) ==> {
                    &&& final(self).games@ == old(self).games@.update(i, final(self).games@[i])
                    &&& Game::leave_outcome(
                        old(self).games@[i],
                        final(self).games@[i],
                        player_id,
                        outcome_of(r),
                    )
                    &&& r matches Ok(m) ==> m@ == left_text(
                        player_id,
                        final(self).games@[i].players@.len(),
                    )
                },
    {
        let i = match self.find(key) {
            Some(i) => i,
            None => {
                return Err(GameError::GameNotFound);
            },
        };
        let ghost before = self.games@;
        let res = self.games[i].leave(player_id);
        proof {
            assert forall|j: int| holds_key(before, key, j) implies j == i by {
                lemma_key_unique(before, key, i as int, j);
            }
            lemma_unready_after_leave(before[i as int], self.games@[i as int], player_id, res);
            lemma_update_keeps_wf(before, i as int, self.games@[i as int]);
            assert(self.games@ =~= before.update(i as int, self.games@[i as int]));
        }
        match res {
            Ok(()) => Ok(lobby_change_message(player_id, self.games[i].players.len(), false)),
            Err(e) => Err(e),
        }
    }

    /// The lobby's Join / Leave button: leaves when the player is in the
    /// lobby, joins otherwise.
    pub fn toggle_lobby_membership(&mut self, key: GameKey, player_id: u64) -> (r: Result<
        String,
        GameError,
    >)
        requires
            old(self).wf(),
            forall|i: int|
                holds_key(old(self).games@, key, i) ==> old(self).games@[i].players@.len()
                    < max_players(),
        ensures
            final(self).wf(),
            in_other_game(old(self).games@, key, player_id) ==> r == Err::<String, GameError>(
                GameError::AlreadyInAnotherGame,
            ) && final(self).games@ == old(self).games@,
            !in_other_game(old(self).games@, key, player_id) && !has_game(old(self).games@, key)
                ==> r == Err::<String, GameError>(GameError::GameNotFound) && final(self).games@
                == old(self).games@,
            forall|i: int|
                #![trigger holds_key(old(self).games@, key, i)]
                !in_other_game(old(self).games@, key, player_id) && holds_key(
                    old(self).games@,
                    key,
                    i,
                ) ==> {
                    &&& final(self).games@ == old(self).games@.update(i, final(self).games@[i])
                    &&& if old(self).games@[i].players@.contains(player_id) {
                        &&& Game::leave_outcome(
                            old(self).games@[i],
                            final(self).games@[i],
                            player_id,
                            outcome_of(r),
                        )
                        &&& r matches Ok(m) ==> m@ == left_text(
                            player_id,
                            final(self).games@[i].players@.len(),
                        )
                    } else {
                        &&& Game::join_outcome(
                            old(self).games@[i],
                            final(self).games@[i],
                            player_id,
                            outcome_of(r),
                        )
                        &&& r matches Ok(m) ==> m@ == joined_text(
                            player_id,
                            final(self).games@[i].players@.len(),
                        )
                    }
                },
    {
        if self.other_game_has_player(key, player_id) {
            return Err(GameError::AlreadyInAnotherGame);
        }
        let i = match self.find(key) {
            Some(i) => i,
            None => {
                return Err(GameError::GameNotFound);
            },
        };
        let ghost before = self.games@;
        let was_in = self.games[i].has_player(player_id);
        let res = if was_in {
            self.games[i].leave(player_id)
        } else {
            self.games[i].join(player_id)
        };
        proof {
            assert forall|j: int| holds_key(before, key, j) implies j == i by {
                lemma_key_unique(before, key, i as int, j);
            }
            if was_in {
                lemma_unready_after_leave(before[i as int], self.games@[i as int], player_id, res);
            } else {
                lemma_unready_after_join(before[i as int], self.games@[i as int], player_id, res);
            }
            lemma_update_keeps_wf(before, i as int, self.games@[i as int]);
            assert(self.games@ =~= before.update(i as int, self.games@[i as int]));
        }
        match res {
            Ok(()) => Ok(lobby_change_message(player_id, self.games[i].players.len(), !was_in)),
            Err(e) => Err(e),
        }
    }

    /// Cancels the lobby with `key` and takes it out of the table.
    pub fn cancel_game(&mut self, key: GameKey, requester_id: u64) -> (r: Result<Game, GameError>)
        requires
            old(self).wf(),
        ensures
            final(self).wf(),
            !has_game(old(self).games@, key) ==> r == Err::<Game, GameError>(GameError::GameNotFound)
                && final(self).games@ == old(self).games@,
            forall|i: int|
                #![trigger holds_key(old(self).games@, key, i)]
                holds_key(old(self).games@, key, i) ==> match r {
                    Ok(g) => Game::cancel_outcome(old(self).games@[i], g, requester_id, Ok(()))
                        && final(self).games@ == old(self).games@.remove(i),
                    Err(e) => Game::cancel_outcome(
                        old(self).games@[i],
                        old(self).games@[i],
                        requester_id,
                        Err(e),
                    ) && final(self).games@ == old(self).games@,
                },
    {
        let i = match self.find(key) {
            Some(i) => i,
            None => {
                return Err(GameError::GameNotFound);
            },
        };
        let ghost before = self.games@;
        proof {
            assert forall|j: int| holds_key(before, key, j) implies j == i by {
                lemma_key_unique(before, key, i as int, j);
            }
        }
        match self.games[i].cancel(requester_id) {
            Ok(()) => {
                proof {
                    assert(unready_are_players(before[i as int]));
                    assert(self.games@[i as int].unready() == before[i as int].unready());
                    assert(self.games@[i as int].players == before[i as int].players);
                    assert(unready_are_players(self.games@[i as int]));
                    lemma_update_keeps_wf(before, i as int, self.games@[i as int]);
                    assert(self.games@ =~= before.update(i as int, self.games@[i as int]));
                    lemma_remove_keeps_wf(self.games@, i as int);
                    assert(self.games@.remove(i as int) =~= before.remove(i as int));
                }
                Ok(self.games.remove(i))
            },
            Err(e) => {
                assert(self.games@ =~= before);
                Err(e)
            },
        }
    }

    /// Force-cancels the game with `key`, started or not, and takes it out
    /// of the table.
    pub fn force_cancel_game(&mut self, key: GameKey, requester_id: u64) -> (r: Result<
        Game,
        GameError,
    >)
        requires
            old(self).wf(),
        ensures
            final(self).wf(),
            !has_game(old(self).games@, key) ==> r == Err::<Game, GameError>(GameError::GameNotFound)
                && final(self).games@ == old(self).games@,
            forall|i: int|
                #![trigger holds_key(old(self).games@, key, i)]
                holds_key(old(self).games@, key, i) ==> match r {
                    Ok(g) => Game::force_cancel_outcome(old(self).games@[i], g, requester_id, Ok(()))
                        && final(self).games@ == old(self).games@.remove(i),
                    Err(e) => Game::force_cancel_outcome(
                        old(self).games@[i],
                        old(self).games@[i],
                        requester_id,
                        Err(e),
                    ) && final(self).games@ == old(self).games@,
                },
    {
        let i = match self.find(key) {
            Some(i) => i,
            None => {
                return Err(GameError::GameNotFound);
            },
        };
        let ghost before = self.games@;
        proof {
            assert forall|j: int| holds_key(before, key, j) implies j == i by {
                lemma_key_unique(before, key, i as int, j);
            }
        }
        match self.games[i].force_cancel(requester_id) {
            Ok(()) => {
                proof {
                    assert(unready_are_players(before[i as int]));
                    assert(self.games@[i as int].unready() == before[i as int].unready());
                    assert(self.games@[i as int].players == before[i as int].players);
                    assert(unready_are_players(self.games@[i as int]));
                    lemma_update_keeps_wf(before, i as int, self.games@[i as int]);
                    assert(self.games@ =~= before.update(i as int, self.games@[i as int]));
                    lemma_remove_keeps_wf(self.games@, i as int);
                    assert(self.games@.remove(i as int) =~= before.remove(i as int));
                }
                Ok(self.games.remove(i))
            },
            Err(e) => {
                assert(self.games@ =~= before);
                Err(e)
            },
        }
    }

    /// Checks made before the start DMs go out: only the host starts a lobby
    /// of at least two players, and every player must have passed the DM
    /// check; otherwise the reply names who has not.
    pub fn start_precheck(&self, key: GameKey, requester_id: u64) -> (r: Result<
        Option<String>,
        GameError,
    >)
        requires
            self.wf(),
        ensures
            !has_game(self.games@, key) ==> r == Err::<Option<String>, GameError>(
                GameError::GameNotFound,
            ),
            forall|i: int|
                #![trigger holds_key(self.games@, key, i)]
                holds_key(self.games@, key, i) ==> {
                    let g = self.games@[i];
                    if requester_id != g.host_id {
                        r == Err::<Option<String>, GameError>(GameError::NotHost)
                    } else if g.players@.len() < 2 {
                        r == Err::<Option<String>, GameError>(GameError::NotEnoughPlayers)
                    } else if g.phase != GamePhase::Lobby {
                        r == Err::<Option<String>, GameError>(GameError::AlreadyStarted)
                    } else if unready_list(g).len() > 0 {
                        r matches Ok(Some(m)) && m@ == cannot_start_text(unready_list(g))
                    } else {
                        r == Ok::<Option<String>, GameError>(None)
                    }
                },
    {
        let i = match self.find(key) {
            Some(i) => i,
            None => {
                return Err(GameError::GameNotFound);
            },
        };
        proof {
            assert forall|j: int| holds_key(self.games@, key, j) implies j == i by {
                lemma_key_unique(self.games@, key, i as int, j);
            }
        }
        let game = &self.games[i];
        if requester_id != game.host_id {
            return Err(GameError::NotHost);
        }
        if game.players.len() < 2 {
            return Err(GameError::NotEnoughPlayers);
        }
        if game.phase != GamePhase::Lobby {
            return Err(GameError::AlreadyStarted);
        }
        let unready = game.unready_players();
        if unready.len() > 0 {
            let mut m = String::new();
            push_str(
                &mut m,
                "Cannot start yet. I could not DM these players before. They need to enable DMs from this server and run `/grate grateic ready`: ",
            );
            let list = mention_list(unready.as_slice());
            push_str(&mut m, list.as_str());
            return Ok(Some(m));
        }
        Ok(None)
    }

    /// Starts the game with `key` in a freshly shuffled player order.
    pub fn start_game(&mut self, key: GameKey, requester_id: u64) -> (r: Result<StartRound, GameError>)
        requires
            old(self).wf(),
        ensures
            final(self).wf(),
            !has_game(old(self).games@, key) ==> r == Err::<StartRound, GameError>(
                GameError::GameNotFound,
            ) && final(self).games@ == old(self).games@,
            forall|i: int|
                #![trigger holds_key(old(self).games@, key, i)]
                holds_key(old(self).games@, key, i) ==> {
                    &&& final(self).games@ == old(self).games@.update(i, final(self).games@[i])
                    &&& exists|order: Seq<u64>|
                        order.to_multiset() == old(self).games@[i].players@.to_multiset()
                            && Game::start_outcome(
                            old(self).games@[i],
                            final(self).games@[i],
                            requester_id,
                            order,
                            r,
                        )
                },
    {
        let i = match self.find(key) {
            Some(i) => i,
            None => {
                return Err(GameError::GameNotFound);
            },
        };
        let ghost before = self.games@;
        let res = self.games[i].start(requester_id);
        proof {
            assert forall|j: int| holds_key(before, key, j) implies j == i by {
                lemma_key_unique(before, key, i as int, j);
            }
            let order = choose|order: Seq<u64>|
                order.to_multiset() == before[i as int].players@.to_multiset() && Game::start_outcome(
                    before[i as int],
                    self.games@[i as int],
                    requester_id,
                    order,
                    res,
                );
            lemma_start_keeps_players(
                before[i as int],
                self.games@[i as int],
                requester_id,
                order,
                res,
            );
            assert(unready_are_players(before[i as int]));
            lemma_update_keeps_wf(before, i as int, self.games@[i as int]);
            assert(self.games@ =~= before.update(i as int, self.games@[i as int]));
        }
        res
    }

    /// A start DM to `player_id` failed: the game goes back to the lobby and
    /// the player must pass the DM check again.
    pub fn mark_failed_start(&mut self, key: GameKey, player_id: u64)
        requires
            old(self).wf(),
            forall|i: int|
                holds_key(old(self).games@, key, i) ==> old(self).games@[i].players@.contains(
                    player_id,
                ),
        ensures
            final(self).wf(),
            !has_game(old(self).games@, key) ==> final(self).games@ == old(self).games@,
            forall|i: int|
                #![trigger holds_key(old(self).games@, key, i)]
                holds_key(old(self).games@, key, i) ==> {
                    &&& final(self).games@ == old(self).games@.update(i, final(self).games@[i])
                    &&& Game::reset_outcome(old(self).games@[i], final(self).games@[i], player_id)
                },
    {
        let i = match self.find(key) {
            Some(i) => i,
            None => {
                return ;
            },
        };
        let ghost before = self.games@;
        self.games[i].reset_to_lobby_after_failed_start(player_id);
        proof {
            assert forall|j: int| holds_key(before, key, j) implies j == i by {
                lemma_key_unique(before, key, i as int, j);
            }
            assert(unready_are_players(before[i as int]));
            assert(unready_are_players(self.games@[i as int]));
            lemma_update_keeps_wf(before, i as int, self.games@[i as int]);
            assert(self.games@ =~= before.update(i as int, self.games@[i as int]));
        }
    }

    /// Remembers the lobby message of the game with `key`.
    pub fn set_lobby_message_id(&mut self, key: GameKey, message_id: u64) -> (r: Result<
        (),
        GameError,
    >)
        requires
            old(self).wf(),
        ensures
            final(self).wf(),
            !has_game(old(self).games@, key) ==> r == Err::<(), GameError>(GameError::GameNotFound)
                && final(self).games@ == old(self).games@,
            forall|i: int|
                #![trigger holds_key(old(self).games@, key, i)]
                holds_key(old(self).games@, key, i) ==> r is Ok && final(self).games@ == old(self).games@.update(i, Game { lobby_message_id: Some(message_id), ..old(self).games@[i] }),
    {
        let i = match self.find(key) {
            Some(i) => i,
            None => {
                return Err(GameError::GameNotFound);
            },
        };
        let ghost before = self.games@;
        self.games[i].set_lobby_message_id(message_id);
        proof {
            assert forall|j: int| holds_key(before, key, j) implies j == i by {
                lemma_key_unique(before, key, i as int, j);
            }
            assert(unready_are_players(before[i as int]));
            assert(self.games@[i as int].unready() == before[i as int].unready());
            assert(self.games@[i as int].players == before[i as int].players);
            assert(unready_are_players(self.games@[i as int]));
            lemma_update_keeps_wf(before, i as int, self.games@[i as int]);
            assert(self.games@ =~= before.update(i as int, self.games@[i as int]));
        }
        Ok(())
    }

    /// Checks made before the ready DM: the lobby exists and has not started,
    /// and `player_id` plays in it.
    pub fn ready_precheck(&self, key: GameKey, player_id: u64) -> (r: Result<(), GameError>)
        requires
            self.wf(),
        ensures
            !has_game(self.games@, key) ==> r == Err::<(), GameError>(GameError::GameNotFound),
            forall|i: int|
                #![trigger holds_key(self.games@, key, i)]
                holds_key(self.games@, key, i) ==> r == if self.games@[i].phase != GamePhase::Lobby {
                    Err::<(), GameError>(GameError::NotInLobby)
                } else if !self.games@[i].players@.contains(player_id) {
                    Err::<(), GameError>(GameError::NotAPlayer)
                } else {
                    Ok::<(), GameError>(())
                },
    {
        let i = match self.find(key) {
            Some(i) => i,
            None => {
                return Err(GameError::GameNotFound);
            },
        };
        proof {
            assert forall|j: int| holds_key(self.games@, key, j) implies j == i by {
                lemma_key_unique(self.games@, key, i as int, j);
            }
        }
        if self.games[i].phase != GamePhase::Lobby {
            return Err(GameError::NotInLobby);
        }
        if !self.games[i].has_player(player_id) {
            return Err(GameError::NotAPlayer);
        }
        Ok(())
    }

    /// `player_id` passed the DM check; the reply counts the ready players.
    pub fn mark_ready(&mut self, key: GameKey, player_id: u64) -> (r: Result<String, GameError>)
        requires
            old(self).wf(),
        ensures
            final(self).wf(),
            !has_game(old(self).games@, key) ==> r == Err::<String, GameError>(
                GameError::GameNotFound,
            ) && final(self).games@ == old(self).games@,
            forall|i: int|
                #![trigger holds_key(old(self).games@, key, i)]
                holds_key(old(self).games@, key, i) ==> {
                    let g = final(self).games@[i];
                    &&& final(self).games@ == old(self).games@.update(i, g)
                    &&& Game::mark_ready_outcome(old(self).games@[i], g, player_id, outcome_of(r))
                    &&& r matches Ok(m) ==> m@ == ready_text(
                        player_id,
                        (g.players@.len() - g.unready().len()) as nat,
                        g.players@.len(),
                    )
                },
    {
        let i = match self.find(key) {
            Some(i) => i,
            None => {
                return Err(GameError::GameNotFound);
            },
        };
        let ghost before = self.games@;
        let res = self.games[i].mark_ready(player_id);
        proof {
            assert forall|j: int| holds_key(before, key, j) implies j == i by {
                lemma_key_unique(before, key, i as int, j);
            }
            assert(unready_are_players(before[i as int]));
            assert(unready_are_players(self.games@[i as int]));
            lemma_update_keeps_wf(before, i as int, self.games@[i as int]);
            assert(self.games@ =~= before.update(i as int, self.games@[i as int]));
            lemma_unready_count(self.games@[i as int]);
        }
        match res {
            Ok(()) => {
                let ready = self.games[i].ready_count();
                let count = self.games[i].players.len();
                let mut m = String::new();
                push_mention(&mut m, player_id);
                push_str(&mut m, " is ready. Ready players: ");
                push_decimal(&mut m, ready as u64);
                push_str(&mut m, "/");
                push_decimal(&mut m, count as u64);
                push_str(&mut m, ".");
                Ok(m)
            },
            Err(e) => Err(e),
        }
    }

    /// Hands a direct message of `player_id` to the game with `key`.
    pub fn submit_message(&mut self, key: GameKey, message: &SubmittedMessage, player_id: u64) -> (r:
        Result<(Advance, Option<String>), SubmitError>)
        requires
            old(self).wf(),
        ensures
            final(self).wf(),
            !has_game(old(self).games@, key) ==> r == Err::<(Advance, Option<String>), SubmitError>(
                SubmitError::Game(GameError::GameNotFound),
            ) && final(self).games@ == old(self).games@,
            forall|i: int|
                #![trigger holds_key(old(self).games@, key, i)]
                holds_key(old(self).games@, key, i) ==> {
                    &&& final(self).games@ == old(self).games@.update(i, final(self).games@[i])
                    &&& message_outcome(
                        old(self).games@[i],
                        final(self).games@[i],
                        *message,
                        player_id,
                        r,
                    )
                },
    {
        let i = match self.find(key) {
            Some(i) => i,
            None => {
                return Err(SubmitError::Game(GameError::GameNotFound));
            },
        };
        let ghost before = self.games@;
        let res = submit_message_to_game(&mut self.games[i], message, player_id);
        proof {
            assert forall|j: int| holds_key(before, key, j) implies j == i by {
                lemma_key_unique(before, key, i as int, j);
            }
            lemma_message_keeps_players(
                before[i as int],
                self.games@[i as int],
                *message,
                player_id,
                res,
            );
            assert(unready_are_players(before[i as int]));
            assert(unready_are_players(self.games@[i as int]));
            lemma_update_keeps_wf(before, i as int, self.games@[i as int]);
            assert(self.games@ =~= before.update(i as int, self.games@[i as int]));
        }
        res
    }

    /// Moves the game with `key` to `next_round` once its DMs went out.
    pub fn commit_next_round(&mut self, key: GameKey, next_round: usize) -> (r: Result<
        (),
        GameError,
    >)
        requires
            old(self).wf(),
        ensures
            final(self).wf(),
            !has_game(old(self).games@, key) ==> r == Err::<(), GameError>(GameError::GameNotFound)
                && final(self).games@ == old(self).games@,
            forall|i: int|
                #![trigger holds_key(old(self).games@, key, i)]
                holds_key(old(self).games@, key, i) ==> {
                    &&& final(self).games@ == old(self).games@.update(i, final(self).games@[i])
                    &&& Game::commit_outcome(
                        old(self).games@[i],
                        final(self).games@[i],
                        next_round,
                        r,
                    )
                },
    {
        let i = match self.find(key) {
            Some(i) => i,
            None => {
                return Err(GameError::GameNotFound);
            },
        };
        let ghost before = self.games@;
        let res = self.games[i].commit_next_round(next_round);
        proof {
            assert forall|j: int| holds_key(before, key, j) implies j == i by {
                lemma_key_unique(before, key, i as int, j);
            }
            assert(unready_are_players(before[i as int]));
            assert(self.games@[i as int].unready() == before[i as int].unready());
            assert(self.games@[i as int].players == before[i as int].players);
            assert(unready_are_players(self.games@[i as int]));
            lemma_update_keeps_wf(before, i as int, self.games@[i as int]);
            assert(self.games@ =~= before.update(i as int, self.games@[i as int]));
        }
        res
    }

    /// Takes the game with `key` out of the table.
    pub fn remove_game(&mut self, key: GameKey) -> (r: Option<Game>)
        requires
            old(self).wf(),
        ensures
            final(self).wf(),
            !has_game(old(self).games@, key) ==> r is None && final(self).games@ == old(self).games@,
            forall|i: int|
                #![trigger holds_key(old(self).games@, key, i)]
                holds_key(old(self).games@, key, i) ==> r == Some(old(self).games@[i]) && final(self).games@ == old(self).games@.remove(i),
    {
        let i = match self.find(key) {
            Some(i) => i,
            None => {
                return None;
            },
        };
        proof {
            assert forall|j: int| holds_key(self.games@, key, j) implies j == i by {
                lemma_key_unique(self.games@, key, i as int, j);
            }
            lemma_remove_keeps_wf(self.games@, i as int);
        }
        Some(self.games.remove(i))
    }

    /// The lobby message of the game with `key`.
    pub fn lobby_status(&self, key: GameKey) -> (r: Option<String>)
        requires
            self.wf(),
        ensures
            !has_game(self.games@, key) ==> r is None,
            forall|i: int|
                #![trigger holds_key(self.games@, key, i)]
                holds_key(self.games@, key, i) ==> (r matches Some(m) && m@ == game_status_text(
                    self.games@[i],
                )),
    {
        let i = match self.find(key) {
            Some(i) => i,
            None => {
                return None;
            },
        };
        proof {
            assert forall|j: int| holds_key(self.games@, key, j) implies j == i by {
                lemma_key_unique(self.games@, key, i as int, j);
            }
            lemma_unready_count(self.games@[i as int]);
        }
        Some(format_game_status(&self.games[i]))
    }

    /// The reply to `/grate grateic status`: in the lobby the lobby message
    /// is refreshed; later, players get their round status.
    pub fn status_command_reply(&self, key: GameKey, user_id: u64) -> (r: Result<String, GameError>)
        requires
            self.wf(),
        ensures
            !has_game(self.games@, key) ==> r == Err::<String, GameError>(GameError::GameNotFound),
            forall|i: int|
                #![trigger holds_key(self.games@, key, i)]
                holds_key(self.games@, key, i) ==> {
                    let g = self.games@[i];
                    if g.phase == GamePhase::Lobby {
                        r matches Ok(m) && m@ == lobby_refreshed_text()
                    } else if g.players@.contains(user_id) {
                        r matches Ok(m) && m@ == dm_status_text(g, user_id)
                    } else {
                        r == Err::<String, GameError>(GameError::NotAPlayer)
                    }
                },
    {
        let i = match self.find(key) {
            Some(i) => i,
            None => {
                return Err(GameError::GameNotFound);
            },
        };
        proof {
            assert forall|j: int| holds_key(self.games@, key, j) implies j == i by {
                lemma_key_unique(self.games@, key, i as int, j);
            }
        }
        let game = &self.games[i];
        if game.phase == GamePhase::Lobby {
            Ok(text_owned_lobby_refreshed())
        } else if game.has_player(user_id) {
            Ok(format_dm_status(game, user_id))
        } else {
            Err(GameError::NotAPlayer)
        }
    }

    /// The reply to a Status button, and whether the lobby message should be
    /// refreshed.
    pub fn status_button_reply(&self, key: GameKey, user_id: u64) -> (r: (String, bool))
        requires
            self.wf(),
        ensures
            !has_game(self.games@, key) ==> r.0@ == "That Grateic Phone game is no longer active."@
                && !r.1,
            forall|i: int|
                #![trigger holds_key(self.games@, key, i)]
                holds_key(self.games@, key, i) ==> {
                    let g = self.games@[i];
                    if !g.players@.contains(user_id) {
                        r.0@ == "This status button belongs to a Grateic Phone game you are not in."@
                            && !r.1
                    } else if g.phase == GamePhase::Lobby {
                        r.0@ == lobby_refreshed_text() && r.1
                    } else {
                        r.0@ == dm_status_text(g, user_id) && !r.1
                    }
                },
    {
        let i = match self.find(key) {
            Some(i) => i,
            None => {
                return (crate::text::owned("That Grateic Phone game is no longer active."), false);
            },
        };
        proof {
            assert forall|j: int| holds_key(self.games@, key, j) implies j == i by {
                lemma_key_unique(self.games@, key, i as int, j);
            }
        }
        let game = &self.games[i];
        if !game.has_player(user_id) {
            (
                crate::text::owned(
                    "This status button belongs to a Grateic Phone game you are not in.",
                ),
                false,
            )
        } else if game.phase == GamePhase::Lobby {
            (text_owned_lobby_refreshed(), true)
        } else {
            (format_dm_status(game, user_id), false)
        }
    }

    /// The keys of the running games that `player_id` plays in, in table
    /// order: where a direct message of theirs can go.
    pub fn games_accepting_submissions(&self, player_id: u64) -> (v: Vec<GameKey>)
        ensures
            v@ == accepting_keys(self.games@, player_id),
    {
        let mut v: Vec<GameKey> = Vec::new();
        let mut i: usize = 0;
        while i < self.games.len()
            invariant
                i <= self.games@.len(),
                v@ == accepting_keys(self.games@.take(i as int), player_id),
            decreases self.games@.len() - i,
        {
            assert(self.games@.take(i + 1).drop_last() == self.games@.take(i as int));
            let game = &self.games[i];
            if game.phase == GamePhase::InProgress && game.has_player(player_id) {
                v.push(game.key);
            }
            i += 1;
        }
        assert(self.games@.take(self.games@.len() as int) == self.games@);
        v
    }
}

proof fn lemma_accepting_witness(games: Seq<Game>, player: u64)
    ensures
        accepting_keys(games, player).len() > 0 ==> exists|j: int|
            0 <= j < games.len() && #[trigger] games[j].players@.contains(player),
    decreases games.len(),
{
    if games.len() > 0 {
        let rest = games.drop_last();
        lemma_accepting_witness(rest, player);
        if accepting_keys(rest, player).len() > 0 {
            let j = choose|j: int| 0 <= j < rest.len() && #[trigger] rest[j].players@.contains(player);
            assert(games[j] == rest[j]);
        } else {
            assert(games[games.len() - 1].players@.contains(player) || accepting_keys(
                games,
                player,
            ).len() == 0);
        }
    }
}

/// A player's direct message can go to one running game at most, since no
/// player is in two games.
pub proof fn law_message_reaches_at_most_one_game(table: GameTable, player: u64)
    requires
        table.wf(),
    ensures
        accepting_keys(table.games@, player).len() <= 1,
{
    lemma_accepting_at_most_one(table.games@, player);
}

proof fn lemma_accepting_at_most_one(games: Seq<Game>, player: u64)
    requires
        table_wf(games),
    ensures
        accepting_keys(games, player).len() <= 1,
    decreases games.len(),
{
    if games.len() > 0 {
        let n = games.len() - 1;
        let rest = games.drop_last();
        assert(rest =~= games.remove(n));
        lemma_remove_keeps_wf(games, n);
        lemma_accepting_at_most_one(rest, player);
        lemma_accepting_witness(rest, player);
        if accepting_keys(rest, player).len() > 0 && games[n].players@.contains(player) {
            let j = choose|j: int| 0 <= j < rest.len() && #[trigger] rest[j].players@.contains(player);
            assert(games[j] == rest[j]);
            assert(games[j].players@.contains(player));
            assert(!games[n].players@.contains(player));
        }
    }
}

/// Some running game with `key` has `player` among its players.
pub open spec fn running_with(games: Seq<Game>, key: GameKey, player: u64) -> bool {
    exists|i: int|
        0 <= i < games.len() && #[trigger] games[i].key == key && games[i].phase
            == GamePhase::InProgress && games[i].players@.contains(player)
}

/// Every key a direct message can go to belongs to a running game that the
/// player is in.
pub proof fn law_accepting_keys_are_running_games(table: GameTable, player: u64)
    ensures
        forall|k: int|
            0 <= k < accepting_keys(table.games@, player).len() ==> running_with(
                table.games@,
                #[trigger] accepting_keys(table.games@, player)[k],
                player,
            ),
{
    lemma_accepting_from(table.games@, player);
}

proof fn lemma_accepting_from(games: Seq<Game>, player: u64)
    ensures
        forall|k: int|
            0 <= k < accepting_keys(games, player).len() ==> running_with(
                games,
                #[trigger] accepting_keys(games, player)[k],
                player,
            ),
    decreases games.len(),
{
    if games.len() > 0 {
        let rest = games.drop_last();
        lemma_accepting_from(rest, player);
        let acc = accepting_keys(games, player);
        let racc = accepting_keys(rest, player);
        assert forall|k: int| 0 <= k < acc.len() implies running_with(games, #[trigger] acc[k], player) by {
            if k < racc.len() {
                assert(acc[k] == racc[k]);
                assert(running_with(rest, racc[k], player));
                let i = choose|i: int|
                    0 <= i < rest.len() && #[trigger] rest[i].key == racc[k] && rest[i].phase
                        == GamePhase::InProgress && rest[i].players@.contains(player);
                assert(games[i] == rest[i]);
                assert(games[i].key == acc[k]);
            } else {
                let last = games.len() - 1;
                assert(games[last] == games.last());
                assert(games[last].key == acc[k]);
            }
        }
    }
}

} // verus!
