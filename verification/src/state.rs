//! The Grateic Phone game: lobby, rounds, chains and the short variant.

use crate::canvas::CanvasPreset;
use rand::seq::SliceRandom;
use crate::text;
use std::collections::HashSet;
use vstd::prelude::*;

verus! {

broadcast use vstd::std_specs::hash::group_hash_axioms;

/// Identifies a game: the server and the channel it was created in.
#[derive(Debug, Clone, Copy, PartialEq, Eq, Hash, Structural)]
pub struct GameKey {
    pub guild_id: u64,
    pub channel_id: u64,
}

/// Canvas settings chosen when the lobby was created.
#[derive(Debug, Clone, PartialEq, Eq)]
pub struct CanvasConfig {
    pub preset: CanvasPreset,
    pub background_hex: String,
    pub require_canvas_size: bool,
}

impl CanvasConfig {
    pub fn duplicate(&self) -> (c: CanvasConfig)
        ensures
            c == *self,
    {
        CanvasConfig {
            preset: self.preset,
            background_hex: self.background_hex.clone(),
            require_canvas_size: self.require_canvas_size,
        }
    }
}

#[derive(Debug, Clone, Copy, PartialEq, Eq, Structural)]
pub enum GamePhase {
    Lobby,
    InProgress,
    Finished,
    Cancelled,
}

/// One submission in a chain.
#[derive(Debug, Clone, PartialEq, Eq)]
pub enum SubmissionKind {
    Prompt(String),
    Name(String),
    Drawing { attachment_url: String, filename: String },
}

impl SubmissionKind {
    pub fn duplicate(&self) -> (k: SubmissionKind)
        ensures
            k == *self,
    {
        match self {
            SubmissionKind::Prompt(t) => SubmissionKind::Prompt(t.clone()),
            SubmissionKind::Name(t) => SubmissionKind::Name(t.clone()),
            SubmissionKind::Drawing { attachment_url, filename } => SubmissionKind::Drawing {
                attachment_url: attachment_url.clone(),
                filename: filename.clone(),
            },
        }
    }
}

/// `Classic` is the full telephone game; `Short` is one prompt and one drawing.
#[derive(Debug, Clone, PartialEq, Eq)]
pub enum GameMode {
    Classic,
    Short { prompts: Vec<ShortPrompt>, drawings: Vec<ShortDrawing> },
}

#[derive(Debug, Clone, PartialEq, Eq)]
pub struct ShortPrompt {
    pub author_id: u64,
    pub text: String,
}

#[derive(Debug, Clone, PartialEq, Eq)]
pub struct ShortDrawing {
    pub author_id: u64,
    pub prompt_author_id: u64,
    pub prompt: String,
    pub attachment_url: String,
    pub filename: String,
}

#[derive(Debug, Clone, PartialEq, Eq)]
pub struct ShortDrawingAssignment {
    pub player_id: u64,
    pub prompt_author_id: u64,
    pub prompt: String,
}

#[derive(Debug, Clone, PartialEq, Eq)]
pub struct ShortShowcase {
    pub prompt_author_id: u64,
    pub prompt: String,
    pub drawing_author_id: u64,
    pub attachment_url: String,
    pub filename: String,
}

#[derive(Debug, Clone, PartialEq, Eq)]
pub struct ChainEntry {
    pub author_id: u64,
    pub kind: SubmissionKind,
}

impl ChainEntry {
    pub fn duplicate(&self) -> (e: ChainEntry)
        ensures
            e == *self,
    {
        ChainEntry { author_id: self.author_id, kind: self.kind.duplicate() }
    }
}

#[derive(Debug, Clone, PartialEq, Eq)]
pub struct Chain {
    pub original_player_id: u64,
    pub entries: Vec<ChainEntry>,
}

impl Chain {
    pub fn duplicate(&self) -> (c: Chain)
        ensures
            c.original_player_id == self.original_player_id,
            c.entries@ == self.entries@,
    {
        let mut entries: Vec<ChainEntry> = Vec::new();
        let mut i: usize = 0;
        while i < self.entries.len()
            invariant
                i <= self.entries@.len(),
                entries@ == self.entries@.take(i as int),
            decreases self.entries@.len() - i,
        {
            entries.push(self.entries[i].duplicate());
            assert(self.entries@.take(i + 1) == self.entries@.take(i as int).push(self.entries@[i as int]));
            i += 1;
        }
        assert(self.entries@.take(self.entries@.len() as int) == self.entries@);
        Chain { original_player_id: self.original_player_id, entries }
    }
}

/// A copy of a list of chains, chain by chain.
pub fn duplicate_chains(chains: &Vec<Chain>) -> (r: Vec<Chain>)
    ensures
        r@.len() == chains@.len(),
        forall|c: int| 0 <= c < chains@.len() ==> #[trigger] r@[c].original_player_id
            == chains@[c].original_player_id && r@[c].entries@ == chains@[c].entries@,
{
    let mut r: Vec<Chain> = Vec::new();
    let mut i: usize = 0;
    while i < chains.len()
        invariant
            i <= chains@.len(),
            r@.len() == i,
            forall|c: int| 0 <= c < i ==> #[trigger] r@[c].original_player_id
                == chains@[c].original_player_id && r@[c].entries@ == chains@[c].entries@,
        decreases chains@.len() - i,
    {
        r.push(chains[i].duplicate());
        i += 1;
    }
    r
}

#[derive(Debug, Clone, Copy, PartialEq, Eq, Structural)]
pub enum RoundKind {
    Prompt,
    Drawing,
    Naming,
}

#[derive(Debug, Clone, PartialEq, Eq)]
pub struct RoundAssignment {
    pub player_id: u64,
    pub chain_index: usize,
    pub previous_entry: Option<ChainEntry>,
    pub round_kind: RoundKind,
}

/// Everything a game operation can refuse with.
#[derive(Debug, Clone, Copy, PartialEq, Eq, Structural)]
pub enum GameError {
    GameAlreadyExists,
    MissingGuild,
    GameNotFound,
    NotHost,
    HostCannotLeave,
    AlreadyStarted,
    NotInProgress,
    AlreadyJoined,
    AlreadyInAnotherGame,
    NotAPlayer,
    NotInLobby,
    NotEnoughPlayers,
    PlayersNotReady,
    AlreadySubmitted,
    ExpectedText,
    ExpectedDrawing,
    RoundNotComplete,
    StaleRoundTransition,
    TextTooLong,
}

pub open spec fn game_error_text(e: GameError) -> Seq<char> {
    match e {
        GameError::GameAlreadyExists => "a game already exists in this server"@,
        GameError::MissingGuild => "this command must be used in a server channel"@,
        GameError::GameNotFound => "there is no game in this server"@,
        GameError::NotHost => "only the host can do that"@,
        GameError::HostCannotLeave => "the host cannot leave the lobby; cancel the game instead"@,
        GameError::AlreadyStarted => "the game has already started"@,
        GameError::NotInProgress => "the game is not accepting submissions"@,
        GameError::AlreadyJoined => "you are already in this game"@,
        GameError::AlreadyInAnotherGame => "you are already in another active Grateic Phone game"@,
        GameError::NotAPlayer => "you are not in this game"@,
        GameError::NotInLobby => "the game is not in the lobby"@,
        GameError::NotEnoughPlayers => "at least two players are required"@,
        GameError::PlayersNotReady => "not every player is ready"@,
        GameError::AlreadySubmitted => "you already submitted for this round"@,
        GameError::ExpectedText => "this round expects text"@,
        GameError::ExpectedDrawing => "this round expects an image attachment"@,
        GameError::RoundNotComplete => "the round is not ready to advance"@,
        GameError::StaleRoundTransition => "the requested round transition is stale"@,
        GameError::TextTooLong => "text submissions must be 140 characters or fewer"@,
    }
}

impl GameError {
    /// The user-facing text of the error.
    pub fn message(&self) -> (m: &'static str)
        ensures
            m@ == game_error_text(*self),
    {
        match self {
            GameError::GameAlreadyExists => "a game already exists in this server",
            GameError::MissingGuild => "this command must be used in a server channel",
            GameError::GameNotFound => "there is no game in this server",
            GameError::NotHost => "only the host can do that",
            GameError::HostCannotLeave => "the host cannot leave the lobby; cancel the game instead",
            GameError::AlreadyStarted => "the game has already started",
            GameError::NotInProgress => "the game is not accepting submissions",
            GameError::AlreadyJoined => "you are already in this game",
            GameError::AlreadyInAnotherGame => "you are already in another active Grateic Phone game",
            GameError::NotAPlayer => "you are not in this game",
            GameError::NotInLobby => "the game is not in the lobby",
            GameError::NotEnoughPlayers => "at least two players are required",
            GameError::PlayersNotReady => "not every player is ready",
            GameError::AlreadySubmitted => "you already submitted for this round",
            GameError::ExpectedText => "this round expects text",
            GameError::ExpectedDrawing => "this round expects an image attachment",
            GameError::RoundNotComplete => "the round is not ready to advance",
            GameError::StaleRoundTransition => "the requested round transition is stale",
            GameError::TextTooLong => "text submissions must be 140 characters or fewer",
        }
    }
}

/// What a submission led to.
#[derive(Debug, Clone, PartialEq, Eq)]
#[allow(inconsistent_fields)]
pub enum Advance {
    Waiting,
    NextRound { next_round: usize, assignments: Vec<RoundAssignment> },
    Finished { chains: Vec<Chain> },
    ShortDrawingRound { assignments: Vec<ShortDrawingAssignment> },
    ShortFinished { showcases: Vec<ShortShowcase> },
}

/// What starting a game hands out first.
#[derive(Debug, Clone, PartialEq, Eq)]
pub enum StartRound {
    Classic(Vec<RoundAssignment>),
    ShortPrompt,
}

// ------------------------------------------------------------ round arithmetic

/// Number of rounds of the full game for `n` players.
pub open spec fn classic_total(n: int) -> int {
    2 * n + 1
}

/// Kind of `round` in a game of `total` rounds.
pub open spec fn round_kind_at(total: int, round: int) -> RoundKind {
    if round == 0 {
        RoundKind::Prompt
    } else if round + 1 == total {
        RoundKind::Naming
    } else if round % 2 == 1 {
        RoundKind::Drawing
    } else {
        RoundKind::Prompt
    }
}

/// How far chains have rotated away from their authors in `round`.
pub open spec fn author_offset(n: int, round: int) -> int {
    if round + 1 == classic_total(n) {
        0
    } else if round % 2 == 0 {
        round / 2
    } else {
        ((round - 1) / 2 + (if n == 2 { 1int } else { 2int })) % n
    }
}

/// The chain that the player at `player_index` works on in `round`.
pub open spec fn chain_for(n: int, player_index: int, round: int) -> int {
    (player_index + n - author_offset(n, round)) % n
}

/// The index of the player who works on chain `chain` in `round`.
pub open spec fn author_for(n: int, chain: int, round: int) -> int {
    (chain + author_offset(n, round)) % n
}

pub proof fn lemma_offset_range(n: int, round: int)
    requires
        n >= 1,
        0 <= round < classic_total(n),
    ensures
        0 <= author_offset(n, round) < n,
{
}

proof fn lemma_mod_add_back(p: int, n: int, off: int)
    requires
        0 <= p < n,
        0 <= off < n,
    ensures
        ((p + n - off) % n + off) % n == p,
        0 <= (p + n - off) % n < n,
{
    if p >= off {
        assert((p + n - off) % n == p - off) by {
            vstd::arithmetic::div_mod::lemma_mod_add_multiples_vanish(p - off, n);
            vstd::arithmetic::div_mod::lemma_small_mod((p - off) as nat, n as nat);
        }
        vstd::arithmetic::div_mod::lemma_small_mod(p as nat, n as nat);
    } else {
        vstd::arithmetic::div_mod::lemma_small_mod((p + n - off) as nat, n as nat);
        vstd::arithmetic::div_mod::lemma_mod_add_multiples_vanish(p, n);
        vstd::arithmetic::div_mod::lemma_small_mod(p as nat, n as nat);
    }
}

proof fn lemma_mod_sub_back(c: int, n: int, off: int)
    requires
        0 <= c < n,
        0 <= off < n,
    ensures
        ((c + off) % n + n - off) % n == c,
        0 <= (c + off) % n < n,
{
    if c + off < n {
        vstd::arithmetic::div_mod::lemma_small_mod((c + off) as nat, n as nat);
        vstd::arithmetic::div_mod::lemma_mod_add_multiples_vanish(c, n);
        vstd::arithmetic::div_mod::lemma_small_mod(c as nat, n as nat);
    } else {
        vstd::arithmetic::div_mod::lemma_mod_add_multiples_vanish(c + off - n, n);
        vstd::arithmetic::div_mod::lemma_small_mod((c + off - n) as nat, n as nat);
        vstd::arithmetic::div_mod::lemma_small_mod(c as nat, n as nat);
    }
}

/// In every round the player who works on a chain and the chain a player
/// works on undo each other.
pub proof fn lemma_chain_author_inverse(n: int, round: int)
    requires
        n >= 1,
        0 <= round < classic_total(n),
    ensures
        forall|p: int| 0 <= p < n ==> 0 <= #[trigger] chain_for(n, p, round) < n
            && author_for(n, chain_for(n, p, round), round) == p,
        forall|c: int| 0 <= c < n ==> 0 <= #[trigger] author_for(n, c, round) < n
            && chain_for(n, author_for(n, c, round), round) == c,
{
    lemma_offset_range(n, round);
    let off = author_offset(n, round);
    assert forall|p: int| 0 <= p < n implies 0 <= #[trigger] chain_for(n, p, round) < n
        && author_for(n, chain_for(n, p, round), round) == p by {
        lemma_mod_add_back(p, n, off);
    }
    assert forall|c: int| 0 <= c < n implies 0 <= #[trigger] author_for(n, c, round) < n
        && chain_for(n, author_for(n, c, round), round) == c by {
        lemma_mod_sub_back(c, n, off);
    }
}


// ------------------------------------------------------------ the game

/// A machine limit on lobby size, far above anything Discord allows, that
/// keeps round arithmetic inside `usize`.
pub open spec fn max_players() -> int {
    0x1000_0000
}

/// Whether a submission has the shape that a round of kind `rk` asks for.
pub open spec fn kind_fits(kind: SubmissionKind, rk: RoundKind) -> bool {
    match rk {
        RoundKind::Prompt => kind is Prompt,
        RoundKind::Drawing => kind is Drawing,
        RoundKind::Naming => kind is Name,
    }
}

#[derive(Debug)]
pub struct Game {
    pub key: GameKey,
    pub host_id: u64,
    pub lobby_message_id: Option<u64>,
    pub canvas: CanvasConfig,
    pub phase: GamePhase,
    pub players: Vec<u64>,
    pub current_round: usize,
    pub chains: Vec<Chain>,
    pub mode: GameMode,
    pub unready_players: HashSet<u64>,
    pub submitted_this_round: HashSet<u64>,
}

/// Position of `x` in `v`, if it is there.
pub fn index_of(v: &Vec<u64>, x: u64) -> (r: Option<usize>)
    ensures
        match r {
            Some(i) => i < v@.len() && v@[i as int] == x && forall|j: int|
                0 <= j < i ==> v@[j] != x,
            None => !v@.contains(x),
        },
{
    let mut i: usize = 0;
    while i < v.len()
        invariant
            i <= v@.len(),
            forall|j: int| 0 <= j < i ==> v@[j] != x,
        decreases v@.len() - i,
    {
        if v[i] == x {
            return Some(i);
        }
        i += 1;
    }
    None
}


/// A set of players' ids that lies inside a duplicate-free player list has at
/// most as many members as the list, and has them all once it is as large.
pub proof fn lemma_subset_of_players(players: Seq<u64>, s: Set<u64>)
    requires
        players.no_duplicates(),
        s.finite(),
        forall|x: u64| #[trigger] s.contains(x) ==> players.contains(x),
    ensures
        s.len() <= players.len(),
        s.len() >= players.len() ==> forall|i: int|
            0 <= i < players.len() ==> s.contains(#[trigger] players[i]),
{
    players.unique_seq_to_set();
    let t = players.to_set();
    assert(s.subset_of(t));
    vstd::set_lib::lemma_len_subset(s, t);
    if s.len() >= players.len() {
        vstd::set_lib::lemma_subset_equality(s, t);
        assert forall|i: int| 0 <= i < players.len() implies s.contains(#[trigger] players[i]) by {
            assert(t.contains(players[i]));
        }
    }
}

/// Two orderings of the same players: same length, same members, and no
/// repeats in one when there are none in the other.
pub proof fn lemma_permutation(a: Seq<u64>, b: Seq<u64>)
    requires
        a.to_multiset() == b.to_multiset(),
        a.no_duplicates(),
    ensures
        b.no_duplicates(),
        b.len() == a.len(),
        forall|x: u64| b.contains(x) <==> a.contains(x),
{
    broadcast use vstd::seq_lib::group_to_multiset_ensures;
    broadcast use vstd::multiset::group_multiset_axioms;

    a.lemma_multiset_has_no_duplicates();
    b.lemma_multiset_has_no_duplicates_conv();
    vstd::seq_lib::to_multiset_len(a);
    vstd::seq_lib::to_multiset_len(b);
    assert forall|x: u64| b.contains(x) <==> a.contains(x) by {
        vstd::seq_lib::to_multiset_contains(a, x);
        vstd::seq_lib::to_multiset_contains(b, x);
    }
}

/// The newest entry of a chain, if any.
pub open spec fn last_entry(entries: Seq<ChainEntry>) -> Option<ChainEntry> {
    if entries.len() > 0 {
        Some(entries.last())
    } else {
        None
    }
}

/// Chains that hold the same starters and entries.
pub open spec fn chains_equal(a: Seq<Chain>, b: Seq<Chain>) -> bool {
    &&& a.len() == b.len()
    &&& forall|i: int|
        0 <= i < a.len() ==> #[trigger] a[i].original_player_id == b[i].original_player_id
            && a[i].entries@ == b[i].entries@
}

/// The short mode's prompt by `author`: the first one in submission order.
pub open spec fn find_prompt(prompts: Seq<ShortPrompt>, author: u64) -> Option<ShortPrompt>
    decreases prompts.len(),
{
    if prompts.len() == 0 {
        None
    } else if prompts[0].author_id == author {
        Some(prompts[0])
    } else {
        find_prompt(prompts.drop_first(), author)
    }
}

proof fn lemma_find_prompt(prompts: Seq<ShortPrompt>, author: u64, j: int)
    requires
        0 <= j <= prompts.len(),
        forall|k: int| 0 <= k < j ==> #[trigger] prompts[k].author_id != author,
    ensures
        j < prompts.len() && prompts[j].author_id == author ==> find_prompt(prompts, author)
            == Some(prompts[j]),
        j == prompts.len() ==> find_prompt(prompts, author) is None,
    decreases j,
{
    if j > 0 {
        assert forall|k: int| 0 <= k < j - 1 implies #[trigger] prompts.drop_first()[k].author_id
            != author by {
            assert(prompts.drop_first()[k] == prompts[k + 1]);
        }
        lemma_find_prompt(prompts.drop_first(), author, j - 1);
        assert(prompts[0].author_id != author);
    }
}

proof fn lemma_find_prompt_push(prompts: Seq<ShortPrompt>, p: ShortPrompt, author: u64)
    ensures
        find_prompt(prompts, author) is Some ==> find_prompt(prompts.push(p), author) == find_prompt(
            prompts,
            author,
        ),
        p.author_id == author ==> find_prompt(prompts.push(p), author) is Some,
    decreases prompts.len(),
{
    if prompts.len() > 0 {
        assert(prompts.push(p).drop_first() == prompts.drop_first().push(p));
        lemma_find_prompt_push(prompts.drop_first(), p, author);
    } else {
        assert(prompts.push(p)[0] == p);
    }
}

/// The drawing made for `prompt_author`'s prompt: the first one uploaded.
pub open spec fn find_drawing(drawings: Seq<ShortDrawing>, prompt_author: u64) -> Option<ShortDrawing>
    decreases drawings.len(),
{
    if drawings.len() == 0 {
        None
    } else if drawings[0].prompt_author_id == prompt_author {
        Some(drawings[0])
    } else {
        find_drawing(drawings.drop_first(), prompt_author)
    }
}

proof fn lemma_find_drawing(drawings: Seq<ShortDrawing>, prompt_author: u64, j: int)
    requires
        0 <= j <= drawings.len(),
        forall|k: int| 0 <= k < j ==> #[trigger] drawings[k].prompt_author_id != prompt_author,
    ensures
        j < drawings.len() && drawings[j].prompt_author_id == prompt_author ==> find_drawing(
            drawings,
            prompt_author,
        ) == Some(drawings[j]),
        j == drawings.len() ==> find_drawing(drawings, prompt_author) is None,
    decreases j,
{
    if j > 0 {
        assert forall|k: int| 0 <= k < j - 1 implies #[trigger] drawings.drop_first()[k].prompt_author_id
            != prompt_author by {
            assert(drawings.drop_first()[k] == drawings[k + 1]);
        }
        lemma_find_drawing(drawings.drop_first(), prompt_author, j - 1);
        assert(drawings[0].prompt_author_id != prompt_author);
    }
}

/// The assignment handed to `player`: the first one for that player.
pub open spec fn find_assignment(assignments: Seq<ShortDrawingAssignment>, player: u64) -> Option<
    ShortDrawingAssignment,
>
    decreases assignments.len(),
{
    if assignments.len() == 0 {
        None
    } else if assignments[0].player_id == player {
        Some(assignments[0])
    } else {
        find_assignment(assignments.drop_first(), player)
    }
}

proof fn lemma_find_assignment(assignments: Seq<ShortDrawingAssignment>, player: u64, j: int)
    requires
        0 <= j <= assignments.len(),
        forall|k: int| 0 <= k < j ==> #[trigger] assignments[k].player_id != player,
    ensures
        j < assignments.len() && assignments[j].player_id == player ==> find_assignment(
            assignments,
            player,
        ) == Some(assignments[j]),
        j == assignments.len() ==> find_assignment(assignments, player) is None,
    decreases j,
{
    if j > 0 {
        assert forall|k: int| 0 <= k < j - 1 implies #[trigger] assignments.drop_first()[k].player_id
            != player by {
            assert(assignments.drop_first()[k] == assignments[k + 1]);
        }
        lemma_find_assignment(assignments.drop_first(), player, j - 1);
        assert(assignments[0].player_id != player);
    }
}

/// In the short game the player at index `i` draws the prompt of the player
/// just before them in the (shuffled) player order.
pub open spec fn prompt_source(players: Seq<u64>, i: int) -> u64 {
    players[(i + players.len() - 1) % (players.len() as int)]
}

/// Short-game drawing assignments for the first `k` players, skipping a
/// player whose source has no prompt yet.
pub open spec fn short_assignments_upto(
    players: Seq<u64>,
    prompts: Seq<ShortPrompt>,
    k: int,
) -> Seq<ShortDrawingAssignment>
    decreases k,
{
    if k <= 0 {
        Seq::empty()
    } else {
        let prev = short_assignments_upto(players, prompts, k - 1);
        let author = prompt_source(players, k - 1);
        match find_prompt(prompts, author) {
            Some(p) => prev.push(
                ShortDrawingAssignment {
                    player_id: players[k - 1],
                    prompt_author_id: author,
                    prompt: p.text,
                },
            ),
            None => prev,
        }
    }
}

pub open spec fn short_assignments(players: Seq<u64>, prompts: Seq<ShortPrompt>) -> Seq<
    ShortDrawingAssignment,
> {
    short_assignments_upto(players, prompts, players.len() as int)
}

/// Short-game showcases for the first `k` prompt authors, skipping a prompt
/// with no drawing.
pub open spec fn short_showcases_upto(players: Seq<u64>, drawings: Seq<ShortDrawing>, k: int) -> Seq<
    ShortShowcase,
>
    decreases k,
{
    if k <= 0 {
        Seq::empty()
    } else {
        let prev = short_showcases_upto(players, drawings, k - 1);
        match find_drawing(drawings, players[k - 1]) {
            Some(d) => prev.push(
                ShortShowcase {
                    prompt_author_id: players[k - 1],
                    prompt: d.prompt,
                    drawing_author_id: d.author_id,
                    attachment_url: d.attachment_url,
                    filename: d.filename,
                },
            ),
            None => prev,
        }
    }
}

pub open spec fn short_showcases(players: Seq<u64>, drawings: Seq<ShortDrawing>) -> Seq<ShortShowcase> {
    short_showcases_upto(players, drawings, players.len() as int)
}

pub open spec fn mode_prompts(mode: GameMode) -> Seq<ShortPrompt> {
    match mode {
        GameMode::Short { prompts, .. } => prompts@,
        GameMode::Classic => Seq::empty(),
    }
}

pub open spec fn mode_drawings(mode: GameMode) -> Seq<ShortDrawing> {
    match mode {
        GameMode::Short { drawings, .. } => drawings@,
        GameMode::Classic => Seq::empty(),
    }
}

/// The text limit for prompts and names, counted in characters.
pub open spec fn text_limit() -> int {
    140
}

/// `Ok` with the trimmed text, or `TextTooLong` past the limit.
pub fn validate_text_submission(text: String) -> (r: Result<String, GameError>)
    ensures
        text::trim_seq(text@).len() > text_limit() ==> r == Err::<String, GameError>(
            GameError::TextTooLong,
        ),
        text::trim_seq(text@).len() <= text_limit() ==> (r matches Ok(t) && t@ == text::trim_seq(
            text@,
        )),
{
    let t = text::trim(text.as_str());
    let count = text::chars_of(t.as_str()).len();
    if count > 140 {
        return Err(GameError::TextTooLong);
    }
    Ok(t)
}

/// Trusted: `rand`'s `SliceRandom::shuffle` with the thread-local generator,
/// on a copy of the players. The order is random, so only what holds of every
/// outcome is claimed: the same players, each as often as before.
#[verifier::external_body]
fn shuffled_player_order(players: &Vec<u64>) -> (v: Vec<u64>)
    ensures
        v@.to_multiset() == players@.to_multiset(),
{
    let mut shuffled = players.clone();
    shuffled.shuffle(&mut rand::thread_rng());
    shuffled
}

impl Game {
    /// Players who still have to pass a DM check.
    pub open spec fn unready(&self) -> Set<u64> {
        self.unready_players@
    }

    /// Players who have submitted in the current round.
    pub open spec fn submitted(&self) -> Set<u64> {
        self.submitted_this_round@
    }

    pub open spec fn n(&self) -> int {
        self.players@.len() as int
    }

    pub open spec fn is_short_mode(&self) -> bool {
        self.mode is Short
    }

    pub open spec fn spec_total_rounds(&self) -> int {
        if self.is_short_mode() {
            2
        } else {
            classic_total(self.n())
        }
    }

    pub open spec fn spec_round_kind(&self) -> RoundKind {
        if self.is_short_mode() {
            if self.current_round == 0 {
                RoundKind::Prompt
            } else {
                RoundKind::Drawing
            }
        } else {
            round_kind_at(self.spec_total_rounds(), self.current_round as int)
        }
    }

    /// Entry `r` of chain `c` was written by the player that the rotation
    /// assigns to that chain in round `r`, and has the shape of round `r`.
    pub open spec fn entry_fits(&self, c: int, r: int) -> bool {
        let n = self.n();
        let entry = self.chains@[c].entries@[r];
        &&& entry.author_id == self.players@[author_for(n, c, r)]
        &&& kind_fits(entry.kind, round_kind_at(classic_total(n), r))
    }

    /// One chain per player, started by that player, and every entry written
    /// by the right author in the right shape.
    pub open spec fn chain_history_ok(&self) -> bool {
        &&& self.chains@.len() == self.n()
        &&& forall|c: int|
            0 <= c < self.n() ==> #[trigger] self.chains@[c].original_player_id
                == self.players@[c]
        &&& forall|c: int, r: int|
            0 <= c < self.n() && 0 <= r < self.chains@[c].entries@.len() ==> #[trigger] self.entry_fits(
                c,
                r,
            )
    }

    /// Every chain holds one entry per finished round, plus one if its author
    /// for this round has already submitted.
    pub open spec fn round_progress_ok(&self) -> bool {
        forall|c: int|
            0 <= c < self.n() ==> #[trigger] self.chains@[c].entries@.len() == self.current_round
                + (if self.submitted().contains(
                self.players@[author_for(self.n(), c, self.current_round as int)],
            ) {
                1int
            } else {
                0int
            })
    }

    /// Every chain holds exactly one entry per round.
    pub open spec fn chains_complete(&self) -> bool {
        forall|c: int|
            0 <= c < self.n() ==> #[trigger] self.chains@[c].entries@.len() == classic_total(
                self.n(),
            )
    }

    pub open spec fn wf(&self) -> bool {
        &&& self.players@.no_duplicates()
        &&& self.players@.len() <= max_players()
        &&& self.players@.contains(self.host_id)
        &&& self.unready_players@.finite()
        &&& self.submitted_this_round@.finite()
        &&& forall|x: u64| #[trigger]
            self.submitted_this_round@.contains(x) ==> self.players@.contains(x)
        &&& self.phase == GamePhase::InProgress ==> self.players@.len() >= 2
        &&& self.phase == GamePhase::Lobby ==> self.current_round == 0
        &&& self.current_round < self.spec_total_rounds()
        &&& (!self.is_short_mode() && (self.phase == GamePhase::InProgress || self.phase
            == GamePhase::Finished)) ==> {
            &&& self.players@.len() >= 2
            &&& self.current_round < self.spec_total_rounds()
            &&& self.chain_history_ok()
            &&& self.phase == GamePhase::InProgress ==> self.round_progress_ok()
            &&& self.phase == GamePhase::Finished ==> self.chains_complete()
        }
        &&& (self.is_short_mode() && self.phase == GamePhase::InProgress) ==> self.current_round
            <= 1
        &&& (self.is_short_mode() && self.phase == GamePhase::InProgress && self.current_round == 0)
            ==> forall|x: u64| #[trigger]
            self.submitted_this_round@.contains(x) ==> find_prompt(mode_prompts(self.mode), x) is Some
        &&& (self.is_short_mode() && self.phase == GamePhase::InProgress && self.current_round == 1)
            ==> forall|i: int|
            0 <= i < self.n() ==> find_prompt(mode_prompts(self.mode), #[trigger] self.players@[i]) is Some
    }

    /// The fields that no game operation changes.
    pub open spec fn same_setup(&self, other: &Game) -> bool {
        &&& self.key == other.key
        &&& self.host_id == other.host_id
        &&& self.lobby_message_id == other.lobby_message_id
        &&& self.canvas == other.canvas
    }

    pub fn new(key: GameKey, host_id: u64, canvas: CanvasConfig) -> (g: Game)
        ensures
            g.wf(),
            g.key == key,
            g.host_id == host_id,
            g.canvas == canvas,
            g.lobby_message_id is None,
            g.phase == GamePhase::Lobby,
            g.players@ == seq![host_id],
            g.current_round == 0,
            g.chains@.len() == 0,
            g.mode is Classic,
            g.unready().is_empty(),
            g.submitted().is_empty(),
    {
        Self::new_with_mode(key, host_id, canvas, GameMode::Classic)
    }

    pub fn new_short(key: GameKey, host_id: u64, canvas: CanvasConfig) -> (g: Game)
        ensures
            g.wf(),
            g.key == key,
            g.host_id == host_id,
            g.canvas == canvas,
            g.lobby_message_id is None,
            g.phase == GamePhase::Lobby,
            g.players@ == seq![host_id],
            g.current_round == 0,
            g.chains@.len() == 0,
            g.mode matches GameMode::Short { prompts, drawings } && prompts@.len() == 0
                && drawings@.len() == 0,
            g.unready().is_empty(),
            g.submitted().is_empty(),
    {
        Self::new_with_mode(
            key,
            host_id,
            canvas,
            GameMode::Short { prompts: Vec::new(), drawings: Vec::new() },
        )
    }

    fn new_with_mode(key: GameKey, host_id: u64, canvas: CanvasConfig, mode: GameMode) -> (g: Game)
        ensures
            g.wf(),
            g.key == key,
            g.host_id == host_id,
            g.canvas == canvas,
            g.lobby_message_id is None,
            g.phase == GamePhase::Lobby,
            g.players@ == seq![host_id],
            g.current_round == 0,
            g.chains@.len() == 0,
            g.mode == mode,
            g.unready().is_empty(),
            g.submitted().is_empty(),
    {
        let g = Game {
            key,
            host_id,
            lobby_message_id: None,
            canvas,
            phase: GamePhase::Lobby,
            players: vec![host_id],
            current_round: 0,
            chains: Vec::new(),
            mode,
            unready_players: HashSet::new(),
            submitted_this_round: HashSet::new(),
        };
        assert(g.players@ == seq![host_id]);
        assert(g.players@[0] == host_id);
        g
    }

    pub fn has_player(&self, player_id: u64) -> (b: bool)
        ensures
            b == self.players@.contains(player_id),
    {
        index_of(&self.players, player_id).is_some()
    }

    /// What `join` does.
    pub open spec fn join_outcome(old: Game, new: Game, player_id: u64, r: Result<(), GameError>) -> bool {
        &&& (old.phase != GamePhase::Lobby ==> r == Err::<(), GameError>(
                GameError::AlreadyStarted,
            ) && new == old)
        &&& (old.phase == GamePhase::Lobby && old.players@.contains(player_id) ==> r
                == Err::<(), GameError>(GameError::AlreadyJoined) && new == old)
        &&& (old.phase == GamePhase::Lobby && !old.players@.contains(player_id) ==> {
                &&& r is Ok
                &&& new.players@ == old.players@.push(player_id)
                &&& new.unready() == old.unready().remove(player_id)
                &&& new.submitted() == old.submitted()
                &&& new.same_setup(&old)
                &&& new.phase == old.phase
                &&& new.current_round == old.current_round
                &&& new.chains == old.chains
                &&& new.mode == old.mode
            })
    }

    pub fn join(&mut self, player_id: u64) -> (r: Result<(), GameError>)
        requires
            old(self).wf(),
            old(self).players@.len() < max_players(),
        ensures
            final(self).wf(),
            Game::join_outcome(*old(self), *final(self), player_id, r),
    {
        if self.phase != GamePhase::Lobby {
            return Err(GameError::AlreadyStarted);
        }
        if self.has_player(player_id) {
            return Err(GameError::AlreadyJoined);
        }
        self.players.push(player_id);
        proof {
            assert forall|i: int, j: int|
                0 <= i < j < self.players@.len() implies self.players@[i] != self.players@[j] by {
                if j == self.players@.len() - 1 {
                    assert(old(self).players@.contains(self.players@[i]));
                }
            }
            assert(self.players@.contains(self.host_id)) by {
                let k = choose|k: int| 0 <= k < old(self).players@.len() && old(self).players@[k] == self.host_id;
                assert(self.players@[k] == self.host_id);
            }
            assert forall|x: u64| #[trigger] self.submitted_this_round@.contains(x) implies self.players@.contains(x) by {
                let k = choose|k: int| 0 <= k < old(self).players@.len() && old(self).players@[k] == x;
                assert(self.players@[k] == x);
            }
        }
        let _ = self.unready_players.remove(&player_id);
        Ok(())
    }

    pub fn set_lobby_message_id(&mut self, message_id: u64)
        requires
            old(self).wf(),
        ensures
            final(self).wf(),
            *final(self) == (Game { lobby_message_id: Some(message_id), ..*old(self) }),
    {
        self.lobby_message_id = Some(message_id);
        proof {
            Game::lemma_wf_frame(*old(self), *self);
        }
    }

    /// What `leave` does.
    pub open spec fn leave_outcome(old: Game, new: Game, player_id: u64, r: Result<(), GameError>) -> bool {
        &&& (old.phase != GamePhase::Lobby ==> r == Err::<(), GameError>(
                GameError::AlreadyStarted,
            ) && new == old)
        &&& (old.phase == GamePhase::Lobby && player_id == old.host_id ==> r == Err::<(), GameError>(GameError::HostCannotLeave) && new == old)
        &&& (old.phase == GamePhase::Lobby && player_id != old.host_id && !old.players@.contains(player_id) ==> r == Err::<(), GameError>(GameError::NotAPlayer)
                && new == old)
        &&& (old.phase == GamePhase::Lobby && player_id != old.host_id && old.players@.contains(player_id) ==> {
                &&& r is Ok
                &&& exists|i: int|
                    0 <= i < old.players@.len() && old.players@[i] == player_id
                        && new.players@ == old.players@.remove(i)
                &&& !new.players@.contains(player_id)
                &&& new.unready() == old.unready().remove(player_id)
                &&& new.submitted() == old.submitted().remove(player_id)
                &&& new.same_setup(&old)
                &&& new.phase == old.phase
                &&& new.current_round == old.current_round
                &&& new.chains == old.chains
                &&& new.mode == old.mode
            })
    }

    pub fn leave(&mut self, player_id: u64) -> (r: Result<(), GameError>)
        requires
            old(self).wf(),
        ensures
            final(self).wf(),
            Game::leave_outcome(*old(self), *final(self), player_id, r),
    {
        if self.phase != GamePhase::Lobby {
            return Err(GameError::AlreadyStarted);
        }
        if player_id == self.host_id {
            return Err(GameError::HostCannotLeave);
        }
        let player_index = match index_of(&self.players, player_id) {
            Some(i) => i,
            None => {
                return Err(GameError::NotAPlayer);
            },
        };
        let ghost before = self.players@;
        self.players.remove(player_index);
        proof {
            let i = player_index as int;
            assert forall|a: int, b: int|
                0 <= a < b < self.players@.len() implies self.players@[a] != self.players@[b] by {
                let a0 = if a < i { a } else { a + 1 };
                let b0 = if b < i { b } else { b + 1 };
                assert(self.players@[a] == before[a0]);
                assert(self.players@[b] == before[b0]);
            }
            assert(!self.players@.contains(player_id)) by {
                if self.players@.contains(player_id) {
                    let k = choose|k: int| 0 <= k < self.players@.len() && self.players@[k] == player_id;
                    let k0 = if k < i { k } else { k + 1 };
                    assert(before[k0] == player_id);
                }
            }
            assert forall|x: u64| before.contains(x) && x != player_id implies self.players@.contains(x) by {
                let k = choose|k: int| 0 <= k < before.len() && before[k] == x;
                if k < i {
                    assert(self.players@[k] == x);
                } else {
                    assert(self.players@[k - 1] == x);
                }
            }
        }
        let _ = self.unready_players.remove(&player_id);
        let _ = self.submitted_this_round.remove(&player_id);
        Ok(())
    }

    /// What `mark_ready` does.
    pub open spec fn mark_ready_outcome(old: Game, new: Game, player_id: u64, r: Result<(), GameError>) -> bool {
        &&& (old.phase != GamePhase::Lobby ==> r == Err::<(), GameError>(GameError::NotInLobby)
                && new == old)
        &&& (old.phase == GamePhase::Lobby && !old.players@.contains(player_id) ==> r
                == Err::<(), GameError>(GameError::NotAPlayer) && new == old)
        &&& (old.phase == GamePhase::Lobby && old.players@.contains(player_id) ==> r
                is Ok && new == (Game {
                unready_players: new.unready_players,
                ..old
            }) && new.unready() == old.unready().remove(player_id))
    }

    pub fn mark_ready(&mut self, player_id: u64) -> (r: Result<(), GameError>)
        requires
            old(self).wf(),
        ensures
            final(self).wf(),
            Game::mark_ready_outcome(*old(self), *final(self), player_id, r),
    {
        if self.phase != GamePhase::Lobby {
            return Err(GameError::NotInLobby);
        }
        if !self.has_player(player_id) {
            return Err(GameError::NotAPlayer);
        }
        let _ = self.unready_players.remove(&player_id);
        proof {
            Game::lemma_wf_frame(*old(self), *self);
        }
        Ok(())
    }

    pub fn mark_not_ready(&mut self, player_id: u64)
        requires
            old(self).wf(),
        ensures
            final(self).wf(),
            *final(self) == (Game { unready_players: final(self).unready_players, ..*old(self) }),
            final(self).unready() == old(self).unready().insert(player_id),
    {
        let _ = self.unready_players.insert(player_id);
        proof {
            Game::lemma_wf_frame(*old(self), *self);
        }
    }

    /// What `cancel` does.
    pub open spec fn cancel_outcome(old: Game, new: Game, requester_id: u64, r: Result<(), GameError>) -> bool {
        &&& (requester_id != old.host_id ==> r == Err::<(), GameError>(GameError::NotHost)
                && new == old)
        &&& (requester_id == old.host_id && old.phase != GamePhase::Lobby ==> r
                == Err::<(), GameError>(GameError::AlreadyStarted) && new == old)
        &&& (requester_id == old.host_id && old.phase == GamePhase::Lobby ==> r is Ok
                && new == (Game { phase: GamePhase::Cancelled, ..old }))
    }

    pub fn cancel(&mut self, requester_id: u64) -> (r: Result<(), GameError>)
        requires
            old(self).wf(),
        ensures
            final(self).wf(),
            Game::cancel_outcome(*old(self), *final(self), requester_id, r),
    {
        if requester_id != self.host_id {
            return Err(GameError::NotHost);
        }
        if self.phase != GamePhase::Lobby {
            return Err(GameError::AlreadyStarted);
        }
        self.phase = GamePhase::Cancelled;
        Ok(())
    }

    /// What `force_cancel` does.
    pub open spec fn force_cancel_outcome(old: Game, new: Game, requester_id: u64, r: Result<(), GameError>) -> bool {
        &&& (requester_id != old.host_id ==> r == Err::<(), GameError>(GameError::NotHost)
                && new == old)
        &&& (requester_id == old.host_id ==> r is Ok && new == (Game {
                phase: GamePhase::Cancelled,
                ..old
            }))
    }

    pub fn force_cancel(&mut self, requester_id: u64) -> (r: Result<(), GameError>)
        requires
            old(self).wf(),
        ensures
            final(self).wf(),
            Game::force_cancel_outcome(*old(self), *final(self), requester_id, r),
    {
        if requester_id != self.host_id {
            return Err(GameError::NotHost);
        }
        self.phase = GamePhase::Cancelled;
        Ok(())
    }

    /// What `reset_to_lobby_after_failed_start` does.
    pub open spec fn reset_outcome(old: Game, new: Game, unready_player_id: u64) -> bool {
        &&& (new.same_setup(&old))
        &&& (new.phase == GamePhase::Lobby)
        &&& (new.current_round == 0)
        &&& (new.players == old.players)
        &&& (new.chains@.len() == 0)
        &&& (new.submitted().is_empty())
        &&& (new.unready() == old.unready().insert(unready_player_id))
        &&& (new.mode is Short <==> old.mode is Short)
        &&& (new.mode matches GameMode::Short { prompts, drawings } ==> prompts@.len() == 0
                && drawings@.len() == 0)
    }

    pub fn reset_to_lobby_after_failed_start(&mut self, unready_player_id: u64)
        requires
            old(self).wf(),
        ensures
            final(self).wf(),
            Game::reset_outcome(*old(self), *final(self), unready_player_id),
    {
        self.phase = GamePhase::Lobby;
        self.current_round = 0;
        self.reset_round_state();
        if let GameMode::Short { prompts, drawings } = &mut self.mode {
            prompts.clear();
            drawings.clear();
        }
        self.mark_not_ready(unready_player_id);
    }

    fn reset_round_state(&mut self)
        requires
            old(self).wf(),
            old(self).phase == GamePhase::Lobby,
        ensures
            final(self).wf(),
            *final(self) == (Game {
                chains: final(self).chains,
                submitted_this_round: final(self).submitted_this_round,
                ..*old(self)
            }),
            final(self).chains@.len() == 0,
            final(self).submitted().is_empty(),
    {
        self.chains.clear();
        self.submitted_this_round.clear();
    }

    pub fn round_kind(&self) -> (k: RoundKind)
        requires
            self.wf(),
        ensures
            k == self.spec_round_kind(),
    {
        if self.is_short() {
            return if self.current_round == 0 {
                RoundKind::Prompt
            } else {
                RoundKind::Drawing
            };
        }
        self.round_kind_for(self.current_round)
    }

    fn round_kind_for(&self, round: usize) -> (k: RoundKind)
        requires
            self.wf(),
        ensures
            k == round_kind_at(self.spec_total_rounds(), round as int),
    {
        if round == 0 {
            RoundKind::Prompt
        } else if round == self.total_rounds() - 1 {
            RoundKind::Naming
        } else if round % 2 == 1 {
            RoundKind::Drawing
        } else {
            RoundKind::Prompt
        }
    }

    pub fn submitted_count(&self) -> (c: usize)
        ensures
            c == self.submitted().len(),
    {
        self.submitted_this_round.len()
    }

    pub fn has_submitted(&self, player_id: u64) -> (b: bool)
        ensures
            b == self.submitted().contains(player_id),
    {
        self.submitted_this_round.contains(&player_id)
    }

    /// Players minus those waiting for a DM check. The count is only
    /// meaningful while the unready set holds no more ids than there are
    /// players, which is how the game uses it.
    pub fn ready_count(&self) -> (c: usize)
        requires
            self.unready().len() <= self.players@.len(),
        ensures
            c == self.players@.len() - self.unready().len(),
    {
        self.players.len() - self.unready_players.len()
    }

    pub open spec fn unready_pred(&self) -> spec_fn(u64) -> bool {
        |x: u64| self.unready().contains(x)
    }

    /// The unready players, in player order.
    pub fn unready_players(&self) -> (v: Vec<u64>)
        ensures
            v@ == self.players@.filter(self.unready_pred()),
    {
        let ghost pred = self.unready_pred();
        let mut v: Vec<u64> = Vec::new();
        let mut i: usize = 0;
        while i < self.players.len()
            invariant
                i <= self.players@.len(),
                pred == self.unready_pred(),
                v@ == self.players@.take(i as int).filter(pred),
            decreases self.players@.len() - i,
        {
            reveal_with_fuel(Seq::<_>::filter, 1);
            let p = self.players[i];
            if self.unready_players.contains(&p) {
                v.push(p);
            }
            assert(self.players@.take(i + 1).drop_last() == self.players@.take(i as int));
            i += 1;
        }
        assert(self.players@.take(self.players@.len() as int) == self.players@);
        v
    }

    pub fn total_rounds(&self) -> (t: usize)
        requires
            self.wf(),
        ensures
            t == self.spec_total_rounds(),
    {
        if self.is_short() {
            return 2;
        }
        self.players.len() * 2 + 1
    }

    pub fn is_short(&self) -> (b: bool)
        ensures
            b == self.is_short_mode(),
    {
        match self.mode {
            GameMode::Short { .. } => true,
            GameMode::Classic => false,
        }
    }

    pub open spec fn spec_mode_label(&self) -> Seq<char> {
        if self.is_short_mode() {
            "short"@
        } else {
            "classic"@
        }
    }

    pub fn mode_label(&self) -> (l: &'static str)
        ensures
            l@ == self.spec_mode_label(),
    {
        if self.is_short() {
            "short"
        } else {
            "classic"
        }
    }

    /// The position of `player` among the players.
    pub open spec fn player_index(&self, player: u64) -> int {
        choose|i: int| 0 <= i < self.n() && self.players@[i] == player
    }

    /// Why `player` may not submit right now, if anything stops them.
    pub open spec fn submit_block(&self, player: u64) -> Option<GameError> {
        if self.phase != GamePhase::InProgress {
            Some(GameError::NotInProgress)
        } else if !self.players@.contains(player) {
            Some(GameError::NotAPlayer)
        } else if self.submitted().contains(player) {
            Some(GameError::AlreadySubmitted)
        } else {
            None
        }
    }

    /// The assignment of the player at index `p` for `round` of the full game.
    pub open spec fn assignment_at(&self, round: int, p: int) -> RoundAssignment {
        let c = chain_for(self.n(), p, round);
        RoundAssignment {
            player_id: self.players@[p],
            chain_index: c as usize,
            previous_entry: last_entry(self.chains@[c].entries@),
            round_kind: round_kind_at(self.spec_total_rounds(), round),
        }
    }

    /// `v` is the list of assignments for `round`, one per player in order.
    pub open spec fn assignments_match(&self, round: int, v: Seq<RoundAssignment>) -> bool {
        &&& v.len() == self.n()
        &&& forall|p: int| 0 <= p < self.n() ==> #[trigger] v[p] == self.assignment_at(round, p)
    }

    /// Assignments can be computed: the full game, started, with a round
    /// that exists.
    pub open spec fn assignments_ready(&self, round: int) -> bool {
        &&& !self.is_short_mode()
        &&& self.n() >= 1
        &&& self.chains@.len() == self.n()
        &&& 0 <= round < self.spec_total_rounds()
    }

    fn ensure_can_submit(&self, player_id: u64) -> (r: Result<usize, GameError>)
        requires
            self.wf(),
        ensures
            match r {
                Ok(i) => self.submit_block(player_id) is None && i < self.n() && self.players@[i as int]
                    == player_id && self.player_index(player_id) == i,
                Err(e) => self.submit_block(player_id) == Some(e),
            },
    {
        if self.phase != GamePhase::InProgress {
            return Err(GameError::NotInProgress);
        }
        let player_index = match index_of(&self.players, player_id) {
            Some(i) => i,
            None => {
                return Err(GameError::NotAPlayer);
            },
        };
        if self.submitted_this_round.contains(&player_id) {
            return Err(GameError::AlreadySubmitted);
        }
        proof {
            let k = self.player_index(player_id);
            assert(self.players@[player_index as int] == player_id);
            assert(0 <= k < self.n() && self.players@[k] == player_id);
            assert(k == player_index);
        }
        Ok(player_index)
    }

    fn chain_author_offset_for_round(&self, round: usize) -> (off: usize)
        requires
            self.wf(),
            self.assignments_ready(round as int),
        ensures
            off == author_offset(self.n(), round as int),
            off < self.n(),
    {
        proof {
            lemma_offset_range(self.n(), round as int);
        }
        if round + 1 == self.total_rounds() {
            return 0;
        }
        if round % 2 == 0 {
            return round / 2;
        }
        let player_count = self.players.len();
        let drawing_shift: usize = if player_count == 2 {
            1
        } else {
            2
        };
        ((round - 1) / 2 + drawing_shift) % player_count
    }

    fn chain_index_for(&self, player_index: usize, round: usize) -> (c: usize)
        requires
            self.wf(),
            self.assignments_ready(round as int),
            player_index < self.n(),
        ensures
            c == chain_for(self.n(), player_index as int, round as int),
            c < self.n(),
    {
        let player_count = self.players.len();
        let author_offset = self.chain_author_offset_for_round(round);
        proof {
            lemma_chain_author_inverse(self.n(), round as int);
            assert(0 <= chain_for(self.n(), player_index as int, round as int) < self.n());
        }
        (player_index + player_count - author_offset) % player_count
    }

    fn assigned_chain_index(&self, player_index: usize) -> (c: usize)
        requires
            self.wf(),
            self.assignments_ready(self.current_round as int),
            player_index < self.n(),
        ensures
            c == chain_for(self.n(), player_index as int, self.current_round as int),
            c < self.n(),
    {
        self.chain_index_for(player_index, self.current_round)
    }

    fn assignments_for_round(&self, round: usize) -> (v: Vec<RoundAssignment>)
        requires
            self.wf(),
            self.assignments_ready(round as int),
        ensures
            self.assignments_match(round as int, v@),
    {
        let mut v: Vec<RoundAssignment> = Vec::new();
        let mut p: usize = 0;
        while p < self.players.len()
            invariant
                self.wf(),
                self.assignments_ready(round as int),
                p <= self.n(),
                v@.len() == p,
                forall|q: int| 0 <= q < p ==> #[trigger] v@[q] == self.assignment_at(round as int, q),
            decreases self.n() - p,
        {
            let chain_index = self.chain_index_for(p, round);
            let entries = &self.chains[chain_index].entries;
            let previous_entry = if entries.len() > 0 {
                Some(entries[entries.len() - 1].duplicate())
            } else {
                None
            };
            v.push(
                RoundAssignment {
                    player_id: self.players[p],
                    chain_index,
                    previous_entry,
                    round_kind: self.round_kind_for(round),
                },
            );
            p += 1;
        }
        v
    }

    /// The assignments of the current round of a started full game.
    pub fn assignments_for_current_round(&self) -> (v: Vec<RoundAssignment>)
        requires
            self.wf(),
            self.assignments_ready(self.current_round as int),
        ensures
            self.assignments_match(self.current_round as int, v@),
    {
        self.assignments_for_round(self.current_round)
    }

    /// What starting gives when the checks pass.
    pub open spec fn start_outcome(
        old: Game,
        new: Game,
        requester_id: u64,
        order: Seq<u64>,
        r: Result<StartRound, GameError>,
    ) -> bool {
        if requester_id != old.host_id {
            r == Err::<StartRound, GameError>(GameError::NotHost) && new == old
        } else if old.players@.len() < 2 {
            r == Err::<StartRound, GameError>(GameError::NotEnoughPlayers) && new == old
        } else if old.phase != GamePhase::Lobby {
            r == Err::<StartRound, GameError>(GameError::AlreadyStarted) && new == old
        } else if exists|i: int|
            0 <= i < old.players@.len() && old.unready().contains(#[trigger] old.players@[i]) {
            r == Err::<StartRound, GameError>(GameError::PlayersNotReady) && new == old
        } else {
            &&& new.same_setup(&old)
            &&& new.phase == GamePhase::InProgress
            &&& new.players@ == order
            &&& new.current_round == 0
            &&& new.submitted().is_empty()
            &&& new.unready() == old.unready()
            &&& (new.mode is Short <==> old.mode is Short)
            &&& if old.is_short_mode() {
                &&& r == Ok::<StartRound, GameError>(StartRound::ShortPrompt)
                &&& mode_prompts(new.mode).len() == 0
                &&& mode_drawings(new.mode).len() == 0
                &&& new.chains@.len() == 0
            } else {
                &&& new.chains@.len() == order.len()
                &&& forall|c: int|
                    0 <= c < order.len() ==> #[trigger] new.chains@[c].original_player_id
                        == order[c] && new.chains@[c].entries@.len() == 0
                &&& r matches Ok(StartRound::Classic(assignments)) && new.assignments_match(
                    0,
                    assignments@,
                )
            }
        }
    }

    /// Starts the game with the players in a random order.
    pub fn start(&mut self, requester_id: u64) -> (r: Result<StartRound, GameError>)
        requires
            old(self).wf(),
        ensures
            final(self).wf(),
            exists|order: Seq<u64>|
                order.to_multiset() == old(self).players@.to_multiset() && Game::start_outcome(
                    *old(self),
                    *final(self),
                    requester_id,
                    order,
                    r,
                ),
    {
        let players = shuffled_player_order(&self.players);
        self.start_with_player_order(requester_id, players)
    }

    /// Starts the game with the players in the given order, which must hold
    /// exactly the joined players.
    pub fn start_with_player_order(&mut self, requester_id: u64, players: Vec<u64>) -> (r: Result<
        StartRound,
        GameError,
    >)
        requires
            old(self).wf(),
            players@.to_multiset() == old(self).players@.to_multiset(),
        ensures
            final(self).wf(),
            Game::start_outcome(*old(self), *final(self), requester_id, players@, r),
    {
        if requester_id != self.host_id {
            return Err(GameError::NotHost);
        }
        if self.players.len() < 2 {
            return Err(GameError::NotEnoughPlayers);
        }
        if self.phase != GamePhase::Lobby {
            return Err(GameError::AlreadyStarted);
        }
        let unready = self.unready_players();
        if unready.len() > 0 {
            proof {
                broadcast use vstd::seq_lib::group_filter_ensures;
                let x = unready@[0];
                assert(self.players@.filter(self.unready_pred()).contains(x));
                self.players@.lemma_filter_contains_rev(self.unready_pred(), x);
                let k = choose|k: int| 0 <= k < self.players@.len() && self.players@[k] == x;
                assert(self.unready().contains(self.players@[k]));
            }
            return Err(GameError::PlayersNotReady);
        }
        proof {
            assert forall|i: int| 0 <= i < old(self).players@.len() implies !old(self).unready().contains(
                #[trigger] old(self).players@[i],
            ) by {
                broadcast use vstd::seq_lib::group_filter_ensures;
                let x = old(self).players@[i];
                if old(self).unready().contains(x) {
                    assert(self.players@.filter(self.unready_pred()).contains(x));
                }
            }
            lemma_permutation(old(self).players@, players@);
        }
        let ghost order = players@;
        self.phase = GamePhase::InProgress;
        self.players = players;
        self.current_round = 0;
        self.submitted_this_round.clear();
        proof {
            assert(self.players@.contains(self.host_id)) by {
                assert(old(self).players@.contains(self.host_id));
            }
        }
        if self.is_short() {
            if let GameMode::Short { prompts, drawings } = &mut self.mode {
                prompts.clear();
                drawings.clear();
            }
            self.chains.clear();
            return Ok(StartRound::ShortPrompt);
        }
        let mut chains: Vec<Chain> = Vec::new();
        let mut i: usize = 0;
        while i < self.players.len()
            invariant
                i <= self.players@.len(),
                chains@.len() == i,
                forall|c: int| 0 <= c < i ==> #[trigger] chains@[c].original_player_id == self.players@[c],
                forall|c: int| 0 <= c < i ==> (#[trigger] chains@[c]).entries@.len() == 0,
            decreases self.players@.len() - i,
        {
            chains.push(Chain { original_player_id: self.players[i], entries: Vec::new() });
            i += 1;
        }
        self.chains = chains;
        proof {
            assert forall|c: int, r: int|
                0 <= c < self.n() && 0 <= r < self.chains@[c].entries@.len() implies #[trigger] self.entry_fits(
                c,
                r,
            ) by {
                assert(self.chains@[c].entries@.len() == 0);
            }
            assert(self.chain_history_ok());
            assert forall|c: int| 0 <= c < self.n() implies #[trigger] self.chains@[c].entries@.len()
                == self.current_round + (if self.submitted().contains(
                self.players@[author_for(self.n(), c, self.current_round as int)],
            ) {
                1int
            } else {
                0int
            }) by {
                assert(self.chains@[c].entries@.len() == 0);
            }
        }
        Ok(StartRound::Classic(self.assignments_for_current_round()))
    }

    /// What a full-game submission by `player` of `kind` does.
    pub open spec fn submit_outcome(
        old: Game,
        new: Game,
        player: u64,
        kind: SubmissionKind,
        r: Result<Advance, GameError>,
    ) -> bool {
        match old.submit_block(player) {
            Some(e) => r == Err::<Advance, GameError>(e) && new == old,
            None => {
                let n = old.n();
                let c = chain_for(n, old.player_index(player), old.current_round as int);
                &&& new.same_setup(&old)
                &&& new.players == old.players
                &&& new.current_round == old.current_round
                &&& new.mode == old.mode
                &&& new.unready() == old.unready()
                &&& new.submitted() == old.submitted().insert(player)
                &&& new.chains@.len() == old.chains@.len()
                &&& forall|j: int| 0 <= j < n && j != c ==> #[trigger] new.chains@[j] == old.chains@[j]
                &&& new.chains@[c].original_player_id == old.chains@[c].original_player_id
                &&& new.chains@[c].entries@ == old.chains@[c].entries@.push(
                    ChainEntry { author_id: player, kind },
                )
                &&& if new.submitted().len() < n {
                    new.phase == old.phase && r == Ok::<Advance, GameError>(Advance::Waiting)
                } else if old.current_round + 1 >= old.spec_total_rounds() {
                    &&& new.phase == GamePhase::Finished
                    &&& r matches Ok(Advance::Finished { chains }) && chains_equal(chains@, new.chains@)
                } else {
                    &&& new.phase == old.phase
                    &&& r matches Ok(Advance::NextRound { next_round, assignments })
                    &&& next_round == old.current_round + 1
                    &&& new.assignments_match(next_round as int, assignments@)
                }
            },
        }
    }

    fn submit(&mut self, player_id: u64, kind: SubmissionKind) -> (r: Result<Advance, GameError>)
        requires
            old(self).wf(),
            !old(self).is_short_mode(),
            kind_fits(kind, old(self).spec_round_kind()),
        ensures
            final(self).wf(),
            Game::submit_outcome(*old(self), *final(self), player_id, kind, r),
    {
        let player_index = self.ensure_can_submit(player_id)?;
        let ghost n = self.n();
        let ghost round = self.current_round as int;
        let chain_index = self.assigned_chain_index(player_index);
        proof {
            lemma_chain_author_inverse(n, round);
            assert(author_for(n, chain_index as int, round) == player_index);
            // The chain's author this round has not submitted yet.
            assert(self.chains@[chain_index as int].entries@.len() == self.current_round);
        }
        let mut chain = self.chains.remove(chain_index);
        chain.entries.push(ChainEntry { author_id: player_id, kind });
        self.chains.insert(chain_index, chain);
        let _ = self.submitted_this_round.insert(player_id);
        proof {
            let old_g = *old(self);
            assert(self.chains@ == old_g.chains@.update(chain_index as int, self.chains@[chain_index as int]));
            assert forall|j: int| 0 <= j < n && j != chain_index implies #[trigger] self.chains@[j] == old_g.chains@[j] by {}
            // history
            assert forall|c: int, r: int|
                0 <= c < self.n() && 0 <= r < self.chains@[c].entries@.len() implies #[trigger] self.entry_fits(
                c,
                r,
            ) by {
                if c != chain_index || r < self.current_round {
                    assert(old_g.entry_fits(c, r));
                    assert(self.chains@[c].entries@[r] == old_g.chains@[c].entries@[r]);
                }
            }
            assert(self.chain_history_ok());
            assert forall|x: u64| #[trigger] self.submitted_this_round@.contains(x) implies self.players@.contains(x) by {
                if x != player_id {
                    assert(old_g.submitted_this_round@.contains(x));
                }
            }
            lemma_subset_of_players(self.players@, self.submitted_this_round@);
        }
        if self.submitted_this_round.len() < self.players.len() {
            proof {
                let old_g = *old(self);
                assert forall|c: int| 0 <= c < self.n() implies #[trigger] self.chains@[c].entries@.len()
                    == self.current_round + (if self.submitted().contains(
                    self.players@[author_for(self.n(), c, self.current_round as int)],
                ) {
                    1int
                } else {
                    0int
                }) by {
                    let a = author_for(n, c, round);
                    if c != chain_index {
                        assert(old_g.chains@[c] == self.chains@[c]);
                        if self.players@[a] == player_id {
                            assert(a == player_index);
                            assert(chain_for(n, a, round) == c);
                        }
                    }
                }
            }
            return Ok(Advance::Waiting);
        }
        proof {
            let old_g = *old(self);
            // Everyone has submitted now, so every chain is one entry longer.
            assert forall|c: int| 0 <= c < self.n() implies #[trigger] self.chains@[c].entries@.len()
                == self.current_round + 1 by {
                let a = author_for(n, c, round);
                assert(self.submitted().contains(self.players@[a]));
                if c != chain_index {
                    assert(old_g.chains@[c] == self.chains@[c]);
                    if self.players@[a] == player_id {
                        assert(a == player_index);
                        assert(chain_for(n, a, round) == c);
                    }
                    assert(old_g.submitted().contains(old_g.players@[a]));
                }
            }
        }
        if self.current_round + 1 >= self.total_rounds() {
            let ghost before = *self;
            self.phase = GamePhase::Finished;
            let chains = duplicate_chains(&self.chains);
            proof {
                Game::lemma_history_frame(before, *self);
                assert(self.chains_complete());
                assert(chains_equal(chains@, self.chains@));
                assert(self.wf());
            }
            return Ok(Advance::Finished { chains });
        }
        let next_round = self.current_round + 1;
        Ok(
            Advance::NextRound {
                next_round,
                assignments: self.assignments_for_round(next_round),
            },
        )
    }

    fn short_drawing_assignments(&self) -> (v: Vec<ShortDrawingAssignment>)
        requires
            self.wf(),
        ensures
            v@ == (if self.is_short_mode() {
                short_assignments(self.players@, mode_prompts(self.mode))
            } else {
                Seq::empty()
            }),
    {
        let prompts = match &self.mode {
            GameMode::Short { prompts, .. } => prompts,
            GameMode::Classic => {
                return Vec::new();
            },
        };
        let n = self.players.len();
        let mut v: Vec<ShortDrawingAssignment> = Vec::new();
        let mut i: usize = 0;
        while i < n
            invariant
                self.wf(),
                n == self.n(),
                prompts@ == mode_prompts(self.mode),
                i <= n,
                v@ == short_assignments_upto(self.players@, prompts@, i as int),
            decreases n - i,
        {
            let prompt_author_id = self.players[(i + n - 1) % n];
            assert(prompt_author_id == prompt_source(self.players@, i as int));
            let mut j: usize = 0;
            while j < prompts.len() && prompts[j].author_id != prompt_author_id
                invariant
                    j <= prompts@.len(),
                    forall|k: int| 0 <= k < j ==> #[trigger] prompts@[k].author_id != prompt_author_id,
                decreases prompts@.len() - j,
            {
                j += 1;
            }
            proof {
                lemma_find_prompt(prompts@, prompt_author_id, j as int);
            }
            if j < prompts.len() {
                    v.push(
                        ShortDrawingAssignment {
                            player_id: self.players[i],
                            prompt_author_id,
                            prompt: prompts[j].text.clone(),
                        },
                    );
            }
            i += 1;
        }
        v
    }

    fn short_showcases(&self) -> (v: Vec<ShortShowcase>)
        requires
            self.wf(),
        ensures
            v@ == (if self.is_short_mode() {
                short_showcases(self.players@, mode_drawings(self.mode))
            } else {
                Seq::empty()
            }),
    {
        let drawings = match &self.mode {
            GameMode::Short { drawings, .. } => drawings,
            GameMode::Classic => {
                return Vec::new();
            },
        };
        let n = self.players.len();
        let mut v: Vec<ShortShowcase> = Vec::new();
        let mut i: usize = 0;
        while i < n
            invariant
                n == self.n(),
                drawings@ == mode_drawings(self.mode),
                i <= n,
                v@ == short_showcases_upto(self.players@, drawings@, i as int),
            decreases n - i,
        {
            let prompt_author_id = self.players[i];
            let mut j: usize = 0;
            while j < drawings.len() && drawings[j].prompt_author_id != prompt_author_id
                invariant
                    j <= drawings@.len(),
                    forall|k: int| 0 <= k < j ==> #[trigger] drawings@[k].prompt_author_id != prompt_author_id,
                decreases drawings@.len() - j,
            {
                j += 1;
            }
            proof {
                lemma_find_drawing(drawings@, prompt_author_id, j as int);
            }
            if j < drawings.len() {
                    let d = &drawings[j];
                    v.push(
                        ShortShowcase {
                            prompt_author_id,
                            prompt: d.prompt.clone(),
                            drawing_author_id: d.author_id,
                            attachment_url: d.attachment_url.clone(),
                            filename: d.filename.clone(),
                        },
                    );
            }
            i += 1;
        }
        v
    }

    /// What a short-game prompt by `player` with text `text` does.
    pub open spec fn short_prompt_outcome(
        old: Game,
        new: Game,
        player: u64,
        text: String,
        r: Result<Advance, GameError>,
    ) -> bool {
        if old.phase != GamePhase::InProgress {
            r == Err::<Advance, GameError>(GameError::NotInProgress) && new == old
        } else if old.current_round != 0 {
            r == Err::<Advance, GameError>(GameError::ExpectedDrawing) && new == old
        } else {
            match old.submit_block(player) {
                Some(e) => r == Err::<Advance, GameError>(e) && new == old,
                None => {
                    &&& new.same_setup(&old)
                    &&& new.players == old.players
                    &&& new.phase == old.phase
                    &&& new.current_round == old.current_round
                    &&& new.chains == old.chains
                    &&& new.unready() == old.unready()
                    &&& new.submitted() == old.submitted().insert(player)
                    &&& new.mode is Short
                    &&& mode_prompts(new.mode) == mode_prompts(old.mode).push(
                        ShortPrompt { author_id: player, text },
                    )
                    &&& mode_drawings(new.mode) == mode_drawings(old.mode)
                    &&& if new.submitted().len() < new.n() {
                        r == Ok::<Advance, GameError>(Advance::Waiting)
                    } else {
                        r matches Ok(Advance::ShortDrawingRound { assignments }) && assignments@
                            == short_assignments(new.players@, mode_prompts(new.mode))
                    }
                },
            }
        }
    }

    fn submit_short_prompt(&mut self, player_id: u64, text: String) -> (r: Result<Advance, GameError>)
        requires
            old(self).wf(),
            old(self).is_short_mode(),
        ensures
            final(self).wf(),
            Game::short_prompt_outcome(*old(self), *final(self), player_id, text, r),
    {
        if self.phase != GamePhase::InProgress {
            return Err(GameError::NotInProgress);
        }
        if self.current_round != 0 {
            return Err(GameError::ExpectedDrawing);
        }
        self.ensure_can_submit(player_id)?;
        if let GameMode::Short { prompts, .. } = &mut self.mode {
            prompts.push(ShortPrompt { author_id: player_id, text });
        }
        let _ = self.submitted_this_round.insert(player_id);
        proof {
            let old_g = *old(self);
            assert forall|x: u64| #[trigger] self.submitted_this_round@.contains(x) implies self.players@.contains(x) by {
                if x != player_id {
                    assert(old_g.submitted_this_round@.contains(x));
                }
            }
            assert forall|x: u64| #[trigger] self.submitted_this_round@.contains(x) implies find_prompt(
                mode_prompts(self.mode),
                x,
            ) is Some by {
                lemma_find_prompt_push(
                    mode_prompts(old_g.mode),
                    ShortPrompt { author_id: player_id, text },
                    x,
                );
                if x != player_id {
                    assert(old_g.submitted_this_round@.contains(x));
                }
            }
        }
        if self.submitted_this_round.len() < self.players.len() {
            return Ok(Advance::Waiting);
        }
        Ok(Advance::ShortDrawingRound { assignments: self.short_drawing_assignments() })
    }

    /// What a short-game drawing by `player` does.
    pub open spec fn short_drawing_outcome(
        old: Game,
        new: Game,
        player: u64,
        attachment_url: String,
        filename: String,
        r: Result<Advance, GameError>,
    ) -> bool {
        if old.phase != GamePhase::InProgress {
            r == Err::<Advance, GameError>(GameError::NotInProgress) && new == old
        } else if old.current_round != 1 {
            r == Err::<Advance, GameError>(GameError::ExpectedText) && new == old
        } else {
            match old.submit_block(player) {
                Some(e) => r == Err::<Advance, GameError>(e) && new == old,
                None => match find_assignment(
                    short_assignments(old.players@, mode_prompts(old.mode)),
                    player,
                ) {
                    None => r == Err::<Advance, GameError>(GameError::NotAPlayer) && new == old,
                    Some(a) => {
                        &&& new.same_setup(&old)
                        &&& new.players == old.players
                        &&& new.current_round == old.current_round
                        &&& new.chains == old.chains
                        &&& new.unready() == old.unready()
                        &&& new.submitted() == old.submitted().insert(player)
                        &&& new.mode is Short
                        &&& mode_prompts(new.mode) == mode_prompts(old.mode)
                        &&& mode_drawings(new.mode) == mode_drawings(old.mode).push(
                            ShortDrawing {
                                author_id: player,
                                prompt_author_id: a.prompt_author_id,
                                prompt: a.prompt,
                                attachment_url,
                                filename,
                            },
                        )
                        &&& if new.submitted().len() < new.n() {
                            new.phase == old.phase && r == Ok::<Advance, GameError>(Advance::Waiting)
                        } else {
                            &&& new.phase == GamePhase::Finished
                            &&& r matches Ok(Advance::ShortFinished { showcases }) && showcases@
                                == short_showcases(new.players@, mode_drawings(new.mode))
                        }
                    },
                },
            }
        }
    }

    fn submit_short_drawing(&mut self, player_id: u64, attachment_url: String, filename: String) -> (r:
        Result<Advance, GameError>)
        requires
            old(self).wf(),
            old(self).is_short_mode(),
        ensures
            final(self).wf(),
            Game::short_drawing_outcome(*old(self), *final(self), player_id, attachment_url, filename, r),
    {
        if self.phase != GamePhase::InProgress {
            return Err(GameError::NotInProgress);
        }
        if self.current_round != 1 {
            return Err(GameError::ExpectedText);
        }
        self.ensure_can_submit(player_id)?;
        let assignments = self.short_drawing_assignments();
        let mut j: usize = 0;
        while j < assignments.len() && assignments[j].player_id != player_id
            invariant
                j <= assignments@.len(),
                forall|k: int| 0 <= k < j ==> #[trigger] assignments@[k].player_id != player_id,
            decreases assignments@.len() - j,
        {
            j += 1;
        }
        proof {
            lemma_find_assignment(assignments@, player_id, j as int);
        }
        if j == assignments.len() {
            return Err(GameError::NotAPlayer);
        }
        let prompt_author_id = assignments[j].prompt_author_id;
        let prompt = assignments[j].prompt.clone();
        if let GameMode::Short { drawings, .. } = &mut self.mode {
            drawings.push(
                ShortDrawing { author_id: player_id, prompt_author_id, prompt, attachment_url, filename },
            );
        }
        let _ = self.submitted_this_round.insert(player_id);
        proof {
            let old_g = *old(self);
            assert forall|x: u64| #[trigger] self.submitted_this_round@.contains(x) implies self.players@.contains(x) by {
                if x != player_id {
                    assert(old_g.submitted_this_round@.contains(x));
                }
            }
        }
        if self.submitted_this_round.len() < self.players.len() {
            return Ok(Advance::Waiting);
        }
        self.phase = GamePhase::Finished;
        Ok(Advance::ShortFinished { showcases: self.short_showcases() })
    }

    /// What submitting `text` as a prompt or name does: the text is trimmed,
    /// refused above 140 characters, and otherwise goes to the round.
    pub open spec fn text_outcome(
        old: Game,
        new: Game,
        player_id: u64,
        text: Seq<char>,
        r: Result<Advance, GameError>,
    ) -> bool {
        if text::trim_seq(text).len() > text_limit() {
            r == Err::<Advance, GameError>(GameError::TextTooLong) && new == old
        } else {
            exists|t: String|
                t@ == text::trim_seq(text) && if old.is_short_mode() {
                    Game::short_prompt_outcome(old, new, player_id, t, r)
                } else if old.spec_round_kind() == RoundKind::Drawing {
                    r == Err::<Advance, GameError>(GameError::ExpectedDrawing) && new == old
                } else if old.spec_round_kind() == RoundKind::Prompt {
                    Game::submit_outcome(old, new, player_id, SubmissionKind::Prompt(t), r)
                } else {
                    Game::submit_outcome(old, new, player_id, SubmissionKind::Name(t), r)
                }
        }
    }

    /// What submitting a drawing does.
    pub open spec fn drawing_outcome(
        old: Game,
        new: Game,
        player_id: u64,
        attachment_url: String,
        filename: String,
        r: Result<Advance, GameError>,
    ) -> bool {
        if old.is_short_mode() {
            Game::short_drawing_outcome(old, new, player_id, attachment_url, filename, r)
        } else if old.spec_round_kind() != RoundKind::Drawing {
            r == Err::<Advance, GameError>(GameError::ExpectedText) && new == old
        } else {
            Game::submit_outcome(
                old,
                new,
                player_id,
                SubmissionKind::Drawing { attachment_url, filename },
                r,
            )
        }
    }

    /// Submits a prompt or a name. The text is trimmed first and may hold at
    /// most 140 characters.
    pub fn submit_text(&mut self, player_id: u64, text: String) -> (r: Result<Advance, GameError>)
        requires
            old(self).wf(),
        ensures
            final(self).wf(),
            Game::text_outcome(*old(self), *final(self), player_id, text@, r),
    {
        let text = validate_text_submission(text)?;
        let ghost t = text;
        if self.is_short() {
            return self.submit_short_prompt(player_id, text);
        }
        let kind = match self.round_kind() {
            RoundKind::Prompt => SubmissionKind::Prompt(text),
            RoundKind::Naming => SubmissionKind::Name(text),
            RoundKind::Drawing => {
                return Err(GameError::ExpectedDrawing);
            },
        };
        self.submit(player_id, kind)
    }

    /// Submits a drawing by its attachment.
    pub fn submit_drawing(&mut self, player_id: u64, attachment_url: String, filename: String) -> (r:
        Result<Advance, GameError>)
        requires
            old(self).wf(),
        ensures
            final(self).wf(),
            Game::drawing_outcome(*old(self), *final(self), player_id, attachment_url, filename, r),
    {
        if self.is_short() {
            return self.submit_short_drawing(player_id, attachment_url, filename);
        }
        if self.round_kind() != RoundKind::Drawing {
            return Err(GameError::ExpectedText);
        }
        self.submit(player_id, SubmissionKind::Drawing { attachment_url, filename })
    }

    /// Every player has submitted in a round that is not the last, and the
    /// next round has not been committed yet.
    pub open spec fn has_pending(&self) -> bool {
        if self.is_short_mode() {
            self.phase == GamePhase::InProgress && self.current_round == 0 && self.submitted().len()
                == self.n()
        } else {
            self.phase == GamePhase::InProgress && self.submitted().len() == self.n()
                && self.current_round + 1 < self.spec_total_rounds()
        }
    }

    /// `r` is the advance that the current round has earned, if any.
    pub open spec fn pending_ok(&self, r: Option<Advance>) -> bool {
        if !self.has_pending() {
            r is None
        } else if self.is_short_mode() {
            r matches Some(Advance::ShortDrawingRound { assignments }) && assignments@
                == short_assignments(self.players@, mode_prompts(self.mode))
        } else {
            r matches Some(Advance::NextRound { next_round, assignments }) && next_round
                == self.current_round + 1 && self.assignments_match(next_round as int, assignments@)
        }
    }

    /// The advance that the current round has earned, if every player has
    /// submitted but the next round was not committed yet.
    pub fn pending_next_round(&self) -> (r: Option<Advance>)
        requires
            self.wf(),
        ensures
            self.pending_ok(r),
    {
        if self.is_short() {
            if self.phase == GamePhase::InProgress && self.current_round == 0
                && self.submitted_this_round.len() == self.players.len() {
                return Some(
                    Advance::ShortDrawingRound { assignments: self.short_drawing_assignments() },
                );
            }
            return None;
        }
        if self.phase != GamePhase::InProgress || self.submitted_this_round.len()
            != self.players.len() || self.current_round + 1 >= self.total_rounds() {
            return None;
        }
        let next_round = self.current_round + 1;
        Some(
            Advance::NextRound {
                next_round,
                assignments: self.assignments_for_round(next_round),
            },
        )
    }

    /// Why moving to `next_round` is refused, if it is.
    pub open spec fn commit_block(&self, next_round: int) -> Option<GameError> {
        if self.phase != GamePhase::InProgress {
            Some(GameError::NotInProgress)
        } else if self.is_short_mode() {
            if self.current_round != 0 || next_round != 1 {
                Some(GameError::StaleRoundTransition)
            } else if self.submitted().len() != self.n() {
                Some(GameError::RoundNotComplete)
            } else {
                None
            }
        } else if self.submitted().len() != self.n() {
            Some(GameError::RoundNotComplete)
        } else if next_round != self.current_round + 1 || next_round >= self.spec_total_rounds() {
            Some(GameError::StaleRoundTransition)
        } else {
            None
        }
    }

    /// What `commit_next_round` does.
    pub open spec fn commit_outcome(old: Game, new: Game, next_round: usize, r: Result<(), GameError>) -> bool {
        &&& (match old.commit_block(next_round as int) {
                Some(e) => r == Err::<(), GameError>(e) && new == old,
                None => {
                    &&& r is Ok
                    &&& new.current_round == next_round
                    &&& new.submitted().is_empty()
                    &&& new == (Game {
                        current_round: next_round,
                        submitted_this_round: new.submitted_this_round,
                        ..old
                    })
                },
            })
    }

    /// Moves to the next round once its assignments were delivered.
    pub fn commit_next_round(&mut self, next_round: usize) -> (r: Result<(), GameError>)
        requires
            old(self).wf(),
        ensures
            final(self).wf(),
            Game::commit_outcome(*old(self), *final(self), next_round, r),
    {
        if self.is_short() {
            if self.phase != GamePhase::InProgress {
                return Err(GameError::NotInProgress);
            }
            if self.current_round != 0 || next_round != 1 {
                return Err(GameError::StaleRoundTransition);
            }
            if self.submitted_this_round.len() != self.players.len() {
                return Err(GameError::RoundNotComplete);
            }
            proof {
                lemma_subset_of_players(self.players@, self.submitted_this_round@);
                assert forall|i: int| 0 <= i < self.n() implies find_prompt(
                    mode_prompts(self.mode),
                    #[trigger] self.players@[i],
                ) is Some by {
                    assert(self.submitted_this_round@.contains(self.players@[i]));
                }
            }
            self.current_round = 1;
            self.submitted_this_round.clear();
            return Ok(());
        }
        if self.phase != GamePhase::InProgress {
            return Err(GameError::NotInProgress);
        }
        if self.submitted_this_round.len() != self.players.len() {
            return Err(GameError::RoundNotComplete);
        }
        if next_round != self.current_round + 1 || next_round >= self.total_rounds() {
            return Err(GameError::StaleRoundTransition);
        }
        proof {
            let g = *self;
            lemma_subset_of_players(g.players@, g.submitted_this_round@);
            assert forall|c: int| 0 <= c < g.n() implies #[trigger] g.chains@[c].entries@.len()
                == g.current_round + 1 by {
                lemma_chain_author_inverse(g.n(), g.current_round as int);
                let a = author_for(g.n(), c, g.current_round as int);
                assert(g.submitted().contains(g.players@[a]));
            }
        }
        let ghost before = *self;
        self.current_round = next_round;
        self.submitted_this_round.clear();
        proof {
            Game::lemma_history_frame(before, *self);
            assert forall|c: int| 0 <= c < self.n() implies #[trigger] self.chains@[c].entries@.len()
                == self.current_round + (if self.submitted().contains(
                self.players@[author_for(self.n(), c, self.current_round as int)],
            ) {
                1int
            } else {
                0int
            }) by {
                assert(before.chains@[c].entries@.len() == before.current_round + 1);
            }
        }
        Ok(())
    }

    /// The chain history only depends on the players and the chains.
    pub proof fn lemma_history_frame(a: Game, b: Game)
        requires
            a.chain_history_ok(),
            a.players@ == b.players@,
            a.chains@ == b.chains@,
        ensures
            b.chain_history_ok(),
    {
        assert forall|c: int, r: int|
            0 <= c < b.n() && 0 <= r < b.chains@[c].entries@.len() implies #[trigger] b.entry_fits(
            c,
            r,
        ) by {
            assert(a.entry_fits(c, r));
        }
    }

    /// `wf` only looks at the game's rules state, not at its setup fields.
    pub proof fn lemma_wf_frame(a: Game, b: Game)
        requires
            a.wf(),
            a.host_id == b.host_id,
            a.phase == b.phase,
            a.players@ == b.players@,
            a.current_round == b.current_round,
            a.chains@ == b.chains@,
            a.mode == b.mode,
            b.unready().finite(),
            a.submitted() == b.submitted(),
        ensures
            b.wf(),
    {
        if !a.is_short_mode() && (a.phase == GamePhase::InProgress || a.phase
            == GamePhase::Finished) {
            assert forall|c: int, r: int|
                0 <= c < b.n() && 0 <= r < b.chains@[c].entries@.len() implies #[trigger] b.entry_fits(
                c,
                r,
            ) by {
                assert(a.entry_fits(c, r));
            }
        }
    }
}

} // verus!
