use vstd::prelude::*;

use crate::grid::Grid;
use crate::strutil::{spec_upper, to_upper};

verus! {

/// The mode a game is played in.
#[derive(Debug, Clone, Copy, PartialEq, Eq, Structural)]
pub enum GameMode {
    Multiplayer,
    TwoVTwo,
    Adventure,
}

/// Database persistence state for games.
#[derive(Debug, Clone, Copy, PartialEq, Eq, Structural)]
pub enum GameDbState {
    Waiting,
    Active,
    Finished,
    Cancelled,
}

impl GameDbState {
    /// The name the store keeps for this state.
    pub fn db_name(&self) -> (r: &'static str)
        ensures
            r@ == self.spec_db_name(),
    {
        proof {
            reveal_strlit("waiting");
            reveal_strlit("active");
            reveal_strlit("finished");
            reveal_strlit("cancelled");
        }
        match self {
            GameDbState::Waiting => "waiting",
            GameDbState::Active => "active",
            GameDbState::Finished => "finished",
            GameDbState::Cancelled => "cancelled",
        }
    }

    /// The name the store keeps for this state.
    pub open spec fn spec_db_name(&self) -> Seq<char> {
        match self {
            GameDbState::Waiting => "waiting"@,
            GameDbState::Active => "active"@,
            GameDbState::Finished => "finished"@,
            GameDbState::Cancelled => "cancelled"@,
        }
    }
}

/// Current status of an active game.
#[derive(Debug, Clone, Copy, PartialEq, Eq, Structural)]
pub enum GameStatus {
    /// Game created but not yet started
    WaitingToStart,
    /// Game is actively being played
    InProgress,
    /// Round is ending, showing results (reserved; never entered)
    RoundEnding,
    /// Game has finished
    Finished,
}

impl Default for GameStatus {
    fn default() -> (r: Self)
        ensures
            r == GameStatus::WaitingToStart,
    {
        GameStatus::WaitingToStart
    }
}

/// How a persisted game state reads as a live status.
pub open spec fn spec_status_of_db(s: GameDbState) -> GameStatus {
    match s {
        GameDbState::Waiting => GameStatus::WaitingToStart,
        GameDbState::Active => GameStatus::InProgress,
        GameDbState::Finished => GameStatus::Finished,
        GameDbState::Cancelled => GameStatus::Finished,
    }
}

/// How a persisted game state reads as a live status.
pub fn status_of_db(s: GameDbState) -> (r: GameStatus)
    ensures
        r == spec_status_of_db(s),
{
    match s {
        GameDbState::Waiting => GameStatus::WaitingToStart,
        GameDbState::Active => GameStatus::InProgress,
        GameDbState::Finished => GameStatus::Finished,
        GameDbState::Cancelled => GameStatus::Finished,
    }
}

/// One seated player of a live game.
#[derive(Debug, Clone)]
pub struct GamePlayer {
    /// Stable identifier of the player
    pub user_id: i64,
    /// Display name
    pub username: String,
    /// Avatar URL, if any
    pub avatar_url: Option<String>,
    /// Current total score
    pub score: i32,
    /// Turn order (0-indexed)
    pub turn_order: u8,
    /// Whether the player is currently connected
    pub is_connected: bool,
}

impl GamePlayer {
    pub fn new(user_id: i64, username: String, avatar_url: Option<String>, turn_order: u8) -> (p:
        Self)
        ensures
            p.user_id == user_id,
            p.username == username,
            p.avatar_url == avatar_url,
            p.score == 0,
            p.turn_order == turn_order,
            p.is_connected,
    {
        Self { user_id, username, avatar_url, score: 0, turn_order, is_connected: true }
    }
}

/// The authoritative state of one game session.
pub struct GameState {
    /// Unique game identifier
    pub game_id: u128,
    /// The letter grid
    pub grid: Grid,
    /// All players, in turn order
    pub players: Vec<GamePlayer>,
    /// Current round number (1-indexed)
    pub current_round: u8,
    /// Total number of rounds
    pub total_rounds: u8,
    /// Index into players of the player whose turn it is
    pub current_player_index: usize,
    /// Words played so far, upper-cased, in play order, no duplicates
    pub used_words: Vec<String>,
    /// Which players have submitted this round
    pub round_submissions: Vec<(i64, bool)>,
    /// Current game status
    pub status: GameStatus,
    /// When the game was created, in seconds
    pub created_at: u64,
}

impl GameState {
    /// The words played so far, as character sequences.
    pub open spec fn spec_used_words(&self) -> Seq<Seq<char>> {
        self.used_words@.map_values(|w: String| w@)
    }

    /// Well-formed session state: whenever the game is in progress the
    /// current player index denotes a seated player, the submission table
    /// is aligned with the seats, and no played word repeats.
    pub open spec fn wf(&self) -> bool {
        &&& self.status == GameStatus::InProgress ==> self.current_player_index
            < self.players@.len()
        &&& self.round_submissions@.len() == self.players@.len()
        &&& forall|i: int|
            0 <= i < self.players@.len() ==> (#[trigger] self.round_submissions@[i]).0
                == self.players@[i].user_id
        &&& forall|i: int, j: int|
            0 <= i < j < self.spec_used_words().len() ==> self.spec_used_words()[i]
                != self.spec_used_words()[j]
    }

    /// Create a new game state: round one, first player to move, no words
    /// played, waiting to start.
    pub fn new(game_id: u128, grid: Grid, players: Vec<GamePlayer>, total_rounds: u8, now: u64)
        -> (s: Self)
        ensures
            s.game_id == game_id,
            s.grid == grid,
            s.players == players,
            s.current_round == 1,
            s.total_rounds == total_rounds,
            s.current_player_index == 0,
            s.spec_used_words().len() == 0,
            s.status == GameStatus::WaitingToStart,
            s.created_at == now,
            s.round_submissions@.len() == s.players@.len(),
            forall|i: int|
                0 <= i < s.round_submissions@.len() ==> (#[trigger] s.round_submissions@[i]) == (
                s.players@[i].user_id,
                false,
            ),
            s.wf(),
    {
        let mut round_submissions: Vec<(i64, bool)> = Vec::new();
        let mut i: usize = 0;
        while i < players.len()
            invariant
                0 <= i <= players@.len(),
                round_submissions@.len() == i,
                forall|k: int|
                    0 <= k < i ==> (#[trigger] round_submissions@[k]) == (
                    players@[k].user_id,
                    false,
                ),
            decreases players@.len() - i,
        {
            round_submissions.push((players[i].user_id, false));
            i = i + 1;
        }
        GameState {
            game_id,
            grid,
            players,
            current_round: 1,
            total_rounds,
            current_player_index: 0,
            used_words: Vec::new(),
            round_submissions,
            status: GameStatus::WaitingToStart,
            created_at: now,
        }
    }

    /// The player whose turn it is, if the index denotes a seat.
    pub fn current_player(&self) -> (r: Option<&GamePlayer>)
        ensures
            match r {
                Some(p) => self.current_player_index < self.players@.len() && *p
                    == self.players@[self.current_player_index as int],
                None => self.current_player_index >= self.players@.len(),
            },
    {
        if self.current_player_index < self.players.len() {
            Some(&self.players[self.current_player_index])
        } else {
            None
        }
    }

    /// Whether it is the given player's turn.
    pub fn is_player_turn(&self, player_id: i64) -> (r: bool)
        ensures
            r == (self.current_player_index < self.players@.len()
                && self.players@[self.current_player_index as int].user_id == player_id),
    {
        if self.current_player_index < self.players.len() {
            self.players[self.current_player_index].user_id == player_id
        } else {
            false
        }
    }

    /// A player by their user id.
    pub fn get_player(&self, user_id: i64) -> (r: Option<&GamePlayer>)
        ensures
            match r {
                Some(p) => p.user_id == user_id && exists|i: int|
                    0 <= i < self.players@.len() && (#[trigger] self.players@[i]).user_id
                        == user_id && *p == self.players@[i],
                None => forall|i: int|
                    0 <= i < self.players@.len() ==> (#[trigger] self.players@[i]).user_id
                        != user_id,
            },
    {
        let mut i: usize = 0;
        while i < self.players.len()
            invariant
                0 <= i <= self.players@.len(),
                forall|k: int|
                    0 <= k < i ==> (#[trigger] self.players@[k]).user_id != user_id,
            decreases self.players@.len() - i,
        {
            if self.players[i].user_id == user_id {
                return Some(&self.players[i]);
            }
            i = i + 1;
        }
        None
    }

    /// Whether a word has already been played (case-insensitive).
    pub fn is_word_used(&self, word: &str) -> (r: bool)
        ensures
            r == self.spec_used_words().contains(spec_upper(word@)),
    {
        let upper = to_upper(word);
        let mut i: usize = 0;
        while i < self.used_words.len()
            invariant
                0 <= i <= self.used_words@.len(),
                upper@ == spec_upper(word@),
                forall|k: int| 0 <= k < i ==> self.spec_used_words()[k] != upper@,
            decreases self.used_words@.len() - i,
        {
            if self.used_words[i].eq(&upper) {
                assert(self.spec_used_words()[i as int] == upper@);
                return true;
            }
            i = i + 1;
        }
        false
    }

    /// Record a word as played. The set of played words only ever grows:
    /// the old list stays a prefix of the new one.
    pub fn mark_word_used(&mut self, word: &str)
        ensures
            final(self).spec_used_words().contains(spec_upper(word@)),
            old(self).spec_used_words().is_prefix_of(final(self).spec_used_words()),
            old(self).spec_used_words().contains(spec_upper(word@)) ==> *final(self)
                == *old(self),
            !old(self).spec_used_words().contains(spec_upper(word@)) ==> final(self).spec_used_words() == old(self).spec_used_words().push(spec_upper(word@)),
            final(self).grid == old(self).grid,
            final(self).players == old(self).players,
            final(self).status == old(self).status,
            final(self).current_player_index == old(self).current_player_index,
            final(self).current_round == old(self).current_round,
            final(self).total_rounds == old(self).total_rounds,
            final(self).game_id == old(self).game_id,
            final(self).created_at == old(self).created_at,
            final(self).round_submissions == old(self).round_submissions,
            old(self).wf() ==> final(self).wf(),
    {
        if self.is_word_used(word) {
            return ;
        }
        let upper = to_upper(word);
        let ghost before = self.spec_used_words();
        self.used_words.push(upper);
        proof {
            assert(self.spec_used_words() =~= before.push(spec_upper(word@)));
            assert(before.is_prefix_of(self.spec_used_words()));
            assert(self.spec_used_words().last() == spec_upper(word@));
            if old(self).wf() {
                assert(forall|i: int, j: int|
                    0 <= i < j < self.spec_used_words().len() ==> self.spec_used_words()[i]
                        != self.spec_used_words()[j]) by {
                    assert(forall|i: int|
                        0 <= i < before.len() ==> #[trigger] self.spec_used_words()[i]
                            == before[i]);
                    assert(forall|i: int| 0 <= i < before.len() ==> before[i] != spec_upper(
                        word@,
                    )) by {
                        if exists|i: int| 0 <= i < before.len() && #[trigger] before[i]
                            == spec_upper(word@) {
                            assert(before.contains(spec_upper(word@)));
                        }
                    }
                }
            }
        }
    }

    /// Whether every connected player has submitted this round.
    pub fn is_round_complete(&self) -> (r: bool)
        requires
            self.wf(),
        ensures
            r == forall|i: int|
                0 <= i < self.players@.len() && (#[trigger] self.players@[i]).is_connected
                    ==> self.round_submissions@[i].1,
    {
        let mut i: usize = 0;
        while i < self.players.len()
            invariant
                self.wf(),
                0 <= i <= self.players@.len(),
                forall|k: int|
                    0 <= k < i && (#[trigger] self.players@[k]).is_connected
                        ==> self.round_submissions@[k].1,
            decreases self.players@.len() - i,
        {
            if self.players[i].is_connected && !self.round_submissions[i].1 {
                return false;
            }
            i = i + 1;
        }
        true
    }

    /// Mark a player as having submitted for this round.
    pub fn mark_player_submitted(&mut self, player_id: i64)
        requires
            old(self).wf(),
        ensures
            final(self).wf(),
            final(self).players == old(self).players,
            final(self).spec_used_words() == old(self).spec_used_words(),
            final(self).status == old(self).status,
            forall|i: int|
                0 <= i < final(self).round_submissions@.len() ==> (
                #[trigger] final(self).round_submissions@[i]) == (if old(self).round_submissions@[i].0 == player_id {
                    (player_id, true)
                } else {
                    old(self).round_submissions@[i]
                }),
    {
        let n = self.round_submissions.len();
        let mut i: usize = 0;
        while i < n
            invariant
                n == self.round_submissions@.len(),
                0 <= i <= n,
                self.players == old(self).players,
                self.used_words == old(self).used_words,
                self.status == old(self).status,
                self.current_player_index == old(self).current_player_index,
                self.round_submissions@.len() == old(self).round_submissions@.len(),
                old(self).wf(),
                forall|k: int|
                    0 <= k < n ==> (#[trigger] self.round_submissions@[k]).0 == old(self).round_submissions@[k].0,
                forall|k: int|
                    0 <= k < i ==> (#[trigger] self.round_submissions@[k]) == (if old(self).round_submissions@[k].0 == player_id {
                        (player_id, true)
                    } else {
                        old(self).round_submissions@[k]
                    }),
                forall|k: int|
                    i <= k < n ==> (#[trigger] self.round_submissions@[k]) == old(self).round_submissions@[k],
            decreases n - i,
        {
            if self.round_submissions[i].0 == player_id {
                let ghost before = self.round_submissions@;
                self.round_submissions.set(i, (player_id, true));
            }
            i = i + 1;
        }
        proof {
            assert forall|k: int| 0 <= k < self.players@.len() implies (
            #[trigger] self.round_submissions@[k]).0 == self.players@[k].user_id by {
                assert((old(self).round_submissions@[k]).0 == old(self).players@[k].user_id);
            }
            assert forall|a: int, b: int|
                0 <= a < b < self.spec_used_words().len() implies self.spec_used_words()[a]
                != self.spec_used_words()[b] by {
                assert(self.spec_used_words() =~= old(self).spec_used_words());
                assert(old(self).spec_used_words()[a] != old(self).spec_used_words()[b]);
            }
        }
    }

    /// Reset round submissions for a new round.
    pub fn reset_round_submissions(&mut self)
        requires
            old(self).wf(),
        ensures
            final(self).wf(),
            final(self).players == old(self).players,
            final(self).spec_used_words() == old(self).spec_used_words(),
            final(self).status == old(self).status,
            forall|i: int|
                0 <= i < final(self).round_submissions@.len() ==> (
                #[trigger] final(self).round_submissions@[i]) == (old(self).round_submissions@[i].0, false),
    {
        let n = self.round_submissions.len();
        let mut i: usize = 0;
        while i < n
            invariant
                n == self.round_submissions@.len(),
                n == old(self).round_submissions@.len(),
                0 <= i <= n,
                self.players == old(self).players,
                self.used_words == old(self).used_words,
                self.status == old(self).status,
                self.current_player_index == old(self).current_player_index,
                old(self).wf(),
                forall|k: int|
                    0 <= k < i ==> (#[trigger] self.round_submissions@[k]) == (old(self).round_submissions@[k].0, false),
                forall|k: int|
                    i <= k < n ==> (#[trigger] self.round_submissions@[k]) == old(self).round_submissions@[k],
            decreases n - i,
        {
            let uid = self.round_submissions[i].0;
            self.round_submissions.set(i, (uid, false));
            i = i + 1;
        }
        proof {
            assert forall|k: int| 0 <= k < self.players@.len() implies (
            #[trigger] self.round_submissions@[k]).0 == self.players@[k].user_id by {
                assert((old(self).round_submissions@[k]).0 == old(self).players@[k].user_id);
            }
            assert forall|a: int, b: int|
                0 <= a < b < self.spec_used_words().len() implies self.spec_used_words()[a]
                != self.spec_used_words()[b] by {
                assert(self.spec_used_words() =~= old(self).spec_used_words());
                assert(old(self).spec_used_words()[a] != old(self).spec_used_words()[b]);
            }
        }
    }

    /// Whether the game is finished: all rounds complete, or the status
    /// says so.
    pub fn is_game_finished(&self) -> (r: bool)
        ensures
            r == (self.current_round > self.total_rounds || self.status == GameStatus::Finished),
    {
        self.current_round > self.total_rounds || match self.status {
            GameStatus::Finished => true,
            _ => false,
        }
    }

    /// The number of connected players.
    pub fn connected_player_count(&self) -> (n: usize)
        ensures
            n <= self.players@.len(),
    {
        let mut count: usize = 0;
        let mut i: usize = 0;
        while i < self.players.len()
            invariant
                0 <= i <= self.players@.len(),
                count <= i,
            decreases self.players@.len() - i,
        {
            if self.players[i].is_connected {
                count = count + 1;
            }
            i = i + 1;
        }
        count
    }
}

} // verus!
