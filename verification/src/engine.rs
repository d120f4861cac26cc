use vstd::prelude::*;
use vstd::multiset::Multiset;

use crate::dictionary::Dictionary;
use crate::grid::{grid_wf, GridGenerator, Position, GRID_SIZE};
use crate::lobby::{
    spec_connected_count, Lobby, LobbyPlayer, LobbyRegistry, PlayerConnectionState,
};
use crate::rng::random_below;
use crate::scorer::{path_in_grid, spec_gem_count, spec_word_score, Scorer};
use crate::session::{GamePlayer, GameState, GameStatus};
use crate::strutil::spec_upper;
use crate::validator::{
    spec_path_distinct, spec_path_in_bounds, spec_path_letters, spec_valid_path, WordValidator,
};

verus! {

/// The smallest number of connected players a game needs.
pub const MIN_PLAYERS: usize = 2;

/// The largest number of players a game seats.
pub const MAX_PLAYERS: usize = 6;

/// The default number of rounds.
pub const DEFAULT_TOTAL_ROUNDS: u8 = 5;

/// Why a game command was refused.
#[derive(Debug, Clone, Copy, PartialEq, Eq, Structural)]
pub enum GameErrorCode {
    LobbyNotFound,
    NotHost,
    GameInProgress,
    NotEnoughPlayers,
    TooManyPlayers,
    NotYourTurn,
    NoActiveGame,
    GameNotFound,
    DatabaseError,
    SerializationError,
    NotInLobby,
}

/// A distinct path within the board holds at most 25 positions.
pub proof fn lemma_path_len_bound(ps: Seq<Position>)
    requires
        spec_path_distinct(ps),
        spec_path_in_bounds(ps),
    ensures
        ps.len() <= 25,
{
    let idxs = ps.map_values(|p: Position| (p.row as int) * 5 + (p.col as int));
    assert(idxs.no_duplicates()) by {
        assert forall|i: int, j: int|
            0 <= i < idxs.len() && 0 <= j < idxs.len() && i != j implies idxs[i] != idxs[j] by {
            if i < j {
                assert(ps[i] != ps[j]);
            } else {
                assert(ps[j] != ps[i]);
            }
            assert(ps[i].row < 5 && ps[i].col < 5);
            assert(ps[j].row < 5 && ps[j].col < 5);
        }
    }
    idxs.unique_seq_to_set();
    assert(idxs.to_set().subset_of(vstd::set_lib::set_int_range(0, 25))) by {
        assert forall|x: int| idxs.to_set().contains(x) implies vstd::set_lib::set_int_range(
            0,
            25,
        ).contains(x) by {
            assert(idxs.contains(x));
            let w = choose|w: int| 0 <= w < idxs.len() && idxs[w] == x;
            assert(ps[w].row < 5 && ps[w].col < 5);
        }
    }
    vstd::set_lib::lemma_int_range(0, 25);
    vstd::set_lib::lemma_len_subset(idxs.to_set(), vstd::set_lib::set_int_range(0, 25));
}

/// A copy of a seated player.
fn clone_player(p: &GamePlayer) -> (r: GamePlayer)
    ensures
        r == *p,
{
    GamePlayer {
        user_id: p.user_id,
        username: p.username.clone(),
        avatar_url: match &p.avatar_url {
            Some(a) => Some(a.clone()),
            None => None,
        },
        score: p.score,
        turn_order: p.turn_order,
        is_connected: p.is_connected,
    }
}

proof fn lemma_swap_remove_multiset(s: Seq<GamePlayer>, j: int)
    requires
        0 <= j < s.len(),
    ensures
        s.update(j, s.last()).drop_last().to_multiset() =~= s.to_multiset().remove(s[j]),
{
    broadcast use vstd::seq_lib::group_to_multiset_ensures;
    broadcast use vstd::seq_lib::to_multiset_update;
    broadcast use vstd::multiset::group_multiset_axioms;

    let u = s.update(j, s.last());
    if j == s.len() - 1 {
        assert(u =~= s);
        assert(u.drop_last() =~= s.remove(s.len() - 1));
        assert(s.remove(s.len() - 1).to_multiset() =~= s.to_multiset().remove(s[j]));
    } else {
        assert(u.drop_last() =~= u.remove(u.len() - 1));
        assert(u.to_multiset() =~= s.to_multiset().remove(s[j]).insert(s.last()));
        assert(u.remove(u.len() - 1).to_multiset() =~= u.to_multiset().remove(u[u.len() - 1]));
        assert(u[u.len() - 1] == s.last());
        assert(s.to_multiset().remove(s[j]).insert(s.last()).remove(s.last())
            =~= s.to_multiset().remove(s[j]));
    }
}

/// Shuffle the players uniformly at random: repeatedly draw one of the
/// remaining players. The result holds exactly the same players.
#[verifier::loop_isolation(false)]
pub fn shuffle_players(players: Vec<GamePlayer>) -> (r: Vec<GamePlayer>)
    ensures
        r@.to_multiset() == players@.to_multiset(),
        r@.len() == players@.len(),
{
    broadcast use vstd::seq_lib::group_to_multiset_ensures;
    broadcast use vstd::multiset::group_multiset_axioms;

    let ghost orig = players@;
    let mut src = players;
    let mut out: Vec<GamePlayer> = Vec::new();
    while src.len() > 0
        invariant
            out@.to_multiset().add(src@.to_multiset()) =~= orig.to_multiset(),
            out@.len() + src@.len() == orig.len(),
        decreases src@.len(),
    {
        let ghost s0 = src@;
        let ghost o0 = out@;
        let j = random_below(src.len());
        let p = src.swap_remove(j);
        proof {
            lemma_swap_remove_multiset(s0, j as int);
            assert(s0.contains(s0[j as int]));
            assert(s0.to_multiset().count(p) > 0);
        }
        out.push(p);
        proof {
            assert(out@ =~= o0.push(p));
            assert(out@.to_multiset() =~= o0.to_multiset().insert(p));
            assert(out@.to_multiset().add(src@.to_multiset()) =~= orig.to_multiset());
        }
    }
    proof {
        assert(src@.to_multiset() =~= Multiset::<GamePlayer>::empty()) by {
            assert(src@ =~= Seq::<GamePlayer>::empty());
        }
        assert(out@.to_multiset().add(Multiset::<GamePlayer>::empty()) =~= out@.to_multiset());
    }
    out
}

/// A player value with its turn order cleared, for comparing seatings
/// that differ only in assigned turn orders.
pub open spec fn spec_clear_turn(p: GamePlayer) -> GamePlayer {
    GamePlayer {
        user_id: p.user_id,
        username: p.username,
        avatar_url: p.avatar_url,
        score: p.score,
        turn_order: 0,
        is_connected: p.is_connected,
    }
}

/// Give each player the turn order of their seat.
pub fn assign_turn_orders(players: &mut Vec<GamePlayer>)
    requires
        old(players)@.len() <= 255,
    ensures
        final(players)@.len() == old(players)@.len(),
        forall|k: int|
            0 <= k < final(players)@.len() ==> (#[trigger] final(players)@[k]) == (GamePlayer {
                turn_order: k as u8,
                ..old(players)@[k]
            }),
{
    let n = players.len();
    let mut i: usize = 0;
    while i < n
        invariant
            n == players@.len(),
            n == old(players)@.len(),
            n <= 255,
            0 <= i <= n,
            forall|k: int|
                0 <= k < i ==> (#[trigger] players@[k]) == (GamePlayer {
                    turn_order: k as u8,
                    ..old(players)@[k]
                }),
            forall|k: int| i <= k < n ==> (#[trigger] players@[k]) == old(players)@[k],
        decreases n - i,
    {
        let p = &mut players[i];
        p.turn_order = i as u8;
        i = i + 1;
    }
}

/// The connected members of a lobby, seated as fresh players: score
/// zero, turn order not yet assigned.
pub open spec fn spec_seated(ps: Seq<LobbyPlayer>) -> Seq<GamePlayer>
    decreases ps.len(),
{
    if ps.len() == 0 {
        Seq::empty()
    } else if ps.last().connection_state == PlayerConnectionState::Connected {
        spec_seated(ps.drop_last()).push(
            GamePlayer {
                user_id: ps.last().user_id,
                username: ps.last().username,
                avatar_url: ps.last().avatar_url,
                score: 0,
                turn_order: 0,
                is_connected: true,
            },
        )
    } else {
        spec_seated(ps.drop_last())
    }
}

/// Seat the connected members of a lobby.
fn seat_connected_players(lobby: &Lobby) -> (r: Vec<GamePlayer>)
    ensures
        r@ == spec_seated(lobby.players@),
{
    let ghost ps = lobby.players@;
    let mut out: Vec<GamePlayer> = Vec::new();
    let mut i: usize = 0;
    while i < lobby.players.len()
        invariant
            ps == lobby.players@,
            0 <= i <= ps.len(),
            out@ == spec_seated(ps.take(i as int)),
        decreases ps.len() - i,
    {
        proof {
            assert(ps.take(i as int + 1).drop_last() =~= ps.take(i as int));
        }
        let p = &lobby.players[i];
        if p.is_connected() {
            out.push(
                GamePlayer {
                    user_id: p.user_id,
                    username: p.username.clone(),
                    avatar_url: match &p.avatar_url {
                        Some(a) => Some(a.clone()),
                        None => None,
                    },
                    score: 0,
                    turn_order: 0,
                    is_connected: true,
                },
            );
        }
        i = i + 1;
    }
    proof {
        assert(ps.take(ps.len() as int) =~= ps);
    }
    out
}

/// Seating exactly follows the connected count.
proof fn lemma_seated_len(ps: Seq<LobbyPlayer>)
    ensures
        spec_seated(ps).len() == spec_connected_count(ps),
    decreases ps.len(),
{
    if ps.len() > 0 {
        lemma_seated_len(ps.drop_last());
    }
}

/// Check a start request and claim the lobby's start slot: the sender
/// must host the lobby, no game may be running or starting, and the
/// connected player count must seat a game. On success the lobby's
/// start-in-flight mark is set and the seated players are returned,
/// shuffled, with turn orders assigned. A refusal leaves every lobby
/// unchanged: a non-host request never mutates anything.
pub fn prepare_start_game(reg: &mut LobbyRegistry, lobby_id: &str, user_id: i64) -> (r: Result<
    Vec<GamePlayer>,
    GameErrorCode,
>)
    requires
        old(reg).wf(),
    ensures
        final(reg).wf(),
        match r {
            Ok(players) => {
                &&& exists|i: int|
                    {
                        &&& 0 <= i < old(reg).lobbies@.len()
                        &&& (#[trigger] old(reg).lobbies@[i]).lobby_id@ == lobby_id@
                        &&& old(reg).lobbies@[i].host_id == Some(user_id)
                        &&& old(reg).lobbies@[i].active_game_id is None
                        &&& !old(reg).lobbies@[i].game_starting
                        &&& final(reg).lobbies@ == old(reg).lobbies@.update(
                            i,
                            Lobby { game_starting: true, ..old(reg).lobbies@[i] },
                        )
                        &&& MIN_PLAYERS <= spec_connected_count(old(reg).lobbies@[i].players@)
                            <= MAX_PLAYERS
                        &&& players@.map_values(|p: GamePlayer| spec_clear_turn(p)).to_multiset()
                            == spec_seated(old(reg).lobbies@[i].players@).to_multiset()
                    }
                &&& MIN_PLAYERS <= players@.len() <= MAX_PLAYERS
                &&& forall|k: int|
                    0 <= k < players@.len() ==> (#[trigger] players@[k]).turn_order == k
                        && players@[k].score == 0 && players@[k].is_connected
            },
            Err(code) => {
                &&& final(reg).lobbies@ == old(reg).lobbies@
                &&& match code {
                    GameErrorCode::LobbyNotFound => !old(reg).spec_has_lobby(lobby_id@),
                    GameErrorCode::NotHost => exists|i: int|
                        0 <= i < old(reg).lobbies@.len() && (
                        #[trigger] old(reg).lobbies@[i]).lobby_id@ == lobby_id@ && old(
                            reg,
                        ).lobbies@[i].host_id != Some(user_id),
                    GameErrorCode::GameInProgress => exists|i: int|
                        0 <= i < old(reg).lobbies@.len() && (
                        #[trigger] old(reg).lobbies@[i]).lobby_id@ == lobby_id@ && (old(
                            reg,
                        ).lobbies@[i].active_game_id is Some || old(
                            reg,
                        ).lobbies@[i].game_starting),
                    GameErrorCode::NotEnoughPlayers => exists|i: int|
                        0 <= i < old(reg).lobbies@.len() && (
                        #[trigger] old(reg).lobbies@[i]).lobby_id@ == lobby_id@
                            && spec_connected_count(old(reg).lobbies@[i].players@)
                            < MIN_PLAYERS,
                    GameErrorCode::TooManyPlayers => exists|i: int|
                        0 <= i < old(reg).lobbies@.len() && (
                        #[trigger] old(reg).lobbies@[i]).lobby_id@ == lobby_id@
                            && spec_connected_count(old(reg).lobbies@[i].players@)
                            > MAX_PLAYERS,
                    _ => false,
                }
            },
        },
{
    let idx = match reg.find_index(lobby_id) {
        None => {
            return Err(GameErrorCode::LobbyNotFound);
        },
        Some(i) => i,
    };
    let ghost s0 = reg.lobbies@;
    let ghost gi = idx as int;
    // host check and connected count, read-only
    let is_host = reg.lobbies[idx].is_host(user_id);
    if !is_host {
        return Err(GameErrorCode::NotHost);
    }
    let idle = {
        let l = &reg.lobbies[idx];
        match l.active_game_id {
            Some(_) => false,
            None => !l.game_starting,
        }
    };
    if !idle {
        return Err(GameErrorCode::GameInProgress);
    }
    let count = reg.lobbies[idx].connected_player_count();
    if count < MIN_PLAYERS {
        return Err(GameErrorCode::NotEnoughPlayers);
    }
    if count > MAX_PLAYERS {
        return Err(GameErrorCode::TooManyPlayers);
    }
    let seated = seat_connected_players(&reg.lobbies[idx]);
    proof {
        lemma_seated_len(s0[gi].players@);
    }
    let claimed = reg.try_start_game(lobby_id);
    proof {
        if !claimed {
            assert(s0[gi].lobby_id@ == lobby_id@);
            assert(s0[gi].active_game_id is Some || s0[gi].game_starting);
        }
    }
    assert(claimed);
    proof {
        let w = choose|w: int|
            {
                &&& 0 <= w < s0.len()
                &&& (#[trigger] s0[w]).lobby_id@ == lobby_id@
                &&& s0[w].active_game_id is None
                &&& !s0[w].game_starting
                &&& reg.lobbies@ == s0.update(w, Lobby { game_starting: true, ..s0[w] })
            };
        assert(w == gi) by {
            if w != gi {
                assert(s0[w].lobby_id@ != s0[gi].lobby_id@);
            }
        }
    }
    let mut players = shuffle_players(seated);
    let ghost shuffled = players@;
    assign_turn_orders(&mut players);
    proof {
        broadcast use vstd::seq_lib::group_to_multiset_ensures;

        let base = spec_seated(s0[gi].players@);
        lemma_seated_fields(s0[gi].players@);
        let cleared = players@.map_values(|p: GamePlayer| spec_clear_turn(p));
        assert forall|k: int| 0 <= k < shuffled.len() implies spec_clear_turn(
            #[trigger] shuffled[k],
        ) == shuffled[k] && shuffled[k].score == 0 && shuffled[k].is_connected by {
            assert(shuffled.contains(shuffled[k]));
            assert(shuffled.to_multiset().count(shuffled[k]) > 0);
            assert(base.to_multiset().count(shuffled[k]) > 0);
            assert(base.contains(shuffled[k]));
        }
        assert(cleared =~= shuffled);
        assert(cleared.to_multiset() == base.to_multiset());
        assert forall|k: int| 0 <= k < players@.len() implies (#[trigger] players@[k]).turn_order
            == k && players@[k].score == 0 && players@[k].is_connected by {
            assert(players@[k] == (GamePlayer { turn_order: k as u8, ..shuffled[k] }));
        }
    }
    Ok(players)
}

/// Every seated player starts with no score, no turn order, connected.
proof fn lemma_seated_fields(ps: Seq<LobbyPlayer>)
    ensures
        forall|k: int|
            0 <= k < spec_seated(ps).len() ==> (#[trigger] spec_seated(ps)[k]).turn_order == 0
                && spec_seated(ps)[k].score == 0 && spec_seated(ps)[k].is_connected,
    decreases ps.len(),
{
    if ps.len() > 0 {
        lemma_seated_fields(ps.drop_last());
    }
}

/// Put a freshly built session in play.
pub fn activate_session(s: &mut GameState)
    requires
        old(s).wf(),
        old(s).players@.len() > 0,
        old(s).current_player_index < old(s).players@.len(),
    ensures
        final(s).wf(),
        *final(s) == (GameState { status: GameStatus::InProgress, ..*old(s) }),
{
    s.status = GameStatus::InProgress;
    proof {
        assert forall|i: int, j: int|
            0 <= i < j < s.spec_used_words().len() implies s.spec_used_words()[i]
            != s.spec_used_words()[j] by {
            assert(s.spec_used_words() == old(s).spec_used_words());
            assert(old(s).spec_used_words()[i] != old(s).spec_used_words()[j]);
        }
    }
}

/// `w` names the winner among the seats `ps`: nobody when there are no
/// seats, else the id of a seat with the highest score, the earliest such
/// seat on ties.
pub open spec fn spec_winner_of(ps: Seq<GamePlayer>, w: Option<i64>) -> bool {
    match w {
        None => ps.len() == 0,
        Some(uid) => exists|k: int|
            {
                &&& 0 <= k < ps.len()
                &&& (#[trigger] ps[k]).user_id == uid
                &&& forall|j: int| 0 <= j < ps.len() ==> (#[trigger] ps[j]).score <= ps[k].score
                &&& forall|j: int| 0 <= j < k ==> (#[trigger] ps[j]).score < ps[k].score
            },
    }
}

/// The winner among the seated players: the highest score, and among
/// equal scores the earliest seat (the lowest turn order).
pub fn compute_winner(players: &Vec<GamePlayer>) -> (w: Option<i64>)
    ensures
        spec_winner_of(players@, w),
{
    if players.len() == 0 {
        return None;
    }
    let mut best: usize = 0;
    let mut i: usize = 1;
    while i < players.len()
        invariant
            0 <= best < i <= players@.len(),
            forall|j: int|
                0 <= j < i ==> (#[trigger] players@[j]).score <= players@[best as int].score,
            forall|j: int|
                0 <= j < best ==> (#[trigger] players@[j]).score < players@[best as int].score,
        decreases players@.len() - i,
    {
        if players[i].score > players[best].score {
            best = i;
        }
        i = i + 1;
    }
    Some(players[best].user_id)
}

/// Advance the turn after a move: the next seat plays; when the turn
/// wraps past the last seat the round increments, and a wrap out of the
/// final round finishes the game and names the winner.
pub fn advance_after_move(s: &mut GameState) -> (r: (bool, Option<i64>))
    requires
        old(s).wf(),
        old(s).status == GameStatus::InProgress,
        old(s).current_round <= old(s).total_rounds,
    ensures
        final(s).wf(),
        final(s).players == old(s).players,
        final(s).grid == old(s).grid,
        final(s).spec_used_words() == old(s).spec_used_words(),
        final(s).total_rounds == old(s).total_rounds,
        final(s).game_id == old(s).game_id,
        r.0 == (old(s).current_player_index == old(s).players@.len() - 1 && old(s).current_round
            >= old(s).total_rounds),
        r.0 ==> final(s).status == GameStatus::Finished && final(s).current_round == old(s).current_round && spec_winner_of(old(s).players@, r.1),
        !r.0 ==> final(s).status == GameStatus::InProgress && r.1 is None && final(s).current_player_index == (old(s).current_player_index + 1) % (old(s).players@.len() as int)
            && final(s).current_round == (if old(s).current_player_index == old(s).players@.len() - 1 {
            old(s).current_round + 1
        } else {
            old(s).current_round as int
        }),
{
    let n = s.players.len();
    let current = s.current_player_index;
    let next = (current + 1) % n;
    let wrapped = next < current || (next == 0 && current == n - 1);
    assert(wrapped == (current == n - 1)) by {
        if current < n - 1 {
            assert(next == current + 1) by {
                assert((current + 1) < n);
                vstd::arithmetic::div_mod::lemma_small_mod((current + 1) as nat, n as nat);
            };
        } else {
            assert((current + 1) % (n as int) == 0) by {
                assert(current + 1 == n);
                vstd::arithmetic::div_mod::lemma_mod_self_0(n as int);
            };
        }
    };
    let r = if wrapped && s.current_round >= s.total_rounds {
        s.status = GameStatus::Finished;
        let winner = compute_winner(&s.players);
        (true, winner)
    } else {
        if wrapped {
            s.current_round = s.current_round + 1;
        }
        s.current_player_index = next;
        (false, None)
    };
    proof {
        assert forall|i: int, j: int|
            0 <= i < j < s.spec_used_words().len() implies s.spec_used_words()[i]
            != s.spec_used_words()[j] by {
            assert(s.spec_used_words() == old(s).spec_used_words());
            assert(old(s).spec_used_words()[i] != old(s).spec_used_words()[j]);
        }
    }
    r
}

/// How a word submission was answered.
#[derive(Debug, Clone, Copy, PartialEq, Eq, Structural)]
pub enum SubmitOutcome {
    /// The sender is not the player whose turn it is
    NotYourTurn,
    /// The traced positions do not form a valid path
    InvalidPath,
    /// The word is not in the dictionary
    WordNotFound,
    /// The word was already played this game
    WordAlreadyUsed,
    /// The letters along the path do not spell the word
    LettersMismatch,
    /// The move was accepted and scored
    Accepted { score: i32, gems_collected: i32, game_over: bool, winner: Option<i64> },
}

/// How a pass was answered.
#[derive(Debug, Clone, Copy, PartialEq, Eq, Structural)]
pub enum PassOutcome {
    /// The sender is not the player whose turn it is
    NotYourTurn,
    /// The turn moved on
    Passed { game_over: bool, winner: Option<i64> },
}

/// Apply one word submission to the authoritative session. All
/// validations run before any mutation: on any refusal the session is
/// exactly as it was. An accepted move adds exactly the word's score to
/// the mover, records the word, replaces the played letters, and
/// advances the turn.
#[verifier::rlimit(100)]
pub fn apply_submit_word(
    s: &mut GameState,
    dict: &Dictionary,
    user_id: i64,
    word: &str,
    positions: &[Position],
) -> (r: SubmitOutcome)
    requires
        old(s).wf(),
        old(s).status == GameStatus::InProgress,
        grid_wf(old(s).grid.deep_view()),
        old(s).current_round <= old(s).total_rounds,
        forall|k: int|
            0 <= k < old(s).players@.len() ==> (#[trigger] old(s).players@[k]).score
                <= 2000000000,
    ensures
        final(s).wf(),
        match r {
            SubmitOutcome::NotYourTurn => *final(s) == *old(s) && old(s).players@[old(s).current_player_index as int].user_id != user_id,
            SubmitOutcome::InvalidPath => *final(s) == *old(s) && old(s).players@[old(s).current_player_index as int].user_id == user_id && !spec_valid_path(positions@),
            SubmitOutcome::WordNotFound => *final(s) == *old(s) && old(s).players@[old(s).current_player_index as int].user_id == user_id && spec_valid_path(positions@)
                && !dict.spec_words().contains(spec_upper(word@)),
            SubmitOutcome::WordAlreadyUsed => *final(s) == *old(s) && old(s).players@[old(s).current_player_index as int].user_id == user_id && spec_valid_path(positions@)
                && dict.spec_words().contains(spec_upper(word@)) && old(s).spec_used_words().contains(spec_upper(word@)),
            SubmitOutcome::LettersMismatch => *final(s) == *old(s) && old(s).players@[old(s).current_player_index as int].user_id == user_id && spec_valid_path(positions@)
                && dict.spec_words().contains(spec_upper(word@)) && !old(s).spec_used_words().contains(spec_upper(word@)) && spec_upper(word@) != spec_upper(
                spec_path_letters(old(s).grid.deep_view(), positions@),
            ),
            SubmitOutcome::Accepted { score, gems_collected, game_over, winner } => {
                let idx = old(s).current_player_index as int;
                let n = old(s).players@.len();
                &&& old(s).players@[idx].user_id == user_id
                &&& spec_valid_path(positions@)
                &&& dict.spec_words().contains(spec_upper(word@))
                &&& !old(s).spec_used_words().contains(spec_upper(word@))
                &&& spec_upper(word@) == spec_upper(
                    spec_path_letters(old(s).grid.deep_view(), positions@),
                )
                &&& score == spec_word_score(old(s).grid.deep_view(), positions@)
                &&& gems_collected == spec_gem_count(old(s).grid.deep_view(), positions@)
                &&& final(s).players@.len() == n
                &&& final(s).players@[idx].score == old(s).players@[idx].score + score
                &&& final(s).players@[idx].user_id == user_id
                &&& forall|k: int|
                    0 <= k < n && k != idx ==> final(s).players@[k] == old(s).players@[k]
                &&& final(s).spec_used_words() == old(s).spec_used_words().push(
                    spec_upper(word@),
                )
                &&& grid_wf(final(s).grid.deep_view())
                &&& forall|r2: int, c2: int|
                    0 <= r2 < GRID_SIZE && 0 <= c2 < GRID_SIZE ==> {
                        if crate::grid::pos_covers(positions@, positions@.len() as int, r2, c2) {
                            crate::grid::fresh_cell(#[trigger] final(s).grid.deep_view()[r2][c2])
                        } else {
                            final(s).grid.deep_view()[r2][c2] == old(s).grid.deep_view()[r2][c2]
                        }
                    }
                &&& game_over == (idx == n - 1 && old(s).current_round >= old(s).total_rounds)
                &&& (game_over ==> final(s).status == GameStatus::Finished && spec_winner_of(
                    final(s).players@,
                    winner,
                ))
                &&& (!game_over ==> winner is None)
                &&& (!game_over ==> final(s).status == GameStatus::InProgress && final(s).current_player_index == (idx + 1) % (n as int) && final(s).current_round == (if idx == n
                    - 1 {
                    old(s).current_round + 1
                } else {
                    old(s).current_round as int
                }))
                &&& final(s).total_rounds == old(s).total_rounds
                &&& final(s).game_id == old(s).game_id
            },
        },
{
    let ghost g0 = s.grid.deep_view();
    let idx = s.current_player_index;
    if s.players[idx].user_id != user_id {
        return SubmitOutcome::NotYourTurn;
    }
    let validator = WordValidator::new(Dictionary::empty());
    if !validator.is_valid_path(&s.grid, positions) {
        return SubmitOutcome::InvalidPath;
    }
    proof {
        lemma_path_len_bound(positions@);
        assert(path_in_grid(g0, positions@)) by {
            assert(forall|k: int|
                0 <= k < positions@.len() ==> (#[trigger] positions@[k]).row < GRID_SIZE
                    && positions@[k].col < GRID_SIZE);
        }
    }
    if !dict.contains(word) {
        return SubmitOutcome::WordNotFound;
    }
    if s.is_word_used(word) {
        return SubmitOutcome::WordAlreadyUsed;
    }
    if !WordValidator::word_matches_path(&s.grid, word, positions) {
        return SubmitOutcome::LettersMismatch;
    }
    let result = Scorer::calculate_score_with_gems(&s.grid, positions);
    proof {
        crate::scorer::lemma_word_score_bounds(g0, positions@);
    }
    let ghost before_players = s.players@;
    // credit the mover
    let moved = clone_player(&s.players[idx]);
    let credited = GamePlayer { score: moved.score + result.score, ..moved };
    s.players.set(idx, credited);
    // record the word
    s.mark_word_used(word);
    // replace the played letters
    GridGenerator::replace_letters(&mut s.grid, positions);
    proof {
        assert(s.wf()) by {
            assert(forall|k: int|
                0 <= k < s.players@.len() ==> (#[trigger] s.players@[k]).user_id
                    == before_players[k].user_id);
        }
    }
    // advance the turn
    let (game_over, winner) = advance_after_move(s);
    SubmitOutcome::Accepted { score: result.score, gems_collected: result.gems_collected, game_over, winner }
}

/// Apply a pass to the authoritative session: no scoring, no word, no
/// letter replacement; the turn simply advances.
pub fn apply_pass_turn(s: &mut GameState, user_id: i64) -> (r: PassOutcome)
    requires
        old(s).wf(),
        old(s).status == GameStatus::InProgress,
        old(s).current_round <= old(s).total_rounds,
    ensures
        final(s).wf(),
        match r {
            PassOutcome::NotYourTurn => *final(s) == *old(s) && old(s).players@[old(s).current_player_index as int].user_id != user_id,
            PassOutcome::Passed { game_over, winner } => {
                let idx = old(s).current_player_index as int;
                let n = old(s).players@.len();
                &&& old(s).players@[idx].user_id == user_id
                &&& final(s).players == old(s).players
                &&& final(s).grid == old(s).grid
                &&& final(s).spec_used_words() == old(s).spec_used_words()
                &&& game_over == (idx == n - 1 && old(s).current_round >= old(s).total_rounds)
                &&& (game_over ==> final(s).status == GameStatus::Finished && spec_winner_of(
                    final(s).players@,
                    winner,
                ))
                &&& (!game_over ==> winner is None)
                &&& (!game_over ==> final(s).status == GameStatus::InProgress && final(s).current_player_index == (idx + 1) % (n as int) && final(s).current_round == (if idx == n
                    - 1 {
                    old(s).current_round + 1
                } else {
                    old(s).current_round as int
                }))
                &&& final(s).total_rounds == old(s).total_rounds
                &&& final(s).game_id == old(s).game_id
            },
        },
{
    let idx = s.current_player_index;
    if s.players[idx].user_id != user_id {
        return PassOutcome::NotYourTurn;
    }
    let (game_over, winner) = advance_after_move(s);
    PassOutcome::Passed { game_over, winner }
}

} // verus!
