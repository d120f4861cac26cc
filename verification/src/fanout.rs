use vstd::prelude::*;

use crate::grid::GridCell;
use crate::lobby::{Lobby, PlayerConnectionState};
use crate::messages::{LobbyPlayerInfo, PlayerInfo, ScoreInfo, ServerMessage};
use crate::session::{GameMode, GameState};
use crate::strutil::{i64_to_string, spec_i64_string};

verus! {

/// A copy of a grid.
#[verifier::loop_isolation(false)]
pub fn clone_grid(g: &Vec<Vec<GridCell>>) -> (r: Vec<Vec<GridCell>>)
    ensures
        r.deep_view() == g.deep_view(),
{
    let mut out: Vec<Vec<GridCell>> = Vec::new();
    let mut i: usize = 0;
    while i < g.len()
        invariant
            0 <= i <= g@.len(),
            out.deep_view().len() == i,
            forall|k: int| 0 <= k < i ==> (#[trigger] out.deep_view()[k]) == g.deep_view()[k],
        decreases g@.len() - i,
    {
        let row = &g[i];
        let mut new_row: Vec<GridCell> = Vec::new();
        let mut c: usize = 0;
        while c < row.len()
            invariant
                row == &g[i as int],
                i < g@.len(),
                0 <= c <= row@.len(),
                new_row@.len() == c,
                forall|k: int| 0 <= k < c ==> (#[trigger] new_row@[k]) == row@[k],
            decreases row@.len() - c,
        {
            new_row.push(row[c]);
            c = c + 1;
        }
        let ghost prev = out.deep_view();
        let ghost rowv = new_row.deep_view();
        out.push(new_row);
        proof {
            assert(rowv =~= g.deep_view()[i as int]);
            assert(out.deep_view() =~= prev.push(rowv));
        }
        i = i + 1;
    }
    proof {
        assert(out.deep_view() =~= g.deep_view());
    }
    out
}

/// A copy of the played words.
fn clone_words(ws: &Vec<String>) -> (r: Vec<String>)
    ensures
        r@.map_values(|w: String| w@) == ws@.map_values(|w: String| w@),
{
    let mut out: Vec<String> = Vec::new();
    let mut i: usize = 0;
    while i < ws.len()
        invariant
            0 <= i <= ws@.len(),
            out@.len() == i,
            forall|k: int| 0 <= k < i ==> (#[trigger] out@[k])@ == ws@[k]@,
        decreases ws@.len() - i,
    {
        out.push(ws[i].clone());
        i = i + 1;
    }
    proof {
        assert(out@.map_values(|w: String| w@) =~= ws@.map_values(|w: String| w@));
    }
    out
}

/// The authoritative snapshot of a session, ready to broadcast: the
/// whole grid, every seat with its score, whose turn it is, the words
/// played, and the round counters.
pub fn snapshot_message(s: &GameState, game_id: String) -> (m: ServerMessage)
    ensures
        m matches ServerMessage::GameState {
            game_id: gid,
            mode,
            round,
            max_rounds,
            grid,
            players,
            current_turn,
            used_words,
            timer_enabled,
            time_remaining,
        } && {
            &&& gid == game_id
            &&& mode == GameMode::Multiplayer
            &&& round == s.current_round as i32
            &&& max_rounds == s.total_rounds as i32
            &&& grid.deep_view() == s.grid.deep_view()
            &&& players@.len() == s.players@.len()
            &&& forall|k: int|
                0 <= k < players@.len() ==> {
                    &&& (#[trigger] players@[k]).user_id == s.players@[k].user_id
                    &&& players@[k].username@ == s.players@[k].username@
                    &&& players@[k].avatar_url == s.players@[k].avatar_url
                    &&& players@[k].score == s.players@[k].score
                    &&& players@[k].team is None
                }
            &&& current_turn == (if s.current_player_index < s.players@.len() {
                Some(s.players@[s.current_player_index as int].user_id)
            } else {
                Option::<i64>::None
            })
            &&& used_words@.map_values(|w: String| w@) == s.spec_used_words()
            &&& !timer_enabled
            &&& time_remaining is None
        },
{
    let mut players: Vec<PlayerInfo> = Vec::new();
    let mut i: usize = 0;
    while i < s.players.len()
        invariant
            0 <= i <= s.players@.len(),
            players@.len() == i,
            forall|k: int|
                0 <= k < i ==> {
                    &&& (#[trigger] players@[k]).user_id == s.players@[k].user_id
                    &&& players@[k].username@ == s.players@[k].username@
                    &&& players@[k].avatar_url == s.players@[k].avatar_url
                    &&& players@[k].score == s.players@[k].score
                    &&& players@[k].team is None
                },
        decreases s.players@.len() - i,
    {
        let p = &s.players[i];
        players.push(
            PlayerInfo {
                user_id: p.user_id,
                username: p.username.clone(),
                avatar_url: match &p.avatar_url {
                    Some(a) => Some(a.clone()),
                    None => None,
                },
                score: p.score,
                team: None,
            },
        );
        i = i + 1;
    }
    let current_turn = if s.current_player_index < s.players.len() {
        Some(s.players[s.current_player_index].user_id)
    } else {
        None
    };
    ServerMessage::GameState {
        game_id,
        mode: GameMode::Multiplayer,
        round: s.current_round as i32,
        max_rounds: s.total_rounds as i32,
        grid: clone_grid(&s.grid),
        players,
        current_turn,
        used_words: clone_words(&s.used_words),
        timer_enabled: false,
        time_remaining: None,
    }
}

/// The ids of the connected members, in order: broadcasts go to exactly
/// these members' queues.
pub open spec fn spec_connected_ids(ps: Seq<crate::lobby::LobbyPlayer>) -> Seq<i64>
    decreases ps.len(),
{
    if ps.len() == 0 {
        Seq::empty()
    } else if ps.last().connection_state == PlayerConnectionState::Connected {
        spec_connected_ids(ps.drop_last()).push(ps.last().user_id)
    } else {
        spec_connected_ids(ps.drop_last())
    }
}

/// The ids of a lobby's connected members.
pub fn connected_user_ids(lobby: &Lobby) -> (r: Vec<i64>)
    ensures
        r@ == spec_connected_ids(lobby.players@),
{
    let ghost ps = lobby.players@;
    let mut out: Vec<i64> = Vec::new();
    let mut i: usize = 0;
    while i < lobby.players.len()
        invariant
            ps == lobby.players@,
            0 <= i <= ps.len(),
            out@ == spec_connected_ids(ps.take(i as int)),
        decreases ps.len() - i,
    {
        proof {
            assert(ps.take(i as int + 1).drop_last() =~= ps.take(i as int));
        }
        if lobby.players[i].is_connected() {
            out.push(lobby.players[i].user_id);
        }
        i = i + 1;
    }
    proof {
        assert(ps.take(ps.len() as int) =~= ps);
    }
    out
}

/// The visible-player list of a lobby, ready to broadcast. Every member
/// is listed, connected or awaiting reconnection: a player within the
/// reconnection grace stays visible.
pub fn lobby_player_list_message(lobby: &Lobby) -> (m: ServerMessage)
    ensures
        m matches ServerMessage::LobbyPlayerList { players, lobby_code } && {
            &&& players@.len() == lobby.players@.len()
            &&& forall|k: int|
                0 <= k < players@.len() ==> {
                    &&& (#[trigger] players@[k]).user_id@ == spec_i64_string(
                        lobby.players@[k].user_id as int,
                    )
                    &&& players@[k].username@ == lobby.players@[k].username@
                    &&& players@[k].avatar_url == lobby.players@[k].avatar_url
                }
            &&& lobby_code == lobby.lobby_code
        },
{
    let mut players: Vec<LobbyPlayerInfo> = Vec::new();
    let mut i: usize = 0;
    while i < lobby.players.len()
        invariant
            0 <= i <= lobby.players@.len(),
            players@.len() == i,
            forall|k: int|
                0 <= k < i ==> {
                    &&& (#[trigger] players@[k]).user_id@ == spec_i64_string(
                        lobby.players@[k].user_id as int,
                    )
                    &&& players@[k].username@ == lobby.players@[k].username@
                    &&& players@[k].avatar_url == lobby.players@[k].avatar_url
                },
        decreases lobby.players@.len() - i,
    {
        let p = &lobby.players[i];
        players.push(
            LobbyPlayerInfo {
                user_id: i64_to_string(p.user_id),
                username: p.username.clone(),
                avatar_url: match &p.avatar_url {
                    Some(a) => Some(a.clone()),
                    None => None,
                },
            },
        );
        i = i + 1;
    }
    ServerMessage::LobbyPlayerList {
        players,
        lobby_code: match &lobby.lobby_code {
            Some(c) => Some(c.clone()),
            None => None,
        },
    }
}

/// The final scoreboard of a finished game, ready to broadcast.
pub fn final_scores_message(s: &GameState, winner: Option<i64>) -> (m: ServerMessage)
    ensures
        m matches ServerMessage::GameOver { winner: w, final_scores } && {
            &&& w == winner
            &&& final_scores@.len() == s.players@.len()
            &&& forall|k: int|
                0 <= k < final_scores@.len() ==> {
                    &&& (#[trigger] final_scores@[k]).user_id == s.players@[k].user_id
                    &&& final_scores@[k].username@ == s.players@[k].username@
                    &&& final_scores@[k].score == s.players@[k].score
                }
        },
{
    let mut final_scores: Vec<ScoreInfo> = Vec::new();
    let mut i: usize = 0;
    while i < s.players.len()
        invariant
            0 <= i <= s.players@.len(),
            final_scores@.len() == i,
            forall|k: int|
                0 <= k < i ==> {
                    &&& (#[trigger] final_scores@[k]).user_id == s.players@[k].user_id
                    &&& final_scores@[k].username@ == s.players@[k].username@
                    &&& final_scores@[k].score == s.players@[k].score
                },
        decreases s.players@.len() - i,
    {
        let p = &s.players[i];
        final_scores.push(
            ScoreInfo {
                user_id: p.user_id,
                username: p.username.clone(),
                score: p.score,
            },
        );
        i = i + 1;
    }
    ServerMessage::GameOver { winner, final_scores }
}

} // verus!
