use spellcast::dictionary::Dictionary;
use spellcast::engine::{
    apply_pass_turn, apply_submit_word, compute_winner, prepare_start_game, GameErrorCode,
    PassOutcome, SubmitOutcome,
};
use spellcast::grid::{GridCell, Position};
use spellcast::lobby::LobbyRegistry;
use spellcast::session::{GamePlayer, GameState, GameStatus};

fn cell(letter: char, value: u8) -> GridCell {
    GridCell { letter, value, multiplier: None, has_gem: false }
}

fn grid_with_row0(row0: Vec<GridCell>) -> Vec<Vec<GridCell>> {
    let mut grid = vec![row0];
    for _ in 1..5 {
        grid.push((0..5).map(|_| cell('Q', 8)).collect());
    }
    grid
}

fn session_with(grid: Vec<Vec<GridCell>>, ids: &[i64], total_rounds: u8) -> GameState {
    let players: Vec<GamePlayer> = ids
        .iter()
        .enumerate()
        .map(|(i, id)| GamePlayer::new(*id, format!("P{}", id), None, i as u8))
        .collect();
    let mut s = GameState::new(1, grid, players, total_rounds, 0);
    s.status = GameStatus::InProgress;
    s
}

fn row_positions(n: usize) -> Vec<Position> {
    (0..n).map(|col| Position { row: 0, col }).collect()
}

#[test]
fn test_two_players_two_moves_one_round() {
    // Row 0 seeded H(4) E(1) A(1) R(1) T(2); one round; two players.
    let grid = grid_with_row0(vec![
        cell('H', 4),
        cell('E', 1),
        cell('A', 1),
        cell('R', 1),
        cell('T', 2),
    ]);
    let dict = Dictionary::from_lines(&vec!["HE".to_string(), "ART".to_string()]);
    let mut s = session_with(grid, &[1, 2], 1);

    let r1 = apply_submit_word(&mut s, &dict, 1, "HE", &row_positions(2));
    match r1 {
        SubmitOutcome::Accepted { score, game_over, .. } => {
            assert_eq!(score, 5);
            assert!(!game_over);
        }
        other => panic!("unexpected outcome {:?}", other),
    }
    assert_eq!(s.current_player_index, 1);
    assert_eq!(s.players[0].score, 5);
    assert!(s.is_word_used("he"));

    let p2_path = vec![
        Position { row: 0, col: 2 },
        Position { row: 0, col: 3 },
        Position { row: 0, col: 4 },
    ];
    let r2 = apply_submit_word(&mut s, &dict, 2, "ART", &p2_path);
    match r2 {
        SubmitOutcome::Accepted { score, game_over, winner, .. } => {
            assert_eq!(score, 4);
            assert!(game_over, "wrapping out of the final round ends the game");
            assert_eq!(winner, Some(1), "the higher score wins");
        }
        other => panic!("unexpected outcome {:?}", other),
    }
    assert_eq!(s.players[1].score, 4);
    assert_eq!(s.status, GameStatus::Finished);
}

#[test]
fn test_submit_rejects_non_adjacent_path() {
    let grid = grid_with_row0(vec![
        cell('C', 5),
        cell('A', 1),
        cell('T', 2),
        cell('S', 2),
        cell('E', 1),
    ]);
    let dict = Dictionary::from_lines(&vec!["CT".to_string()]);
    let mut s = session_with(grid, &[1, 2], 5);
    let round_before = s.current_round;

    let outcome = apply_submit_word(
        &mut s,
        &dict,
        1,
        "CT",
        &[Position { row: 0, col: 0 }, Position { row: 0, col: 2 }],
    );
    assert_eq!(outcome, SubmitOutcome::InvalidPath);
    // The session is untouched on a refusal
    assert_eq!(s.current_player_index, 0);
    assert_eq!(s.current_round, round_before);
    assert_eq!(s.players[0].score, 0);
    assert!(s.used_words.is_empty());
}

#[test]
fn test_submit_rejects_unknown_word() {
    let grid = grid_with_row0(vec![
        cell('C', 5),
        cell('A', 1),
        cell('T', 2),
        cell('S', 2),
        cell('E', 1),
    ]);
    let dict = Dictionary::from_lines(&vec!["DOG".to_string()]);
    let mut s = session_with(grid, &[1, 2], 5);
    let outcome = apply_submit_word(&mut s, &dict, 1, "CAT", &row_positions(3));
    assert_eq!(outcome, SubmitOutcome::WordNotFound);
    assert_eq!(s.players[0].score, 0);
}

#[test]
fn test_submit_rejects_duplicate_word() {
    let grid = grid_with_row0(vec![
        cell('C', 5),
        cell('A', 1),
        cell('T', 2),
        cell('S', 2),
        cell('E', 1),
    ]);
    let dict = Dictionary::from_lines(&vec!["CAT".to_string()]);
    let mut s = session_with(grid, &[1, 2], 5);

    let r1 = apply_submit_word(&mut s, &dict, 1, "CAT", &row_positions(3));
    assert!(matches!(r1, SubmitOutcome::Accepted { .. }));
    assert_eq!(s.current_player_index, 1);

    // Player 2 repeats the word: refused, and the turn does not advance
    let r2 = apply_submit_word(&mut s, &dict, 2, "CAT", &row_positions(3));
    assert_eq!(r2, SubmitOutcome::WordAlreadyUsed);
    assert_eq!(s.current_player_index, 1, "player 2 keeps the turn");
    assert_eq!(s.players[1].score, 0);
}

#[test]
fn test_submit_rejects_wrong_turn() {
    let grid = grid_with_row0(vec![
        cell('C', 5),
        cell('A', 1),
        cell('T', 2),
        cell('S', 2),
        cell('E', 1),
    ]);
    let dict = Dictionary::from_lines(&vec!["CAT".to_string()]);
    let mut s = session_with(grid, &[1, 2], 5);
    let outcome = apply_submit_word(&mut s, &dict, 2, "CAT", &row_positions(3));
    assert_eq!(outcome, SubmitOutcome::NotYourTurn);
}

#[test]
fn test_submit_rejects_letters_that_do_not_spell_word() {
    let grid = grid_with_row0(vec![
        cell('C', 5),
        cell('A', 1),
        cell('T', 2),
        cell('S', 2),
        cell('E', 1),
    ]);
    let dict = Dictionary::from_lines(&vec!["TEA".to_string()]);
    let mut s = session_with(grid, &[1, 2], 5);
    // TEA is a word, and the path is valid, but the path spells CAT
    let outcome = apply_submit_word(&mut s, &dict, 1, "TEA", &row_positions(3));
    assert_eq!(outcome, SubmitOutcome::LettersMismatch);
}

#[test]
fn test_submit_replaces_played_letters() {
    let grid = grid_with_row0(vec![
        cell('C', 5),
        cell('A', 1),
        cell('T', 2),
        cell('S', 2),
        cell('E', 1),
    ]);
    let dict = Dictionary::from_lines(&vec!["CAT".to_string()]);
    let mut s = session_with(grid, &[1, 2], 5);
    let r = apply_submit_word(&mut s, &dict, 1, "CAT", &row_positions(3));
    assert!(matches!(r, SubmitOutcome::Accepted { .. }));
    // The played cells are freshly drawn: no multiplier, letter values match
    for col in 0..3 {
        let c = &s.grid[0][col];
        assert!(c.letter.is_ascii_uppercase());
        assert_eq!(c.value, spellcast::letters::get_letter_value(c.letter));
        assert!(c.multiplier.is_none());
        assert!(!c.has_gem);
    }
    // Untouched cells stay as seeded
    assert_eq!(s.grid[0][3].letter, 'S');
    assert_eq!(s.grid[0][4].letter, 'E');
}

#[test]
fn test_pass_turn_advances_without_scoring() {
    let grid = grid_with_row0(vec![
        cell('C', 5),
        cell('A', 1),
        cell('T', 2),
        cell('S', 2),
        cell('E', 1),
    ]);
    let mut s = session_with(grid, &[1, 2, 3], 5);

    assert_eq!(apply_pass_turn(&mut s, 2), PassOutcome::NotYourTurn);
    let r = apply_pass_turn(&mut s, 1);
    assert_eq!(r, PassOutcome::Passed { game_over: false, winner: None });
    assert_eq!(s.current_player_index, 1);
    assert_eq!(s.current_round, 1);
    assert_eq!(s.players[0].score, 0);

    // Wrapping past the last seat increments the round
    apply_pass_turn(&mut s, 2);
    let r = apply_pass_turn(&mut s, 3);
    assert_eq!(r, PassOutcome::Passed { game_over: false, winner: None });
    assert_eq!(s.current_player_index, 0);
    assert_eq!(s.current_round, 2);
}

#[test]
fn test_pass_turn_out_of_final_round_finishes() {
    let grid = grid_with_row0(vec![
        cell('C', 5),
        cell('A', 1),
        cell('T', 2),
        cell('S', 2),
        cell('E', 1),
    ]);
    let mut s = session_with(grid, &[1, 2], 1);
    s.players[0].score = 3;
    s.players[1].score = 9;
    apply_pass_turn(&mut s, 1);
    let r = apply_pass_turn(&mut s, 2);
    assert_eq!(r, PassOutcome::Passed { game_over: true, winner: Some(2) });
    assert_eq!(s.status, GameStatus::Finished);
}

#[test]
fn test_winner_prefers_earliest_seat_on_ties() {
    let players: Vec<GamePlayer> = [5i64, 6, 7]
        .iter()
        .enumerate()
        .map(|(i, id)| {
            let mut p = GamePlayer::new(*id, format!("P{}", id), None, i as u8);
            p.score = 10;
            p
        })
        .collect();
    assert_eq!(compute_winner(&players), Some(5));

    let mut players2 = players;
    players2[2].score = 11;
    assert_eq!(compute_winner(&players2), Some(7));
    assert_eq!(compute_winner(&Vec::new()), None);
}

#[test]
fn test_start_game_requires_two_to_six_players() {
    // One connected player: refused as not enough
    let mut reg = LobbyRegistry::new();
    let id = reg.get_or_create_channel_lobby("5", None, 0);
    reg.join(&id, 1, "A".to_string(), None).unwrap();
    assert_eq!(
        prepare_start_game(&mut reg, &id, 1).unwrap_err(),
        GameErrorCode::NotEnoughPlayers
    );

    // Seven connected players: refused as too many
    let mut reg7 = LobbyRegistry::new();
    let id7 = reg7.get_or_create_channel_lobby("6", None, 0);
    for uid in 1..=7 {
        reg7.join(&id7, uid, format!("P{}", uid), None).unwrap();
    }
    assert_eq!(
        prepare_start_game(&mut reg7, &id7, 1).unwrap_err(),
        GameErrorCode::TooManyPlayers
    );
    // A refused start leaves the start slot free
    let idx = reg7.find_index(&id7).unwrap();
    assert!(!reg7.lobbies[idx].game_starting);
}

#[test]
fn test_start_game_refuses_non_host_without_mutation() {
    let mut reg = LobbyRegistry::new();
    let id = reg.get_or_create_channel_lobby("5", None, 0);
    reg.join(&id, 1, "A".to_string(), None).unwrap();
    reg.join(&id, 2, "B".to_string(), None).unwrap();

    let r = prepare_start_game(&mut reg, &id, 2);
    assert_eq!(r.unwrap_err(), GameErrorCode::NotHost);
    let idx = reg.find_index(&id).unwrap();
    assert!(!reg.lobbies[idx].game_starting);
    assert!(reg.lobbies[idx].active_game_id.is_none());
    assert_eq!(reg.lobbies[idx].players.len(), 2);
    assert_eq!(reg.lobbies[idx].host_id, Some(1));
}

#[test]
fn test_start_game_seats_connected_players_shuffled() {
    let mut reg = LobbyRegistry::new();
    let id = reg.get_or_create_channel_lobby("5", None, 0);
    for uid in 1..=4 {
        reg.join(&id, uid, format!("P{}", uid), None).unwrap();
    }
    // A disconnected member is not seated
    reg.mark_awaiting_reconnect(&id, 4, 0);

    let players = prepare_start_game(&mut reg, &id, 1).unwrap();
    assert_eq!(players.len(), 3);
    let mut ids: Vec<i64> = players.iter().map(|p| p.user_id).collect();
    ids.sort();
    assert_eq!(ids, vec![1, 2, 3]);
    for (i, p) in players.iter().enumerate() {
        assert_eq!(p.turn_order as usize, i);
        assert_eq!(p.score, 0);
        assert!(p.is_connected);
    }
    // The start slot is claimed until the caller finishes or aborts
    let idx = reg.find_index(&id).unwrap();
    assert!(reg.lobbies[idx].game_starting);
    assert_eq!(
        prepare_start_game(&mut reg, &id, 1).unwrap_err(),
        GameErrorCode::GameInProgress
    );
}

#[test]
fn test_start_game_unknown_lobby() {
    let mut reg = LobbyRegistry::new();
    assert_eq!(
        prepare_start_game(&mut reg, "channel:404", 1).unwrap_err(),
        GameErrorCode::LobbyNotFound
    );
}
