use spellcast::grid::GridCell;
use spellcast::session::{GameDbState, GamePlayer, GameState, GameStatus};

fn create_test_grid() -> Vec<Vec<GridCell>> {
    vec![
        vec![
            GridCell {
                letter: 'A',
                value: 1,
                multiplier: None,
                has_gem: false,
            },
            GridCell {
                letter: 'B',
                value: 4,
                multiplier: Some(spellcast::grid::Multiplier::DoubleLetter),
                has_gem: false,
            },
        ],
        vec![
            GridCell {
                letter: 'C',
                value: 5,
                multiplier: None,
                has_gem: true,
            },
            GridCell {
                letter: 'D',
                value: 3,
                multiplier: Some(spellcast::grid::Multiplier::TripleLetter),
                has_gem: false,
            },
        ],
    ]
}

fn create_test_players() -> Vec<GamePlayer> {
    vec![
        GamePlayer::new(
            101,
            "Player1".to_string(),
            Some("https://cdn.example.com/avatar1.png".to_string()),
            0,
        ),
        GamePlayer::new(102, "Player2".to_string(), None, 1),
    ]
}

#[test]
fn test_game_db_state_to_string_waiting() {
    let state = GameDbState::Waiting;
    let state_str = match state {
        GameDbState::Waiting => "waiting",
        GameDbState::Active => "active",
        GameDbState::Finished => "finished",
        GameDbState::Cancelled => "cancelled",
    };
    assert_eq!(state_str, "waiting");
}

#[test]
fn test_game_db_state_to_string_active() {
    let state = GameDbState::Active;
    let state_str = match state {
        GameDbState::Waiting => "waiting",
        GameDbState::Active => "active",
        GameDbState::Finished => "finished",
        GameDbState::Cancelled => "cancelled",
    };
    assert_eq!(state_str, "active");
}

#[test]
fn test_game_db_state_to_string_finished() {
    let state = GameDbState::Finished;
    let state_str = match state {
        GameDbState::Waiting => "waiting",
        GameDbState::Active => "active",
        GameDbState::Finished => "finished",
        GameDbState::Cancelled => "cancelled",
    };
    assert_eq!(state_str, "finished");
}

#[test]
fn test_game_db_state_to_string_cancelled() {
    let state = GameDbState::Cancelled;
    let state_str = match state {
        GameDbState::Waiting => "waiting",
        GameDbState::Active => "active",
        GameDbState::Finished => "finished",
        GameDbState::Cancelled => "cancelled",
    };
    assert_eq!(state_str, "cancelled");
}

#[test]
fn test_game_db_state_to_game_status_conversion() {
    assert!(matches!(GameDbState::Waiting, GameDbState::Waiting));
    assert!(matches!(GameDbState::Active, GameDbState::Active));
    assert!(matches!(GameDbState::Finished, GameDbState::Finished));
    assert!(matches!(GameDbState::Cancelled, GameDbState::Cancelled));

    let status_from_waiting = match GameDbState::Waiting {
        GameDbState::Waiting => GameStatus::WaitingToStart,
        GameDbState::Active => GameStatus::InProgress,
        GameDbState::Finished => GameStatus::Finished,
        GameDbState::Cancelled => GameStatus::Finished,
    };
    assert_eq!(status_from_waiting, GameStatus::WaitingToStart);

    let status_from_active = match GameDbState::Active {
        GameDbState::Waiting => GameStatus::WaitingToStart,
        GameDbState::Active => GameStatus::InProgress,
        GameDbState::Finished => GameStatus::Finished,
        GameDbState::Cancelled => GameStatus::Finished,
    };
    assert_eq!(status_from_active, GameStatus::InProgress);

    let status_from_finished = match GameDbState::Finished {
        GameDbState::Waiting => GameStatus::WaitingToStart,
        GameDbState::Active => GameStatus::InProgress,
        GameDbState::Finished => GameStatus::Finished,
        GameDbState::Cancelled => GameStatus::Finished,
    };
    assert_eq!(status_from_finished, GameStatus::Finished);

    let status_from_cancelled = match GameDbState::Cancelled {
        GameDbState::Waiting => GameStatus::WaitingToStart,
        GameDbState::Active => GameStatus::InProgress,
        GameDbState::Finished => GameStatus::Finished,
        GameDbState::Cancelled => GameStatus::Finished,
    };
    assert_eq!(status_from_cancelled, GameStatus::Finished);
}

#[test]
fn test_status_of_db_matches_local_conversion() {
    assert_eq!(spellcast::session::status_of_db(GameDbState::Waiting), GameStatus::WaitingToStart);
    assert_eq!(spellcast::session::status_of_db(GameDbState::Active), GameStatus::InProgress);
    assert_eq!(spellcast::session::status_of_db(GameDbState::Finished), GameStatus::Finished);
    assert_eq!(spellcast::session::status_of_db(GameDbState::Cancelled), GameStatus::Finished);
}

#[test]
fn test_db_name_strings() {
    assert_eq!(GameDbState::Waiting.db_name(), "waiting");
    assert_eq!(GameDbState::Active.db_name(), "active");
    assert_eq!(GameDbState::Finished.db_name(), "finished");
    assert_eq!(GameDbState::Cancelled.db_name(), "cancelled");
}

#[test]
fn test_game_player_default_values() {
    let player = GamePlayer::new(103, "NewPlayer".to_string(), None, 2);

    assert_eq!(player.score, 0);
    assert!(player.is_connected);
    assert!(player.avatar_url.is_none());
}

#[test]
fn test_game_state_current_player() {
    let grid = create_test_grid();
    let players = create_test_players();
    let player1_id = players[0].user_id;
    let player2_id = players[1].user_id;

    let game_state = GameState::new(7, grid, players, 5, 0);

    // First player should be current
    assert!(game_state.is_player_turn(player1_id));
    assert!(!game_state.is_player_turn(player2_id));

    let current = game_state.current_player().unwrap();
    assert_eq!(current.user_id, player1_id);
}

#[test]
fn test_game_state_word_tracking() {
    let grid = create_test_grid();
    let players = create_test_players();
    let mut game_state = GameState::new(7, grid, players, 5, 0);

    assert!(!game_state.is_word_used("test"));

    game_state.mark_word_used("TEST");
    assert!(game_state.is_word_used("test"));
    assert!(game_state.is_word_used("TEST"));
    assert!(game_state.is_word_used("Test"));
}

#[test]
fn test_game_state_round_submissions() {
    let grid = create_test_grid();
    let players = create_test_players();
    let player1_id = players[0].user_id;
    let player2_id = players[1].user_id;

    let mut game_state = GameState::new(7, grid, players, 5, 0);

    // Initially no one has submitted
    assert!(!game_state.is_round_complete());

    // Player 1 submits
    game_state.mark_player_submitted(player1_id);
    assert!(!game_state.is_round_complete());

    // Player 2 submits
    game_state.mark_player_submitted(player2_id);
    assert!(game_state.is_round_complete());

    // Reset for new round
    game_state.reset_round_submissions();
    assert!(!game_state.is_round_complete());
}

#[test]
fn test_game_state_get_player() {
    let grid = create_test_grid();
    let players = create_test_players();
    let player1_id = players[0].user_id;

    let game_state = GameState::new(7, grid, players, 5, 0);

    let player = game_state.get_player(player1_id);
    assert!(player.is_some());
    assert_eq!(player.unwrap().username, "Player1");

    let non_existent = game_state.get_player(999);
    assert!(non_existent.is_none());
}

#[test]
fn test_game_state_connected_count() {
    let grid = create_test_grid();
    let mut players = create_test_players();
    players[1].is_connected = false;

    let game_state = GameState::new(7, grid, players, 5, 0);

    assert_eq!(game_state.connected_player_count(), 1);
}

#[test]
fn test_game_state_new_defaults() {
    let game_state = GameState::new(7, create_test_grid(), create_test_players(), 5, 12345);
    assert_eq!(game_state.game_id, 7);
    assert_eq!(game_state.current_round, 1);
    assert_eq!(game_state.total_rounds, 5);
    assert_eq!(game_state.current_player_index, 0);
    assert_eq!(game_state.status, GameStatus::WaitingToStart);
    assert_eq!(game_state.created_at, 12345);
    assert!(game_state.used_words.is_empty());
    assert!(!game_state.is_game_finished());
}
