use spellcast::fanout::{
    connected_user_ids, final_scores_message, lobby_player_list_message, snapshot_message,
};
use spellcast::grid::GridCell;
use spellcast::lobby::Lobby;
use spellcast::messages::ServerMessage;
use spellcast::session::{GameMode, GamePlayer, GameState, GameStatus};

fn tiny_grid() -> Vec<Vec<GridCell>> {
    vec![vec![GridCell { letter: 'A', value: 1, multiplier: None, has_gem: false }]]
}

#[test]
fn test_snapshot_message_reflects_session() {
    let players = vec![
        GamePlayer::new(1, "A".to_string(), None, 0),
        GamePlayer::new(2, "B".to_string(), None, 1),
    ];
    let mut s = GameState::new(5, tiny_grid(), players, 5, 0);
    s.status = GameStatus::InProgress;
    s.players[0].score = 7;
    s.current_player_index = 1;
    s.current_round = 3;
    s.mark_word_used("heart");

    match snapshot_message(&s, "game-5".to_string()) {
        ServerMessage::GameState {
            game_id,
            mode,
            round,
            max_rounds,
            grid,
            players,
            current_turn,
            used_words,
            timer_enabled,
            time_remaining,
        } => {
            assert_eq!(game_id, "game-5");
            assert_eq!(mode, GameMode::Multiplayer);
            assert_eq!(round, 3);
            assert_eq!(max_rounds, 5);
            assert_eq!(grid[0][0].letter, 'A');
            assert_eq!(players.len(), 2);
            assert_eq!(players[0].score, 7);
            assert_eq!(players[1].user_id, 2);
            assert_eq!(current_turn, Some(2));
            assert_eq!(used_words, vec!["HEART".to_string()]);
            assert!(!timer_enabled);
            assert!(time_remaining.is_none());
        }
        other => panic!("wrong variant {:?}", other),
    }
}

#[test]
fn test_final_scores_message_lists_all_seats() {
    let players = vec![
        GamePlayer::new(1, "A".to_string(), None, 0),
        GamePlayer::new(2, "B".to_string(), None, 1),
    ];
    let mut s = GameState::new(5, tiny_grid(), players, 1, 0);
    s.players[0].score = 5;
    s.players[1].score = 4;

    match final_scores_message(&s, Some(1)) {
        ServerMessage::GameOver { winner, final_scores } => {
            assert_eq!(winner, Some(1));
            assert_eq!(final_scores.len(), 2);
            assert_eq!(final_scores[0].score, 5);
            assert_eq!(final_scores[1].score, 4);
        }
        other => panic!("wrong variant {:?}", other),
    }
}

#[test]
fn test_broadcast_recipients_are_connected_members() {
    let mut lobby = Lobby::new_channel("c".to_string(), None, 0);
    lobby.join_player(1, "A".to_string(), None);
    lobby.join_player(2, "B".to_string(), None);
    lobby.join_player(3, "C".to_string(), None);
    lobby.mark_awaiting_reconnect(2, 10);

    // Broadcasts reach only connected members; the list shows everyone
    assert_eq!(connected_user_ids(&lobby), vec![1, 3]);
    match lobby_player_list_message(&lobby) {
        ServerMessage::LobbyPlayerList { players, lobby_code } => {
            assert_eq!(players.len(), 3);
            assert_eq!(players[1].user_id, "2");
            assert!(lobby_code.is_none());
        }
        other => panic!("wrong variant {:?}", other),
    }
}
