use spellcast::grid::{GridCell, Multiplier, Position};
use spellcast::json::{print_json, Json};
use spellcast::lobby::LobbyType;
use spellcast::messages::{
    decode_client, decode_grid, decode_server, encode_client, encode_grid, encode_server,
    ClientMessage, GamePlayerInfo, LobbyPlayerInfo, PlayerInfo, ScoreInfo, ServerMessage,
};
use spellcast::session::GameMode;

fn small_grid() -> Vec<Vec<GridCell>> {
    vec![
        vec![
            GridCell { letter: 'A', value: 1, multiplier: None, has_gem: false },
            GridCell { letter: 'B', value: 3, multiplier: Some(Multiplier::DoubleLetter), has_gem: false },
        ],
        vec![
            GridCell { letter: 'C', value: 3, multiplier: Some(Multiplier::TripleLetter), has_gem: true },
            GridCell { letter: 'D', value: 2, multiplier: Some(Multiplier::DoubleWord), has_gem: false },
        ],
    ]
}

#[test]
fn test_grid_json_round_trip() {
    let grid = small_grid();
    let encoded = encode_grid(&grid);
    let decoded = decode_grid(&encoded).expect("grid should decode");

    assert_eq!(grid.len(), decoded.len());
    for (orig_row, deser_row) in grid.iter().zip(decoded.iter()) {
        assert_eq!(orig_row.len(), deser_row.len());
        for (orig_cell, deser_cell) in orig_row.iter().zip(deser_row.iter()) {
            assert_eq!(orig_cell.letter, deser_cell.letter);
            assert_eq!(orig_cell.value, deser_cell.value);
            assert_eq!(orig_cell.multiplier, deser_cell.multiplier);
            assert_eq!(orig_cell.has_gem, deser_cell.has_gem);
        }
    }
}

#[test]
fn test_grid_wire_text() {
    let grid = vec![vec![GridCell { letter: 'Q', value: 8, multiplier: Some(Multiplier::TripleLetter), has_gem: true }]];
    let text = print_json(&encode_grid(&grid));
    assert_eq!(
        text,
        r#"[[{"letter":"Q","value":8,"multiplier":"TL","has_gem":true}]]"#
    );
}

#[test]
fn test_client_round_trip_join_channel_lobby() {
    let m = ClientMessage::JoinChannelLobby {
        channel_id: "123".to_string(),
        guild_id: Some("g1".to_string()),
    };
    match decode_client(&encode_client(&m)).expect("decodes") {
        ClientMessage::JoinChannelLobby { channel_id, guild_id } => {
            assert_eq!(channel_id, "123");
            assert_eq!(guild_id.as_deref(), Some("g1"));
        }
        other => panic!("wrong variant {:?}", other),
    }

    let none = ClientMessage::JoinChannelLobby { channel_id: "9".to_string(), guild_id: None };
    match decode_client(&encode_client(&none)).expect("decodes") {
        ClientMessage::JoinChannelLobby { channel_id, guild_id } => {
            assert_eq!(channel_id, "9");
            assert!(guild_id.is_none());
        }
        other => panic!("wrong variant {:?}", other),
    }
}

#[test]
fn test_client_round_trip_plain_variants() {
    for m in [
        ClientMessage::CreateCustomLobby,
        ClientMessage::LeaveLobby,
        ClientMessage::StartGame,
        ClientMessage::PassTurn,
        ClientMessage::Heartbeat,
    ] {
        let back = decode_client(&encode_client(&m)).expect("decodes");
        assert_eq!(std::mem::discriminant(&m), std::mem::discriminant(&back));
    }
}

#[test]
fn test_client_round_trip_join_custom_lobby() {
    let m = ClientMessage::JoinCustomLobby { lobby_code: "XYZ234".to_string() };
    match decode_client(&encode_client(&m)).expect("decodes") {
        ClientMessage::JoinCustomLobby { lobby_code } => assert_eq!(lobby_code, "XYZ234"),
        other => panic!("wrong variant {:?}", other),
    }
}

#[test]
fn test_client_round_trip_submit_word() {
    let m = ClientMessage::SubmitWord {
        word: "heart".to_string(),
        positions: vec![Position { row: 0, col: 0 }, Position { row: 1, col: 1 }],
    };
    match decode_client(&encode_client(&m)).expect("decodes") {
        ClientMessage::SubmitWord { word, positions } => {
            assert_eq!(word, "heart");
            assert_eq!(positions, vec![Position { row: 0, col: 0 }, Position { row: 1, col: 1 }]);
        }
        other => panic!("wrong variant {:?}", other),
    }
}

#[test]
fn test_client_wire_text() {
    let m = ClientMessage::SubmitWord {
        word: "he".to_string(),
        positions: vec![Position { row: 0, col: 1 }],
    };
    assert_eq!(
        print_json(&encode_client(&m)),
        r#"{"type":"submit_word","word":"he","positions":[{"row":0,"col":1}]}"#
    );
}

#[test]
fn test_client_decode_accepts_reordered_members() {
    // Clients may order members differently; decoding goes by name
    let j = Json::Obj(vec![
        ("word".to_string(), Json::Str("hi".to_string())),
        ("positions".to_string(), Json::Arr(vec![])),
        ("type".to_string(), Json::Str("submit_word".to_string())),
    ]);
    match decode_client(&j).expect("decodes") {
        ClientMessage::SubmitWord { word, positions } => {
            assert_eq!(word, "hi");
            assert!(positions.is_empty());
        }
        other => panic!("wrong variant {:?}", other),
    }
}

#[test]
fn test_client_decode_rejects_unknown_type() {
    let j = Json::Obj(vec![("type".to_string(), Json::Str("warp".to_string()))]);
    assert!(decode_client(&j).is_none());
    assert!(decode_client(&Json::Null).is_none());
}

#[test]
fn test_server_round_trip_lobby_joined() {
    let m = ServerMessage::LobbyJoined {
        lobby_id: "custom:AB2345".to_string(),
        lobby_type: LobbyType::Custom,
        lobby_code: Some("AB2345".to_string()),
    };
    match decode_server(&encode_server(&m)).expect("decodes") {
        ServerMessage::LobbyJoined { lobby_id, lobby_type, lobby_code } => {
            assert_eq!(lobby_id, "custom:AB2345");
            assert_eq!(lobby_type, LobbyType::Custom);
            assert_eq!(lobby_code.as_deref(), Some("AB2345"));
        }
        other => panic!("wrong variant {:?}", other),
    }
}

#[test]
fn test_server_round_trip_lobby_created_and_errors() {
    let m = ServerMessage::LobbyCreated { lobby_code: "PQR567".to_string() };
    match decode_server(&encode_server(&m)).expect("decodes") {
        ServerMessage::LobbyCreated { lobby_code } => assert_eq!(lobby_code, "PQR567"),
        other => panic!("wrong variant {:?}", other),
    }

    let m = ServerMessage::InvalidWord { reason: "Invalid path".to_string() };
    match decode_server(&encode_server(&m)).expect("decodes") {
        ServerMessage::InvalidWord { reason } => assert_eq!(reason, "Invalid path"),
        other => panic!("wrong variant {:?}", other),
    }

    let m = ServerMessage::GameError {
        code: "not_host".to_string(),
        message: "Only the lobby host can start the game".to_string(),
    };
    match decode_server(&encode_server(&m)).expect("decodes") {
        ServerMessage::GameError { code, message } => {
            assert_eq!(code, "not_host");
            assert_eq!(message, "Only the lobby host can start the game");
        }
        other => panic!("wrong variant {:?}", other),
    }

    let m = ServerMessage::Error { message: "bad frame".to_string() };
    match decode_server(&encode_server(&m)).expect("decodes") {
        ServerMessage::Error { message } => assert_eq!(message, "bad frame"),
        other => panic!("wrong variant {:?}", other),
    }

    let m = ServerMessage::HeartbeatAck;
    assert!(matches!(
        decode_server(&encode_server(&m)),
        Some(ServerMessage::HeartbeatAck)
    ));
}

#[test]
fn test_server_round_trip_lobby_player_list() {
    let m = ServerMessage::LobbyPlayerList {
        players: vec![
            LobbyPlayerInfo {
                user_id: "1".to_string(),
                username: "A".to_string(),
                avatar_url: None,
            },
            LobbyPlayerInfo {
                user_id: "2".to_string(),
                username: "B".to_string(),
                avatar_url: Some("http://a/b.png".to_string()),
            },
        ],
        lobby_code: None,
    };
    match decode_server(&encode_server(&m)).expect("decodes") {
        ServerMessage::LobbyPlayerList { players, lobby_code } => {
            assert_eq!(players.len(), 2);
            assert_eq!(players[0].user_id, "1");
            assert_eq!(players[1].avatar_url.as_deref(), Some("http://a/b.png"));
            assert!(lobby_code.is_none());
        }
        other => panic!("wrong variant {:?}", other),
    }
}

#[test]
fn test_server_round_trip_game_started() {
    let m = ServerMessage::GameStarted {
        game_id: "g-1".to_string(),
        grid: small_grid(),
        players: vec![GamePlayerInfo {
            user_id: "7".to_string(),
            username: "P7".to_string(),
            avatar_url: None,
            turn_order: 0,
        }],
        current_player_id: "7".to_string(),
        total_rounds: 5,
    };
    match decode_server(&encode_server(&m)).expect("decodes") {
        ServerMessage::GameStarted { game_id, grid, players, current_player_id, total_rounds } => {
            assert_eq!(game_id, "g-1");
            assert_eq!(grid[1][0].letter, 'C');
            assert_eq!(players[0].user_id, "7");
            assert_eq!(current_player_id, "7");
            assert_eq!(total_rounds, 5);
        }
        other => panic!("wrong variant {:?}", other),
    }
}

#[test]
fn test_server_round_trip_game_state() {
    let m = ServerMessage::GameState {
        game_id: "g-2".to_string(),
        mode: GameMode::Multiplayer,
        round: 2,
        max_rounds: 5,
        grid: small_grid(),
        players: vec![PlayerInfo {
            user_id: 9,
            username: "P9".to_string(),
            avatar_url: None,
            score: 41,
            team: None,
        }],
        current_turn: Some(9),
        used_words: vec!["HEART".to_string(), "CAT".to_string()],
        timer_enabled: false,
        time_remaining: None,
    };
    match decode_server(&encode_server(&m)).expect("decodes") {
        ServerMessage::GameState { game_id, mode, round, max_rounds, grid, players, current_turn, used_words, timer_enabled, time_remaining } => {
            assert_eq!(game_id, "g-2");
            assert_eq!(mode, GameMode::Multiplayer);
            assert_eq!(round, 2);
            assert_eq!(max_rounds, 5);
            assert_eq!(grid[0][1].multiplier, Some(Multiplier::DoubleLetter));
            assert_eq!(players[0].score, 41);
            assert_eq!(current_turn, Some(9));
            assert_eq!(used_words, vec!["HEART".to_string(), "CAT".to_string()]);
            assert!(!timer_enabled);
            assert!(time_remaining.is_none());
        }
        other => panic!("wrong variant {:?}", other),
    }
}

#[test]
fn test_server_round_trip_game_over() {
    let m = ServerMessage::GameOver {
        winner: Some(1),
        final_scores: vec![
            ScoreInfo { user_id: 1, username: "A".to_string(), score: 5 },
            ScoreInfo { user_id: 2, username: "B".to_string(), score: 4 },
        ],
    };
    match decode_server(&encode_server(&m)).expect("decodes") {
        ServerMessage::GameOver { winner, final_scores } => {
            assert_eq!(winner, Some(1));
            assert_eq!(final_scores.len(), 2);
            assert_eq!(final_scores[0].user_id, 1);
            assert_eq!(final_scores[1].score, 4);
        }
        other => panic!("wrong variant {:?}", other),
    }
}

#[test]
fn test_server_wire_text() {
    let m = ServerMessage::Error { message: "hi".to_string() };
    assert_eq!(print_json(&encode_server(&m)), r#"{"type":"error","message":"hi"}"#);

    let m = ServerMessage::GameOver { winner: None, final_scores: vec![] };
    assert_eq!(
        print_json(&encode_server(&m)),
        r#"{"type":"game_over","winner":null,"final_scores":[]}"#
    );
}

#[test]
fn test_json_printer_escapes_strings() {
    let j = Json::Str("a\"b\\c\nd".to_string());
    assert_eq!(print_json(&j), "\"a\\\"b\\\\c\\u000ad\"");
    assert_eq!(print_json(&Json::Int(-42)), "-42");
    assert_eq!(print_json(&Json::Bool(true)), "true");
    assert_eq!(print_json(&Json::Null), "null");
    assert_eq!(
        print_json(&Json::Arr(vec![Json::Int(1), Json::Int(2)])),
        "[1,2]"
    );
}
