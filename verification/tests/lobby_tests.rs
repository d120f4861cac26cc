use spellcast::lobby::{
    Lobby, LobbyRegistry, LobbyPlayer, LobbyType, PlayerConnectionState, LOBBY_CODE_LENGTH,
};
use spellcast::fanout::lobby_player_list_message;
use spellcast::messages::ServerMessage;
use spellcast::lobby::generate_lobby_code;

const LOBBY_CODE_CHARSET: &[u8] = b"ABCDEFGHJKLMNPQRSTUVWXYZ23456789";

fn create_test_player(user_id: i64, connection_state: PlayerConnectionState) -> LobbyPlayer {
    LobbyPlayer {
        user_id,
        username: format!("TestUser{}", user_id),
        avatar_url: None,
        connection_state,
    }
}

#[test]
fn test_generate_lobby_code_length() {
    // Generate multiple codes and verify they are always 6 characters
    for _ in 0..100 {
        let code = generate_lobby_code();
        assert_eq!(
            code.len(),
            LOBBY_CODE_LENGTH,
            "Generated lobby code '{}' should be exactly {} characters",
            code,
            LOBBY_CODE_LENGTH
        );
    }
}

#[test]
fn test_generate_lobby_code_charset() {
    // Generate multiple codes and verify all characters are from allowed charset
    for _ in 0..100 {
        let code = generate_lobby_code();
        for c in code.chars() {
            assert!(
                LOBBY_CODE_CHARSET.contains(&(c as u8)),
                "Character '{}' in code '{}' is not in allowed charset",
                c,
                code
            );
        }
    }
}

#[test]
fn test_generate_lobby_code_uppercase() {
    // Generate multiple codes and verify all alphabetic characters are uppercase
    for _ in 0..100 {
        let code = generate_lobby_code();
        for c in code.chars() {
            if c.is_alphabetic() {
                assert!(
                    c.is_uppercase(),
                    "Character '{}' in code '{}' should be uppercase",
                    c,
                    code
                );
            }
        }
    }
}

#[test]
fn test_player_is_connected_when_connected() {
    let player = create_test_player(1, PlayerConnectionState::Connected);
    assert!(
        player.is_connected(),
        "Player with Connected state should return true for is_connected()"
    );
}

#[test]
fn test_player_is_not_connected_when_awaiting_reconnect() {
    let player = create_test_player(1, PlayerConnectionState::AwaitingReconnect { since: 0 });
    assert!(
        !player.is_connected(),
        "Player awaiting reconnection should return false for is_connected()"
    );
}

#[test]
fn test_player_is_visible_when_connected() {
    let player = create_test_player(1, PlayerConnectionState::Connected);
    assert!(
        player.is_visible(),
        "Connected player should be visible in the lobby"
    );
}

#[test]
fn test_player_is_visible_when_awaiting_reconnect() {
    // Disconnected players remain visible during the grace period
    let player = create_test_player(1, PlayerConnectionState::AwaitingReconnect { since: 0 });
    assert!(
        player.is_visible(),
        "Player awaiting reconnection should remain visible during grace period"
    );
}

#[test]
fn test_lobby_connected_player_count_only_counts_connected() {
    let mut lobby = Lobby::new_channel("test_channel".to_string(), Some("test_guild".to_string()), 0);
    lobby.join_player(1, "A".to_string(), None);
    lobby.join_player(2, "B".to_string(), None);
    lobby.mark_awaiting_reconnect(2, 5);

    assert_eq!(
        lobby.connected_player_count(),
        1,
        "Only the connected player should be counted"
    );
    assert!(
        lobby.has_any_players(),
        "Lobby should report having players (both connected and disconnected)"
    );
}

#[test]
fn test_player_reconnection_updates_connection_state() {
    let mut lobby = Lobby::new_channel("test_channel".to_string(), None, 0);
    lobby.join_player(1, "A".to_string(), None);
    lobby.mark_awaiting_reconnect(1, 5);
    assert_eq!(lobby.connected_player_count(), 0);

    // Rejoining reconnects the same player in place
    lobby.join_player(1, "A".to_string(), None);
    assert_eq!(lobby.connected_player_count(), 1);
    assert_eq!(lobby.players.len(), 1);
}

#[test]
fn test_all_players_visible_regardless_of_connection_state() {
    let mut lobby = Lobby::new_channel("test_channel".to_string(), None, 0);
    for id in 1..=4 {
        lobby.join_player(id, format!("P{}", id), None);
    }
    lobby.mark_awaiting_reconnect(3, 5);
    lobby.mark_awaiting_reconnect(4, 5);

    let visible_count = lobby.players.iter().filter(|p| p.is_visible()).count();
    assert_eq!(
        visible_count, 4,
        "All 4 players should be visible regardless of connection state"
    );
    assert_eq!(
        lobby.connected_player_count(),
        2,
        "Only 2 players should be counted as connected"
    );
}

#[test]
fn test_lobby_empty_since_tracks_when_all_players_disconnected() {
    let mut lobby = Lobby::new_channel("test_channel".to_string(), None, 0);
    assert!(
        lobby.empty_since.is_none(),
        "New lobby should not have empty_since set"
    );

    lobby.join_player(1, "A".to_string(), None);
    assert!(lobby.empty_since.is_none());

    lobby.mark_awaiting_reconnect(1, 42);
    assert_eq!(
        lobby.empty_since,
        Some(42),
        "Lobby should be marked empty when all players are disconnected"
    );
}

#[test]
fn test_host_is_first_joiner_and_kept() {
    let mut lobby = Lobby::new_channel("c1".to_string(), None, 0);
    let first_is_host = lobby.join_player(10, "A".to_string(), None);
    let second_is_host = lobby.join_player(11, "B".to_string(), None);
    assert!(first_is_host);
    assert!(!second_is_host);
    assert_eq!(lobby.host_id, Some(10));
    assert!(lobby.is_host(10));
    assert!(!lobby.is_host(11));

    // The host disconnecting does not reassign the host
    lobby.mark_awaiting_reconnect(10, 5);
    assert_eq!(lobby.host_id, Some(10));
}

#[test]
fn test_join_channel_lobby_is_idempotent() {
    let mut reg = LobbyRegistry::new();
    let id = reg.get_or_create_channel_lobby("777", None, 0);
    assert_eq!(id, "channel:777");

    reg.join(&id, 1, "A".to_string(), None).unwrap();
    let lobby_count = reg.lobbies.len();
    let players_before = reg.lobbies[0].players.len();
    let host_before = reg.lobbies[0].host_id;

    // Joining the same lobby again from the same user changes nothing
    let id2 = reg.get_or_create_channel_lobby("777", None, 9);
    assert_eq!(id2, id);
    reg.join(&id, 1, "A".to_string(), None).unwrap();

    assert_eq!(reg.lobbies.len(), lobby_count);
    assert_eq!(reg.lobbies[0].players.len(), players_before);
    assert_eq!(reg.lobbies[0].host_id, host_before);
}

#[test]
fn test_try_start_game_is_exclusive() {
    let mut lobby = Lobby::new_channel("c1".to_string(), None, 0);
    assert!(lobby.try_start_game());
    assert!(lobby.game_starting);
    // A second start attempt is refused while one is in flight
    assert!(!lobby.try_start_game());
    lobby.clear_game_starting();
    assert!(lobby.try_start_game());
    lobby.set_active_game(99);
    assert_eq!(lobby.active_game_id, Some(99));
    assert!(!lobby.game_starting);
    // And refused while a game is active
    assert!(!lobby.try_start_game());
    lobby.clear_active_game();
    assert!(lobby.try_start_game());
}

#[test]
fn test_custom_lobby_code_collision() {
    let mut reg = LobbyRegistry::new();
    // First registration of the code succeeds
    let first = reg.create_custom_lobby_with_code("XYZ234", 0);
    assert_eq!(first.as_deref(), Some("custom:XYZ234"));
    // The same code a second time collides; the caller retries afresh
    let second = reg.create_custom_lobby_with_code("XYZ234", 0);
    assert!(second.is_none());
    let third = reg.create_custom_lobby_with_code("PQR567", 0);
    assert_eq!(third.as_deref(), Some("custom:PQR567"));

    // Both lobbies are reachable via their own codes, not the other's
    assert_eq!(reg.find_lobby_by_code("XYZ234").as_deref(), Some("custom:XYZ234"));
    assert_eq!(reg.find_lobby_by_code("pqr567 ").as_deref(), Some("custom:PQR567"));
    assert_eq!(reg.find_lobby_by_code("AAAAAA"), None);
}

#[test]
fn test_create_custom_lobby_generates_fresh_code() {
    let mut reg = LobbyRegistry::new();
    let (id1, code1) = reg.create_custom_lobby(0).unwrap();
    let (id2, code2) = reg.create_custom_lobby(0).unwrap();
    assert_ne!(code1, code2);
    assert_ne!(id1, id2);
    assert_eq!(reg.lobbies.len(), 2);
    assert_eq!(reg.find_lobby_by_code(&code1), Some(id1));
    assert_eq!(reg.find_lobby_by_code(&code2), Some(id2));
}

#[test]
fn test_reconnection_visibility_and_cleanup() {
    // Four players; one socket closes; the player stays visible within
    // the grace period, reconnects or is removed after it elapses.
    let mut reg = LobbyRegistry::new();
    let id = reg.get_or_create_channel_lobby("42", None, 0);
    for uid in 1..=4 {
        reg.join(&id, uid, format!("P{}", uid), None).unwrap();
    }
    reg.mark_awaiting_reconnect(&id, 2, 10);

    let lobby_index = reg.find_index(&id).unwrap();
    match lobby_player_list_message(&reg.lobbies[lobby_index]) {
        ServerMessage::LobbyPlayerList { players, .. } => {
            assert_eq!(players.len(), 4, "disconnected player stays visible");
            assert!(players.iter().any(|p| p.user_id == "2"));
        }
        _ => unreachable!(),
    }

    // Within the grace period the sweep removes nobody
    let (removed_players, removed_lobbies) = reg.cleanup(40);
    assert!(removed_players.is_empty());
    assert!(removed_lobbies.is_empty());

    // Reconnect at 30s: connected again, still visible
    reg.join(&id, 2, "P2".to_string(), None).unwrap();
    let (removed_players, _) = reg.cleanup(100);
    assert!(removed_players.is_empty());
    assert_eq!(reg.lobbies[lobby_index].players.len(), 4);

    // Now drop the player again and let the grace elapse
    reg.mark_awaiting_reconnect(&id, 2, 100);
    let (removed_players, _) = reg.cleanup(161);
    assert_eq!(removed_players.len(), 1);
    assert_eq!(removed_players[0], (id.clone(), 2));
    let lobby_index = reg.find_index(&id).unwrap();
    assert_eq!(reg.lobbies[lobby_index].players.len(), 3);
    match lobby_player_list_message(&reg.lobbies[lobby_index]) {
        ServerMessage::LobbyPlayerList { players, .. } => {
            assert!(players.iter().all(|p| p.user_id != "2"));
        }
        _ => unreachable!(),
    }
}

#[test]
fn test_empty_lobby_kept_until_grace_elapses() {
    let mut reg = LobbyRegistry::new();
    let id = reg.get_or_create_channel_lobby("9", None, 0);
    reg.join(&id, 1, "A".to_string(), None).unwrap();
    reg.remove_player(&id, 1, 50);

    // Empty but within its grace: the lobby stays
    let (_, removed) = reg.cleanup(100);
    assert!(removed.is_empty());
    assert!(reg.find_index(&id).is_some());

    // Past the grace the lobby goes
    let (_, removed) = reg.cleanup(171);
    assert_eq!(removed, vec![id.clone()]);
    assert!(reg.find_index(&id).is_none());
}

#[test]
fn test_lobby_types_and_codes() {
    let channel = Lobby::new_channel("123".to_string(), None, 0);
    assert_eq!(channel.lobby_type, LobbyType::Channel);
    assert_eq!(channel.lobby_id, "channel:123");
    assert!(channel.lobby_code.is_none());

    let custom = Lobby::new_custom("ABCDEF".to_string(), 0);
    assert_eq!(custom.lobby_type, LobbyType::Custom);
    assert_eq!(custom.lobby_id, "custom:ABCDEF");
    assert_eq!(custom.lobby_code.as_deref(), Some("ABCDEF"));
}
