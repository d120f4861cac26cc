use spellcast::auth::{
    avatar_url_for, AuthenticatedUser, Claims, CodeExchangeRequest, DiscordUser, TokenResponse,
    UserResponse,
};

#[test]
fn test_authenticated_user_debug() {
    let user = AuthenticatedUser {
        user_id: 123,
        username: "debug_test".to_string(),
    };

    let debug_str = format!("{:?}", user);
    assert!(debug_str.contains("123"), "Debug should contain user_id");
    assert!(
        debug_str.contains("debug_test"),
        "Debug should contain username"
    );
}

#[test]
fn test_authenticated_user_clone() {
    let user = AuthenticatedUser {
        user_id: 456,
        username: "clone_test".to_string(),
    };

    let cloned = user.clone();
    assert_eq!(user.user_id, cloned.user_id);
    assert_eq!(user.username, cloned.username);
}

#[test]
fn test_discord_user_debug() {
    let discord_user = DiscordUser {
        id: "123".to_string(),
        username: "debug_user".to_string(),
        avatar: None,
        global_name: None,
    };

    let debug_str = format!("{:?}", discord_user);
    assert!(debug_str.contains("DiscordUser"));
    assert!(debug_str.contains("123"));
    assert!(debug_str.contains("debug_user"));
}

#[test]
fn test_token_response_debug() {
    let response = TokenResponse {
        access_token: "secret_token".to_string(),
        discord_access_token: Some("discord_secret".to_string()),
    };

    let debug_str = format!("{:?}", response);
    assert!(debug_str.contains("TokenResponse"));
}

#[test]
fn test_user_response_debug() {
    let response = UserResponse {
        user_id: 42,
        username: "debug_test".to_string(),
        avatar_url: None,
    };

    let debug_str = format!("{:?}", response);
    assert!(debug_str.contains("UserResponse"));
    assert!(debug_str.contains("42"));
}

#[test]
fn test_code_exchange_request_debug() {
    let request = CodeExchangeRequest {
        code: "auth_code".to_string(),
    };

    let debug_str = format!("{:?}", request);
    assert!(debug_str.contains("CodeExchangeRequest"));
}

#[test]
fn test_avatar_url_generation() {
    // The avatar address format used after a code exchange
    let user_id = "123456789";
    let avatar_hash = "abc123def456";

    let avatar_url = format!(
        "https://cdn.discordapp.com/avatars/{}/{}.png",
        user_id, avatar_hash
    );

    assert_eq!(
        avatar_url,
        "https://cdn.discordapp.com/avatars/123456789/abc123def456.png"
    );
    assert_eq!(avatar_url_for(user_id, avatar_hash), avatar_url);
}

#[test]
fn test_discord_user_id_parsing() {
    // User IDs are u64 snowflakes
    let small_id = "123456789";
    let large_id = "1234567890123456789";
    let max_i64 = "9223372036854775807";

    // Should parse successfully
    assert!(small_id.parse::<u64>().is_ok());
    assert!(large_id.parse::<u64>().is_ok());
    assert!(max_i64.parse::<u64>().is_ok());

    // Can be cast to i64 for database storage
    let parsed_large = large_id.parse::<u64>().unwrap() as i64;
    assert_eq!(parsed_large, 1234567890123456789i64);
}

#[test]
fn test_claims_fields() {
    let claims = Claims {
        sub: "12345".to_string(),
        username: "test".to_string(),
        exp: 1000000,
    };
    let copy = claims.clone();
    assert_eq!(copy.sub, "12345");
    assert_eq!(copy.username, "test");
    assert_eq!(copy.exp, 1000000);
}
