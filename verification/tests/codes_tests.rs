use spellcast::codes::{encode_lobby_code_to_i64, parse_i64, parse_lobby_id, LobbyIdError};

#[test]
fn test_encode_lobby_code_basic() {
    // Test basic encoding - should return negative values
    let code = "ABC123";
    let encoded = encode_lobby_code_to_i64(code);
    assert!(encoded <= 0, "Encoded value should be negative or zero");
}

#[test]
fn test_encode_lobby_code_different_codes_produce_different_values() {
    let code1 = "ABC123";
    let code2 = "XYZ789";
    let code3 = "GAME01";

    let encoded1 = encode_lobby_code_to_i64(code1);
    let encoded2 = encode_lobby_code_to_i64(code2);
    let encoded3 = encode_lobby_code_to_i64(code3);

    assert_ne!(encoded1, encoded2);
    assert_ne!(encoded2, encoded3);
    assert_ne!(encoded1, encoded3);
}

#[test]
fn test_encode_lobby_code_case_insensitive() {
    // Uppercase and lowercase should produce the same encoding
    let upper = "ABC123";
    let lower = "abc123";

    let encoded_upper = encode_lobby_code_to_i64(upper);
    let encoded_lower = encode_lobby_code_to_i64(lower);

    assert_eq!(
        encoded_upper, encoded_lower,
        "Encoding should be case-insensitive"
    );
}

#[test]
fn test_encode_lobby_code_empty_string() {
    let code = "";
    let encoded = encode_lobby_code_to_i64(code);
    // Empty string: value = 0, and the value is subtracted from one
    assert_eq!(encoded, 1);
}

#[test]
fn test_encode_lobby_code_single_char() {
    // Test single character codes
    assert_eq!(encode_lobby_code_to_i64("0"), 1);
    assert_eq!(encode_lobby_code_to_i64("1"), 0);
    assert_eq!(encode_lobby_code_to_i64("A"), -9);
    assert_eq!(encode_lobby_code_to_i64("Z"), -34);
}

#[test]
fn test_encode_lobby_code_truncates_to_six_chars() {
    // Codes longer than 6 characters should be truncated
    let short = "ABC123";
    let long = "ABC123XYZ";

    let encoded_short = encode_lobby_code_to_i64(short);
    let encoded_long = encode_lobby_code_to_i64(long);

    assert_eq!(
        encoded_short, encoded_long,
        "Codes should be truncated to 6 characters"
    );
}

#[test]
fn test_encode_lobby_code_special_chars_treated_as_zero() {
    // Special characters should be treated as 0
    let with_special = "AB-123";
    let without_special = "AB0123";

    let encoded_special = encode_lobby_code_to_i64(with_special);
    let encoded_without = encode_lobby_code_to_i64(without_special);

    assert_eq!(
        encoded_special, encoded_without,
        "Special chars should be treated as 0"
    );
}

#[test]
fn test_encode_lobby_code_numeric_only() {
    // Test purely numeric codes
    let code = "123456";
    let encoded = encode_lobby_code_to_i64(code);
    assert!(encoded <= 0, "Encoded value should be negative or zero");

    // Different numeric codes should produce different values
    let code2 = "654321";
    let encoded2 = encode_lobby_code_to_i64(code2);
    assert_ne!(encoded, encoded2);
}

#[test]
fn test_encode_lobby_code_alphabetic_only() {
    // Test purely alphabetic codes
    let code = "ABCDEF";
    let encoded = encode_lobby_code_to_i64(code);
    assert!(encoded < 0, "Encoded alphabetic value should be negative");

    let code2 = "ZZZZZZ";
    let encoded2 = encode_lobby_code_to_i64(code2);
    assert!(encoded2 < 0, "All Z's should be negative");
    assert!(
        encoded2 < encoded,
        "ZZZZZZ should be more negative than ABCDEF"
    );
}

#[test]
fn test_encode_lobby_code_max_value() {
    // Test encoding of maximum base-36 value for 6 characters
    let code = "ZZZZZZ";
    let encoded = encode_lobby_code_to_i64(code);
    assert!(encoded < 0, "Max code should produce negative value");
    assert!(encoded > i64::MIN, "Should not overflow");
}

#[test]
fn test_lobby_id_distinguishes_channel_from_custom() {
    // A custom lobby with code "000000" should NOT collide with channel ID 0
    let custom_encoded = encode_lobby_code_to_i64("000000");
    assert_eq!(custom_encoded, 1);

    // Custom lobbies are distinguishable because real channel IDs
    // are large positive numbers, not small values like 0 or 1
}

#[test]
fn test_parse_channel_lobby_id() {
    // Test parsing of channel-based lobby IDs
    let lobby_id = "channel:123456789";
    let expected_channel_id: i64 = 123456789;

    let result = parse_lobby_id(lobby_id);
    assert!(result.is_ok(), "Should successfully parse channel lobby ID");

    let (channel_id, guild_id) = result.unwrap();
    assert_eq!(channel_id, expected_channel_id);
    assert!(guild_id.is_none(), "Guild ID should be None for channel lobby");
}

#[test]
fn test_parse_custom_lobby_id() {
    // Test parsing of custom lobby IDs
    let lobby_id = "custom:ABC123";

    let result = parse_lobby_id(lobby_id);
    assert!(result.is_ok(), "Should successfully parse custom lobby ID");

    let (channel_id, guild_id) = result.unwrap();
    assert!(
        channel_id <= 0,
        "Custom lobby channel_id should be non-positive"
    );
    assert!(guild_id.is_none(), "Guild ID should be None for custom lobby");
}

#[test]
fn test_parse_raw_channel_id() {
    // Test parsing of raw channel IDs (fallback case)
    let lobby_id = "987654321";

    let result = parse_lobby_id(lobby_id);
    assert!(result.is_ok(), "Should successfully parse raw channel ID");

    let (channel_id, guild_id) = result.unwrap();
    assert_eq!(channel_id, 987654321);
    assert!(guild_id.is_none(), "Guild ID should be None for raw channel ID");
}

#[test]
fn test_parse_invalid_lobby_id() {
    // Test parsing of invalid lobby IDs
    let lobby_id = "invalid:format";

    let result = parse_lobby_id(lobby_id);
    assert!(
        result.is_err(),
        "Should return error for invalid lobby ID format"
    );
}

#[test]
fn test_parse_lobby_id_invalid_channel_number() {
    // Test parsing of channel lobby ID with invalid number
    let lobby_id = "channel:not_a_number";

    let result = parse_lobby_id(lobby_id);
    assert!(
        result.is_err(),
        "Should return error for invalid channel number"
    );
}

#[test]
fn test_parse_lobby_id_empty_custom_code() {
    // Test parsing of custom lobby ID with empty code
    let lobby_id = "custom:";

    let result = parse_lobby_id(lobby_id);
    assert!(
        result.is_err(),
        "Should return error for empty custom lobby code"
    );
    assert_eq!(result.unwrap_err(), LobbyIdError::EmptyCustomCode);
}

#[test]
fn test_parse_i64_accepts_plain_numbers() {
    assert_eq!(parse_i64("0"), Some(0));
    assert_eq!(parse_i64("42"), Some(42));
    assert_eq!(parse_i64("-7"), Some(-7));
    assert_eq!(parse_i64("+9"), Some(9));
    assert_eq!(parse_i64("0009"), Some(9));
    assert_eq!(parse_i64("9223372036854775807"), Some(i64::MAX));
    assert_eq!(parse_i64("-9223372036854775808"), Some(i64::MIN));
}

#[test]
fn test_parse_i64_rejects_bad_input() {
    assert_eq!(parse_i64(""), None);
    assert_eq!(parse_i64("-"), None);
    assert_eq!(parse_i64("12a"), None);
    assert_eq!(parse_i64(" 12"), None);
    assert_eq!(parse_i64("9223372036854775808"), None);
    assert_eq!(parse_i64("-9223372036854775809"), None);
    assert_eq!(parse_i64("99999999999999999999999"), None);
}
