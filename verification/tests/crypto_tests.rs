use base64::engine::general_purpose::STANDARD as BASE64;
use base64::Engine;
use spellcast::crypto::{decrypt, encrypt, CryptoError};

#[test]
fn test_encrypt_decrypt() {
    // A test key (32 bytes = 256 bits)
    let key = BASE64.encode([0u8; 32]);
    let original = "test_refresh_token_12345";

    let encrypted = encrypt(original, &key).unwrap();
    let decrypted = decrypt(&encrypted, &key).unwrap();

    assert_eq!(original, decrypted);
}

#[test]
fn test_encrypt_produces_different_results() {
    let key = BASE64.encode([0u8; 32]);
    let original = "test_refresh_token_12345";

    let encrypted1 = encrypt(original, &key).unwrap();
    let encrypted2 = encrypt(original, &key).unwrap();

    // Due to random nonces, each encryption should produce different results
    assert_ne!(encrypted1, encrypted2);

    // But both should decrypt to the same value
    assert_eq!(decrypt(&encrypted1, &key).unwrap(), original);
    assert_eq!(decrypt(&encrypted2, &key).unwrap(), original);
}

#[test]
fn test_encrypt_rejects_bad_keys() {
    assert_eq!(encrypt("x", "not base64!").unwrap_err(), CryptoError::InvalidKey);
    let short_key = BASE64.encode([0u8; 16]);
    assert_eq!(encrypt("x", &short_key).unwrap_err(), CryptoError::InvalidKey);
}

#[test]
fn test_decrypt_rejects_tampering() {
    let key = BASE64.encode([7u8; 32]);
    let other_key = BASE64.encode([8u8; 32]);
    let encrypted = encrypt("secret", &key).unwrap();

    assert_eq!(
        decrypt(&encrypted, &other_key).unwrap_err(),
        CryptoError::DecryptionFailed
    );
    assert_eq!(decrypt("AAAA", &key).unwrap_err(), CryptoError::InvalidCiphertext);
    assert_eq!(decrypt("!!", &key).unwrap_err(), CryptoError::InvalidCiphertext);
}
