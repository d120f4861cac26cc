use vstd::prelude::*;

use aes_gcm::KeyInit;
use vstd::string::StringSliceAdditionalSpecFns;

use crate::rng::random_byte;

verus! {

/// The bytes of an AES-256-GCM key.
pub const KEY_LEN: usize = 32;

/// The bytes of a nonce.
pub const NONCE_LEN: usize = 12;

/// The bytes of the authentication tag appended to a ciphertext.
pub const TAG_LEN: usize = 16;

/// Why an encryption or decryption was refused.
#[derive(Debug, Clone, Copy, PartialEq, Eq, Structural)]
pub enum CryptoError {
    /// The key is not base64, or not 32 bytes
    InvalidKey,
    /// The ciphertext is not base64, or too short to hold a nonce
    InvalidCiphertext,
    /// The cipher refused to encrypt
    EncryptionFailed,
    /// The ciphertext does not authenticate under the key
    DecryptionFailed,
    /// The decrypted bytes are not text
    NotText,
}

/// What the standard base64 alphabet spells for a byte string.
pub uninterp spec fn b64_of(bytes: Seq<u8>) -> Seq<char>;

/// Relies on base64's Engine::encode with the standard alphabet: the
/// text depends on the bytes alone.
#[verifier::external_body]
fn b64_encode(bytes: &Vec<u8>) -> (r: String)
    ensures
        r@ == b64_of(bytes@),
{
    base64::Engine::encode(&base64::engine::general_purpose::STANDARD, bytes)
}

/// Relies on base64's Engine::decode with the standard alphabet:
/// decoding inverts encoding.
#[verifier::external_body]
fn b64_decode(s: &str) -> (r: Result<Vec<u8>, ()>)
    ensures
        forall|v: Seq<u8>| s@ == b64_of(v) ==> r is Ok && r->Ok_0@ == v,
{
    match base64::Engine::decode(&base64::engine::general_purpose::STANDARD, s) {
        Ok(v) => Ok(v),
        Err(_) => Err(()),
    }
}

/// Relies on aead's Aead::encrypt on aes_gcm's Aes256Gcm, whose
/// new_from_slice accepts every 32-byte key: on success, the ciphertext
/// carries the 16-byte authentication tag after the message bytes.
#[verifier::external_body]
fn aead_encrypt(key: &[u8], nonce: &[u8], data: &[u8]) -> (r: Result<Vec<u8>, ()>)
    requires
        key@.len() == 32,
        nonce@.len() == 12,
    ensures
        r matches Ok(c) ==> c@.len() == data@.len() + 16,
{
    let cipher = aes_gcm::Aes256Gcm::new_from_slice(key).unwrap();
    match aes_gcm::aead::Aead::encrypt(&cipher, aes_gcm::Nonce::from_slice(nonce), data) {
        Ok(c) => Ok(c),
        Err(_) => Err(()),
    }
}

/// Relies on aead's Aead::decrypt on aes_gcm's Aes256Gcm, whose
/// new_from_slice accepts every 32-byte key: the plaintext when the
/// ciphertext authenticates under the key and nonce, an error otherwise.
#[verifier::external_body]
fn aead_decrypt(key: &[u8], nonce: &[u8], data: &[u8]) -> (r: Result<Vec<u8>, ()>)
    requires
        key@.len() == 32,
        nonce@.len() == 12,
{
    let cipher = aes_gcm::Aes256Gcm::new_from_slice(key).unwrap();
    match aes_gcm::aead::Aead::decrypt(&cipher, aes_gcm::Nonce::from_slice(nonce), data) {
        Ok(p) => Ok(p),
        Err(_) => Err(()),
    }
}

/// Relies on std's String::from_utf8: the decoded text of valid UTF-8
/// bytes, an error for invalid ones.
#[verifier::external_body]
fn bytes_to_string(v: Vec<u8>) -> (r: Result<String, ()>)
    ensures
        match r {
            Ok(s) => vstd::utf8::valid_utf8(v@) && s@ == vstd::utf8::decode_utf8(v@),
            Err(_) => !vstd::utf8::valid_utf8(v@),
        },
{
    match String::from_utf8(v) {
        Ok(s) => Ok(s),
        Err(_) => Err(()),
    }
}

/// A well-formed key string: the standard base64 of 32 bytes.
pub open spec fn key_wf(key: Seq<char>) -> bool {
    exists|kb: Seq<u8>| key == b64_of(kb) && kb.len() == KEY_LEN
}

/// Decode and check the key.
fn load_key(key: &str) -> (r: Result<Vec<u8>, CryptoError>)
    ensures
        match r {
            Ok(kb) => kb@.len() == KEY_LEN,
            Err(e) => e == CryptoError::InvalidKey && !key_wf(key@),
        },
{
    let key_bytes = match b64_decode(key) {
        Ok(kb) => kb,
        Err(_) => {
            proof {
                assert(!key_wf(key@)) by {
                    if key_wf(key@) {
                        let kb = choose|kb: Seq<u8>| key@ == b64_of(kb) && kb.len() == KEY_LEN;
                    }
                }
            }
            return Err(CryptoError::InvalidKey);
        },
    };
    if key_bytes.len() != KEY_LEN {
        proof {
            assert(!key_wf(key@)) by {
                if key_wf(key@) {
                    let kb = choose|kb: Seq<u8>| key@ == b64_of(kb) && kb.len() == KEY_LEN;
                    assert(key_bytes@ == kb);
                }
            }
        }
        return Err(CryptoError::InvalidKey);
    }
    Ok(key_bytes)
}

/// Encrypt text with AES-256-GCM under a base64-encoded 32-byte key: a
/// fresh random nonce, then the ciphertext and its tag, all base64. A
/// well-formed key is never refused as a key.
pub fn encrypt(data: &str, key: &str) -> (r: Result<String, CryptoError>)
    ensures
        match r {
            Ok(s) => exists|payload: Seq<u8>|
                payload.len() == NONCE_LEN + data.spec_bytes().len() + TAG_LEN && s@ == b64_of(
                    payload,
                ),
            Err(e) => (e == CryptoError::InvalidKey || e == CryptoError::EncryptionFailed) && (e
                == CryptoError::InvalidKey ==> !key_wf(key@)),
        },
{
    let key_bytes = match load_key(key) {
        Ok(kb) => kb,
        Err(e) => {
            return Err(e);
        },
    };
    let mut nonce: Vec<u8> = Vec::new();
    let mut i: usize = 0;
    while i < NONCE_LEN
        invariant
            0 <= i <= NONCE_LEN,
            nonce@.len() == i,
        decreases NONCE_LEN - i,
    {
        nonce.push(random_byte());
        i = i + 1;
    }

    let data_bytes = data.as_bytes();
    let ciphertext = match aead_encrypt(key_bytes.as_slice(), nonce.as_slice(), data_bytes) {
        Ok(c) => c,
        Err(_) => {
            return Err(CryptoError::EncryptionFailed);
        },
    };

    let mut payload = nonce;
    let mut j: usize = 0;
    while j < ciphertext.len()
        invariant
            0 <= j <= ciphertext@.len(),
            payload@.len() == NONCE_LEN + j,
        decreases ciphertext@.len() - j,
    {
        payload.push(ciphertext[j]);
        j = j + 1;
    }
    let encoded = b64_encode(&payload);
    proof {
        assert(payload@.len() == NONCE_LEN + data.spec_bytes().len() + TAG_LEN);
    }
    Ok(encoded)
}

/// Decrypt what `encrypt` produced: split off the nonce, authenticate
/// and decrypt the rest, and read the plaintext as text. A well-formed
/// key is never refused as a key.
pub fn decrypt(encrypted_data: &str, key: &str) -> (r: Result<String, CryptoError>)
    ensures
        match r {
            Ok(s) => exists|pt: Seq<u8>| vstd::utf8::valid_utf8(pt) && s@
                == vstd::utf8::decode_utf8(pt),
            Err(e) => e == CryptoError::InvalidKey ==> !key_wf(key@),
        },
{
    let key_bytes = match load_key(key) {
        Ok(kb) => kb,
        Err(e) => {
            return Err(e);
        },
    };
    let encrypted_bytes = match b64_decode(encrypted_data) {
        Ok(b) => b,
        Err(_) => {
            return Err(CryptoError::InvalidCiphertext);
        },
    };
    if encrypted_bytes.len() < NONCE_LEN {
        return Err(CryptoError::InvalidCiphertext);
    }

    let mut nonce: Vec<u8> = Vec::new();
    let mut i: usize = 0;
    while i < NONCE_LEN
        invariant
            0 <= i <= NONCE_LEN,
            NONCE_LEN <= encrypted_bytes@.len(),
            nonce@.len() == i,
        decreases NONCE_LEN - i,
    {
        nonce.push(encrypted_bytes[i]);
        i = i + 1;
    }
    let mut ciphertext: Vec<u8> = Vec::new();
    let mut j: usize = NONCE_LEN;
    while j < encrypted_bytes.len()
        invariant
            NONCE_LEN <= j <= encrypted_bytes@.len(),
            ciphertext@.len() == j - NONCE_LEN,
        decreases encrypted_bytes@.len() - j,
    {
        ciphertext.push(encrypted_bytes[j]);
        j = j + 1;
    }

    let plaintext = match aead_decrypt(key_bytes.as_slice(), nonce.as_slice(), ciphertext.as_slice()) {
        Ok(p) => p,
        Err(_) => {
            return Err(CryptoError::DecryptionFailed);
        },
    };
    match bytes_to_string(plaintext) {
        Ok(s) => Ok(s),
        Err(_) => Err(CryptoError::NotText),
    }
}

} // verus!
