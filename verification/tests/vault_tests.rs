use std::collections::HashSet;

use device_agent::errors::VaultError;
use device_agent::vault::{decode_key_text, encode_key_text, get_token_location, has_token, Vault};

fn test_key() -> Vec<u8> {
    (0u8..32).collect()
}

#[test]
fn save_then_load_returns_the_credential() {
    let mut vault = Vault::new(test_key());
    assert!(!vault.has_credential());
    vault.save_token("agt_abc123").unwrap();
    assert!(vault.has_credential());
    assert_eq!(vault.load_token().unwrap(), "agt_abc123");
    vault.delete_token();
    assert!(!vault.has_credential());
}

#[test]
fn round_trip_preserves_arbitrary_utf8() {
    let mut vault = Vault::new(test_key());
    let samples = [
        "a",
        "agt_0123456789abcdef",
        "caf\u{00e9} \u{5bc6}\u{7801} \u{00f1}",
        "\u{1F512} bearer \u{2014} token \u{3042}\u{3044}\u{3046}",
        "line\nbreaks\tand spaces  ",
    ];
    for s in samples {
        vault.save_token(s).unwrap();
        assert_eq!(vault.load_token().unwrap(), s, "round trip changed the credential");
    }
}

#[test]
fn thousand_saves_use_thousand_distinct_nonces() {
    let mut vault = Vault::new(test_key());
    let mut nonces: HashSet<Vec<u8>> = HashSet::new();
    for i in 0..1000 {
        let payload = format!("token-{}", i);
        vault.save_token(&payload).unwrap();
        let encoded = vault.encoded_token().unwrap().clone();
        let raw = base64::Engine::decode(
            &base64::engine::general_purpose::STANDARD,
            encoded.as_bytes(),
        )
        .unwrap();
        nonces.insert(raw[..12].to_vec());
    }
    assert_eq!(nonces.len(), 1000, "a nonce was reused");
}

#[test]
fn flipping_any_byte_of_the_stored_token_fails_decryption() {
    let mut vault = Vault::new(test_key());
    vault.save_token("agt_tamper_check").unwrap();
    let encoded = vault.encoded_token().unwrap().clone();
    let raw = base64::Engine::decode(
        &base64::engine::general_purpose::STANDARD,
        encoded.as_bytes(),
    )
    .unwrap();
    for i in 0..raw.len() {
        let mut tampered = raw.clone();
        tampered[i] ^= 0x01;
        let tampered_text =
            base64::Engine::encode(&base64::engine::general_purpose::STANDARD, &tampered);
        let tampered_vault = Vault::restore(test_key(), Some(tampered_text));
        let r = tampered_vault.load_token();
        assert!(
            matches!(r, Err(VaultError::DecryptionFailed)),
            "tampering byte {} did not surface as a decryption failure",
            i
        );
    }
}

#[test]
fn load_with_the_wrong_key_fails_decryption() {
    let mut vault = Vault::new(test_key());
    vault.save_token("agt_secret").unwrap();
    let encoded = vault.encoded_token().unwrap().clone();
    let other_key: Vec<u8> = (100u8..132).collect();
    let other_vault = Vault::restore(other_key, Some(encoded));
    assert!(matches!(other_vault.load_token(), Err(VaultError::DecryptionFailed)));
}

#[test]
fn load_classifies_malformed_stored_tokens() {
    // Nothing stored at all.
    let empty = Vault::new(test_key());
    assert!(matches!(empty.load_token(), Err(VaultError::IoFailure)));

    // Not base64.
    let bad_b64 = Vault::restore(test_key(), Some("!!!not-base64!!!".to_string()));
    assert!(matches!(bad_b64.load_token(), Err(VaultError::EncodeFailure)));

    // Base64 of fewer bytes than one nonce.
    let short =
        base64::Engine::encode(&base64::engine::general_purpose::STANDARD, [1u8, 2, 3]);
    let too_short = Vault::restore(test_key(), Some(short));
    assert!(matches!(too_short.load_token(), Err(VaultError::InvalidFormat)));
}

#[test]
fn decrypted_bytes_that_are_not_utf8_are_an_invalid_format() {
    // Build a well-formed stored token whose plaintext is not UTF-8, by
    // encrypting raw bytes directly with the same algorithm the vault uses.
    let key = test_key();
    let cipher = <aes_gcm::Aes256Gcm as aes_gcm::KeyInit>::new_from_slice(&key).unwrap();
    let nonce_bytes = [9u8; 12];
    let nonce: &aes_gcm::Nonce<aes_gcm::aead::consts::U12> =
        nonce_bytes.as_slice().try_into().unwrap();
    let not_utf8: &[u8] = &[0xff, 0xfe, 0x80];
    let ct = aes_gcm::aead::Aead::encrypt(&cipher, nonce, not_utf8).unwrap();
    let mut raw = nonce_bytes.to_vec();
    raw.extend_from_slice(&ct);
    let encoded = base64::Engine::encode(&base64::engine::general_purpose::STANDARD, &raw);
    let vault = Vault::restore(key, Some(encoded));
    assert!(matches!(vault.load_token(), Err(VaultError::InvalidFormat)));
}

#[test]
fn saving_replaces_the_previous_credential() {
    let mut vault = Vault::new(test_key());
    vault.save_token("first").unwrap();
    vault.save_token("second").unwrap();
    assert_eq!(vault.load_token().unwrap(), "second");
}

#[test]
fn fresh_key_vault_starts_empty_and_key_text_round_trips() {
    let vault = Vault::with_fresh_key().unwrap();
    assert!(!vault.has_credential());
    let text = encode_key_text(vault.key_bytes());
    let decoded = decode_key_text(&text).unwrap();
    assert_eq!(&decoded, vault.key_bytes());
}

#[test]
fn key_text_decoding_classifies_failures() {
    assert!(matches!(
        decode_key_text("@@@@"),
        Err(VaultError::EncodeFailure)
    ));
    let short_key =
        base64::Engine::encode(&base64::engine::general_purpose::STANDARD, [7u8; 16]);
    assert!(matches!(
        decode_key_text(&short_key),
        Err(VaultError::InvalidFormat)
    ));
}

#[test]
fn token_location_prefers_the_system_path() {
    assert_eq!(
        get_token_location(true, true),
        "/usr/local/etc/device-agent/.token"
    );
    assert_eq!(
        get_token_location(true, false),
        "/usr/local/etc/device-agent/.token"
    );
    assert_eq!(get_token_location(false, true), "./.token");
    assert_eq!(get_token_location(false, false), "Not registered");
}

#[test]
fn has_token_checks_either_path() {
    assert!(has_token(true, false));
    assert!(has_token(false, true));
    assert!(has_token(true, true));
    assert!(!has_token(false, false));
}
