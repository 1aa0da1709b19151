use base64::engine::general_purpose::{STANDARD, STANDARD_NO_PAD};
use base64::Engine;
use ed25519_dalek::SigningKey;
use moq_secure::chat::{ChatKeys, ChatKeysError};
use moq_secure::key_store::DecodeFailed;
use moq_secure::{InMemoryKeyStore, KeyStore, KeyStoreError};

const KEY: [u8; 32] = [0xab; 32];

#[test]
fn store_set_get_remove() {
    let mut store = InMemoryKeyStore::empty();
    assert!(!store.contains_key(4));
    assert!(store.aead_key(4).is_none());
    store.set_key(4, KEY);
    assert!(store.contains_key(4));
    assert_eq!(store.aead_key(4), Some(&KEY));
    assert!(store.aead_key(5).is_none());
    store.set_key(4, [1u8; 32]);
    assert_eq!(store.aead_key(4), Some(&[1u8; 32]));
    assert!(store.remove_key(4).is_ok());
    assert!(!store.contains_key(4));
    assert!(store.aead_key(4).is_none());
    assert!(matches!(store.remove_key(4), Err(KeyStoreError::KeyNotLoaded(4))));
}

#[test]
fn store_accepts_hex_key_text() {
    let mut store = InMemoryKeyStore::empty();
    let text = format!("  {}\n", hex::encode(KEY));
    assert!(store.set_key_encoded(9, &text).is_ok());
    assert_eq!(store.aead_key(9), Some(&KEY));
    let upper = hex::encode_upper([0x5cu8; 32]);
    assert!(store.set_key_encoded(10, &upper).is_ok());
    assert_eq!(store.aead_key(10), Some(&[0x5c; 32]));
}

#[test]
fn store_accepts_padded_and_unpadded_base64() {
    let mut store = InMemoryKeyStore::empty();
    assert!(store.set_key_encoded(1, &STANDARD.encode(KEY)).is_ok());
    assert_eq!(store.aead_key(1), Some(&KEY));
    let unpadded = STANDARD_NO_PAD.encode([7u8; 32]);
    assert!(!unpadded.ends_with('='));
    assert!(store.set_key_encoded(2, &unpadded).is_ok());
    assert_eq!(store.aead_key(2), Some(&[7u8; 32]));
}

#[test]
fn store_refuses_wrong_length_and_bad_text() {
    let mut store = InMemoryKeyStore::empty();
    store.set_key(1, KEY);
    assert!(matches!(
        store.set_key_encoded(1, &STANDARD.encode([3u8; 16])),
        Err(KeyStoreError::KeyWrongLength(16))
    ));
    assert!(matches!(
        store.set_key_encoded(1, "not base64 at all!"),
        Err(KeyStoreError::DecodeFailed(DecodeFailed::Base64(_)))
    ));
    assert_eq!(store.aead_key(1), Some(&KEY));
}

#[test]
fn chat_keys_from_strings_derives_verify_key() {
    let seed = [0x21u8; 32];
    let keys = ChatKeys::from_strings(12, &hex::encode(KEY), &STANDARD.encode(seed)).unwrap();
    assert_eq!(keys.key_id, 12);
    assert_eq!(keys.aead_key, KEY);
    assert_eq!(keys.signing_private, seed);
    assert_eq!(keys.signing_verify, SigningKey::from_bytes(&seed).verifying_key().to_bytes());
    assert_eq!(keys.aead_key_hex(), hex::encode(KEY));
    assert_eq!(keys.signing_private_hex_seed(), hex::encode(seed));
    assert_eq!(keys.signing_verify_hex(), hex::encode(keys.signing_verify));
}

#[test]
fn chat_keys_from_strings_errors() {
    let seed_hex = hex::encode([0x21u8; 32]);
    assert!(matches!(
        ChatKeys::from_strings(1, &STANDARD.encode([1u8; 16]), &seed_hex),
        Err(ChatKeysError::AeadKeyWrongLen(16))
    ));
    match ChatKeys::from_strings(1, &hex::encode(KEY), &STANDARD.encode([2u8; 64])) {
        Err(ChatKeysError::DecodeFailed(m)) => assert_eq!(
            m,
            "Provided signing key decoded to 64 bytes; expected 32-byte seed hex/base64"
        ),
        other => panic!("unexpected {:?}", other),
    }
    match ChatKeys::from_strings(1, &hex::encode(KEY), &STANDARD.encode([2u8; 20])) {
        Err(ChatKeysError::DecodeFailed(m)) => {
            assert_eq!(m, "Provided signing key decoded to 20 bytes; expected 32-byte seed")
        }
        other => panic!("unexpected {:?}", other),
    }
    assert!(matches!(
        ChatKeys::from_strings(1, "%%%", &seed_hex),
        Err(ChatKeysError::DecodeFailed(_))
    ));
}

#[test]
fn chat_keys_from_aead_and_signing_and_generate() {
    let seed = [0x33u8; 32];
    let keys = ChatKeys::from_aead_and_signing(3, KEY, seed);
    assert_eq!(keys.signing_verify, SigningKey::from_bytes(&seed).verifying_key().to_bytes());
    let g = ChatKeys::generate(Some(77)).unwrap();
    assert_eq!(g.key_id, 77);
    assert_eq!(
        g.signing_verify,
        SigningKey::from_bytes(&g.signing_private).verifying_key().to_bytes()
    );
    let h = ChatKeys::generate(None).unwrap();
    assert_ne!(h.aead_key, g.aead_key);
}

#[test]
fn verify_key_from_hex() {
    let vk = SigningKey::from_bytes(&[0x44u8; 32]).verifying_key().to_bytes();
    let parsed = ChatKeys::checked_verify_from_hex(&hex::encode(vk)).unwrap().unwrap();
    assert_eq!(parsed, vk);
    match ChatKeys::checked_verify_from_hex("abcd") {
        Some(Err(ChatKeysError::DecodeFailed(m))) => {
            assert_eq!(m, "verify key decoded to 2 bytes; expected 32")
        }
        other => panic!("unexpected {:?}", other),
    }
    assert!(matches!(
        ChatKeys::checked_verify_from_hex("zz"),
        Some(Err(ChatKeysError::DecodeFailed(_)))
    ));
}

#[test]
fn subscriber_keys_from_text() {
    let vk = SigningKey::from_bytes(&[0x21u8; 32]).verifying_key().to_bytes();
    let keys = ChatKeys::from_strings_public_verify(4, &STANDARD_NO_PAD.encode(KEY), &STANDARD.encode(vk)).unwrap();
    assert_eq!(keys.key_id, 4);
    assert_eq!(keys.aead_key, KEY);
    assert_eq!(keys.signing_verify, vk);
    assert_eq!(keys.signing_private, [0u8; 32]);
    assert!(matches!(
        ChatKeys::from_strings_public_verify(4, &STANDARD.encode([1u8; 8]), &hex::encode(vk)),
        Err(ChatKeysError::AeadKeyWrongLen(8))
    ));
    match ChatKeys::from_strings_public_verify(4, &hex::encode(KEY), &STANDARD.encode([1u8; 16])) {
        Err(ChatKeysError::DecodeFailed(m)) => assert_eq!(m, "verify key decoded to 16 bytes; expected 32"),
        other => panic!("unexpected {:?}", other),
    }
    assert!(matches!(
        ChatKeys::from_strings_public_verify(4, &hex::encode(KEY), "%%%"),
        Err(ChatKeysError::DecodeFailed(_))
    ));
}
