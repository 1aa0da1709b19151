use ed25519_dalek::{Signer, SigningKey};
use sha2::{Digest, Sha256};
use moq_secure::legacy;
use moq_secure::wire::{FIXED_HEADER_LEN, MIN_FRAME_LEN};
use moq_secure::{
    decrypt_frame, encrypt_frame, Frame, InMemoryKeyStore, MoqSecureError, WireHeader, MAGIC,
    VERSION,
};

const SEED: [u8; 32] = [0x42; 32];
const KEY: [u8; 32] = [0x17; 32];

fn public_key() -> [u8; 32] {
    SigningKey::from_bytes(&SEED).verifying_key().to_bytes()
}

fn store_with(key_id: u8) -> InMemoryKeyStore {
    let mut store = InMemoryKeyStore::empty();
    store.set_key(key_id, KEY);
    store
}

fn header(n_signed: u8, sig_flag: u8, encrypted: u8, pad_len: u32) -> WireHeader {
    WireHeader {
        magic: MAGIC,
        version: VERSION,
        key_id: 3,
        ctr: 0x0102030405060708,
        n_signed,
        sig_flag,
        encrypted,
        pad_len,
    }
}

#[test]
fn header_encodes_fields_in_wire_order() {
    let h = header(2, 1, 1, 0x0a0b0c0d);
    let bytes = h.encode();
    assert_eq!(
        bytes,
        vec![
            b'M', b'O', b'Q', b'S', 1, 3, 1, 2, 3, 4, 5, 6, 7, 8, 2, 1, 1, 0x0a, 0x0b, 0x0c, 0x0d
        ]
    );
    assert_eq!(bytes.len(), FIXED_HEADER_LEN);
    assert_eq!(h.aad(), bytes);
}

#[test]
fn header_validation_reports_first_broken_rule() {
    assert!(header(1, 1, 1, 0).validate().is_ok());
    let mut h = header(1, 1, 1, 0);
    h.magic = *b"MOQX";
    assert!(matches!(h.validate(), Err(MoqSecureError::InvalidMagic)));
    let mut h = header(1, 1, 1, 0);
    h.version = 9;
    assert!(matches!(h.validate(), Err(MoqSecureError::UnsupportedVersion(9))));
    assert!(matches!(header(1, 3, 1, 0).validate(), Err(MoqSecureError::InvalidSigFlag(3))));
    assert!(matches!(
        header(1, 1, 4, 0).validate(),
        Err(MoqSecureError::InvalidEncryptedFlag(4))
    ));
    assert!(matches!(header(0, 1, 1, 0).validate(), Err(MoqSecureError::SigningMismatch)));
}

#[test]
fn signed_encrypted_frame_round_trips() {
    let store = store_with(3);
    let frame = encrypt_frame(&store, &SEED, 3, 10, 2, true, 1, 4, b"abc").expect("sealed");
    assert_eq!(frame.header.sig_flag, 1);
    assert_eq!(frame.header.pad_len, 4);
    assert_eq!(frame.payload.len(), 7);
    let bytes = frame.serialize();
    assert_eq!(bytes.len(), FIXED_HEADER_LEN + 7 + 16 + 64);

    let mut lease = 0u8;
    let plaintext = decrypt_frame(&store, &public_key(), &mut lease, &bytes).expect("opened");
    assert_eq!(plaintext, b"abc".to_vec());
    assert_eq!(lease, 2);
}

#[test]
fn parse_then_serialize_gives_the_same_bytes() {
    let store = store_with(3);
    let frame = encrypt_frame(&store, &SEED, 3, 77, 1, true, 1, 0, b"same bytes").expect("sealed");
    let bytes = frame.serialize();
    let parsed = Frame::parse(&bytes).expect("parses");
    assert_eq!(parsed.serialize(), bytes);
    assert_eq!(parsed.header, frame.header);
    assert_eq!(parsed.aad_bytes(), frame.header.encode());
}

#[test]
fn lease_admits_unsigned_frames_then_refuses() {
    let store = store_with(3);
    let pk = public_key();
    let signed = encrypt_frame(&store, &SEED, 3, 1, 2, true, 1, 0, b"signed").unwrap().serialize();
    let unsigned1 = encrypt_frame(&store, &SEED, 3, 2, 2, false, 1, 0, b"one").unwrap().serialize();
    let unsigned2 = encrypt_frame(&store, &SEED, 3, 3, 2, false, 1, 0, b"two").unwrap().serialize();
    let unsigned3 = encrypt_frame(&store, &SEED, 3, 4, 2, false, 1, 0, b"three").unwrap().serialize();

    let mut lease = 0u8;
    assert!(matches!(
        decrypt_frame(&store, &pk, &mut lease, &unsigned1),
        Err(MoqSecureError::InvalidSignature)
    ));
    assert_eq!(lease, 0);
    assert_eq!(decrypt_frame(&store, &pk, &mut lease, &signed).unwrap(), b"signed".to_vec());
    assert_eq!(lease, 2);
    assert_eq!(decrypt_frame(&store, &pk, &mut lease, &unsigned1).unwrap(), b"one".to_vec());
    assert_eq!(lease, 1);
    assert_eq!(decrypt_frame(&store, &pk, &mut lease, &unsigned2).unwrap(), b"two".to_vec());
    assert_eq!(lease, 0);
    assert!(matches!(
        decrypt_frame(&store, &pk, &mut lease, &unsigned3),
        Err(MoqSecureError::InvalidSignature)
    ));
    assert_eq!(lease, 0);
}

#[test]
fn signing_disabled_leaves_lease_alone() {
    let store = store_with(3);
    let bytes = encrypt_frame(&store, &SEED, 3, 5, 0, true, 1, 0, b"no signing").unwrap().serialize();
    let mut lease = 7u8;
    assert_eq!(
        decrypt_frame(&store, &public_key(), &mut lease, &bytes).unwrap(),
        b"no signing".to_vec()
    );
    assert_eq!(lease, 7);
}

#[test]
fn wrong_verify_key_is_refused_without_touching_lease() {
    let store = store_with(3);
    let bytes = encrypt_frame(&store, &SEED, 3, 5, 4, true, 1, 0, b"hi").unwrap().serialize();
    let other = SigningKey::from_bytes(&[9u8; 32]).verifying_key().to_bytes();
    let mut lease = 1u8;
    assert!(matches!(
        decrypt_frame(&store, &other, &mut lease, &bytes),
        Err(MoqSecureError::InvalidSignature)
    ));
    assert_eq!(lease, 1);
}

#[test]
fn tampered_signed_frame_fails_signature() {
    let store = store_with(3);
    let mut bytes = encrypt_frame(&store, &SEED, 3, 5, 1, true, 1, 0, b"hi there").unwrap().serialize();
    bytes[FIXED_HEADER_LEN] ^= 1;
    let mut lease = 0u8;
    assert!(matches!(
        decrypt_frame(&store, &public_key(), &mut lease, &bytes),
        Err(MoqSecureError::InvalidSignature)
    ));
}

#[test]
fn tampered_unsigned_frame_fails_authentication_and_spends_lease() {
    let store = store_with(3);
    let mut bytes = encrypt_frame(&store, &SEED, 3, 5, 1, false, 1, 0, b"hi there").unwrap().serialize();
    bytes[FIXED_HEADER_LEN] ^= 1;
    let mut lease = 1u8;
    assert!(matches!(
        decrypt_frame(&store, &public_key(), &mut lease, &bytes),
        Err(MoqSecureError::AeadAuthFailed)
    ));
    assert_eq!(lease, 0);
}

#[test]
fn missing_key_is_refused_both_ways() {
    let store = store_with(3);
    assert!(matches!(
        encrypt_frame(&store, &SEED, 9, 0, 1, true, 1, 0, b"x"),
        Err(MoqSecureError::InvalidKeyId(9))
    ));
    let bytes = encrypt_frame(&store, &SEED, 3, 0, 1, true, 1, 0, b"x").unwrap().serialize();
    let empty = InMemoryKeyStore::empty();
    let mut lease = 0u8;
    assert!(matches!(
        decrypt_frame(&empty, &public_key(), &mut lease, &bytes),
        Err(MoqSecureError::InvalidKeyId(3))
    ));
    // The signed frame passed the signature check before the key lookup failed.
    assert_eq!(lease, 1);
}

#[test]
fn invalid_encrypted_flag_is_refused_when_sealing() {
    let store = store_with(3);
    assert!(matches!(
        encrypt_frame(&store, &SEED, 3, 0, 1, true, 2, 0, b"x"),
        Err(MoqSecureError::InvalidEncryptedFlag(2))
    ));
}

#[test]
fn plain_frame_with_too_much_padding_is_refused() {
    let h = header(0, 0, 0, 100);
    let mut bytes = h.encode();
    bytes.extend_from_slice(&[1u8; 7]);
    assert_eq!(bytes.len(), MIN_FRAME_LEN);
    let mut lease = 0u8;
    assert!(matches!(
        decrypt_frame(&InMemoryKeyStore::empty(), &public_key(), &mut lease, &bytes),
        Err(MoqSecureError::InvalidPadLength)
    ));
}

#[test]
fn plain_frame_strips_padding() {
    let h = header(0, 0, 0, 3);
    let mut bytes = h.encode();
    bytes.extend_from_slice(&[0, 0, 0, b'p', b'l', b'a', b'i', b'n']);
    let mut lease = 0u8;
    let pt = decrypt_frame(&InMemoryKeyStore::empty(), &public_key(), &mut lease, &bytes).unwrap();
    assert_eq!(pt, b"plain".to_vec());
}

#[test]
fn signing_flag_without_signing_enabled_is_refused() {
    let h = header(0, 1, 0, 0);
    let mut bytes = h.encode();
    bytes.extend_from_slice(&[5u8; 7 + 64]);
    assert!(matches!(Frame::parse(&bytes), Err(MoqSecureError::SigningMismatch)));
}

#[test]
fn signed_frame_without_room_for_signature_is_truncated() {
    let h = header(1, 1, 0, 0);
    let mut bytes = h.encode();
    bytes.extend_from_slice(&[5u8; 40]);
    assert!(matches!(Frame::parse(&bytes), Err(MoqSecureError::TruncatedFrame)));
}

#[test]
fn digest_does_not_cover_the_signature() {
    let store = store_with(3);
    let frame = encrypt_frame(&store, &SEED, 3, 1, 1, true, 1, 0, b"digest").unwrap();
    let mut stripped = frame.clone();
    stripped.signature = None;
    assert_eq!(frame.digest_for_signature(), stripped.digest_for_signature());
    let mut other = frame.clone();
    other.signature = Some([1u8; 64]);
    assert_eq!(frame.digest_for_signature(), other.digest_for_signature());
}

#[test]
fn decode_plaintext_with_key_store_opens_a_parsed_frame() {
    let store = store_with(3);
    let bytes = encrypt_frame(&store, &SEED, 3, 8, 1, true, 1, 2, b"decoded").unwrap().serialize();
    let frame = Frame::parse(&bytes).unwrap();
    let mut lease = 0u8;
    let pt = frame.decode_plaintext_with_key_store(&store, &public_key(), &mut lease).unwrap();
    assert_eq!(pt, b"decoded".to_vec());
    assert_eq!(lease, 1);
}

#[test]
fn array_key_table_works_as_a_key_store() {
    let mut keys = [[0u8; 32]; 256];
    keys[200] = KEY;
    let bytes = encrypt_frame(&keys, &SEED, 200, 1, 1, true, 1, 0, b"table").unwrap().serialize();
    let mut lease = 0u8;
    assert_eq!(decrypt_frame(&keys, &public_key(), &mut lease, &bytes).unwrap(), b"table".to_vec());
    let store = store_with(200);
    assert_eq!(decrypt_frame(&store, &public_key(), &mut lease, &bytes).unwrap(), b"table".to_vec());
}

#[test]
fn legacy_frames_round_trip() {
    let mut keys = [[0u8; 32]; 256];
    keys[5] = KEY;
    let frame = legacy::encrypt_frame(&keys, &SEED, 5, 11, 1, true, b"legacy");
    assert_eq!(frame.header.sig_flag, 1);
    let bytes = frame.serialize();
    assert_eq!(bytes.len(), legacy::LEGACY_HEADER_LEN + 64 + 6 + 16);
    let parsed = legacy::EncryptedFrame::parse(&bytes).unwrap();
    assert_eq!(parsed.serialize(), bytes);
    assert_eq!(parsed.digest_for_signature(), frame.digest_for_signature());
    let mut lease = 0u8;
    let pt = legacy::decrypt_frame(&keys, &public_key(), &mut lease, &bytes).unwrap();
    assert_eq!(pt, b"legacy".to_vec());
    assert_eq!(lease, 1);
    assert!(parsed.aead_encrypt_for(&KEY).is_ok());
}

#[test]
fn legacy_parse_errors() {
    assert!(matches!(
        legacy::EncryptedFrame::parse(&[0u8; 32]),
        Err(MoqSecureError::TruncatedFrame)
    ));
    let mut b = vec![0u8; 33];
    assert!(matches!(legacy::EncryptedFrame::parse(&b), Err(MoqSecureError::InvalidMagic)));
    b[0..4].copy_from_slice(b"MOQS");
    b[4] = 3;
    assert!(matches!(
        legacy::EncryptedFrame::parse(&b),
        Err(MoqSecureError::UnsupportedVersion(3))
    ));
    b[4] = 1;
    b[15] = 1;
    b[14] = 1;
    assert!(matches!(legacy::EncryptedFrame::parse(&b), Err(MoqSecureError::TruncatedFrame)));
}

#[test]
fn legacy_ciphertext_is_as_long_as_the_plaintext() {
    let mut keys = [[0u8; 32]; 256];
    keys[1] = KEY;
    let frame = legacy::encrypt_frame(&keys, &SEED, 1, 3, 0, false, b"twelve bytes");
    assert_eq!(frame.ciphertext.len(), 12);
    assert_eq!(frame.header.sig_flag, 0);
}

#[test]
fn plain_signed_frame_bytes_depend_only_on_the_arguments() {
    let store = store_with(3);
    let a = encrypt_frame(&store, &SEED, 3, 9, 2, true, 0, 2, b"clear text").unwrap().serialize();
    let b = encrypt_frame(&store, &SEED, 3, 9, 2, true, 0, 2, b"clear text").unwrap().serialize();
    assert_eq!(a, b);
    let mut body = header(2, 1, 0, 2).encode();
    body[5] = 3;
    body[6..14].copy_from_slice(&9u64.to_be_bytes());
    body.extend_from_slice(&[0, 0]);
    body.extend_from_slice(b"clear text");
    let sig = SigningKey::from_bytes(&SEED).sign(&Sha256::digest(&body));
    body.extend_from_slice(&sig.to_bytes());
    assert_eq!(a, body);
}
