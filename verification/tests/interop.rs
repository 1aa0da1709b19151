//! The frame format checked against an encoder written directly on the
//! primitive crates, following the wire format description.
use chacha20poly1305::aead::{Aead, Payload};
use chacha20poly1305::{ChaCha20Poly1305, Key, KeyInit, Nonce};
use ed25519_dalek::{Signer, SigningKey};
use moq_secure::wire::{decrypt_frame, encrypt_frame};
use moq_secure::Frame;
use sha2::{Digest, Sha256};

const AEAD_KEY_HEX: &str = "000102030405060708090a0b0c0d0e0f101112131415161718191a1b1c1d1e1f";
const ED25519_SEED_HEX: &str = "9d61b19deffd5a60ba844af492ec2cc44449c5697b326919703bac031cae7f60";

fn hex_decode(s: &str) -> Vec<u8> {
    hex::decode(s).expect("valid hex")
}

fn reference_nonce(key_id: u8, ctr: u64) -> [u8; 12] {
    let mut h = Sha256::new();
    h.update(b"nonce");
    h.update([key_id]);
    h.update(ctr.to_be_bytes());
    let d = h.finalize();
    let mut n = [0u8; 12];
    n.copy_from_slice(&d[..12]);
    n
}

struct Vector {
    name: &'static str,
    key_id: u8,
    ctr: u64,
    n_signed: u8,
    sign: bool,
    encrypted: u8,
    pad_len: u32,
    plaintext: Vec<u8>,
}

fn vectors() -> Vec<Vector> {
    vec![
        Vector { name: "signed-encrypted", key_id: 7, ctr: 1, n_signed: 1, sign: true, encrypted: 1, pad_len: 0, plaintext: b"hello".to_vec() },
        Vector { name: "signed-encrypted-padded", key_id: 7, ctr: 2, n_signed: 3, sign: true, encrypted: 1, pad_len: 5, plaintext: b"padded message".to_vec() },
        Vector { name: "unsigned-encrypted", key_id: 7, ctr: 0x0102030405060708, n_signed: 0, sign: false, encrypted: 1, pad_len: 0, plaintext: b"no signature".to_vec() },
        Vector { name: "signed-plain", key_id: 7, ctr: 9, n_signed: 2, sign: true, encrypted: 0, pad_len: 3, plaintext: b"in the clear".to_vec() },
        Vector { name: "unsigned-plain", key_id: 7, ctr: u64::MAX, n_signed: 0, sign: false, encrypted: 0, pad_len: 0, plaintext: b"long enough plain".to_vec() },
        Vector { name: "empty-encrypted", key_id: 7, ctr: 42, n_signed: 1, sign: true, encrypted: 1, pad_len: 0, plaintext: Vec::new() },
    ]
}

fn reference_frame(key: &[u8; 32], seed: &[u8; 32], v: &Vector) -> Vec<u8> {
    let sig_flag: u8 = if v.n_signed != 0 && v.sign { 1 } else { 0 };
    let mut header = Vec::new();
    header.extend_from_slice(b"MOQS");
    header.push(1);
    header.push(v.key_id);
    header.extend_from_slice(&v.ctr.to_be_bytes());
    header.push(v.n_signed);
    header.push(sig_flag);
    header.push(v.encrypted);
    header.extend_from_slice(&v.pad_len.to_be_bytes());
    let mut padded = vec![0u8; v.pad_len as usize];
    padded.extend_from_slice(&v.plaintext);
    let mut out = header.clone();
    if v.encrypted == 1 {
        let cipher = ChaCha20Poly1305::new(Key::from_slice(key));
        let nonce = reference_nonce(v.key_id, v.ctr);
        let sealed = cipher
            .encrypt(Nonce::from_slice(&nonce), Payload { msg: &padded, aad: &header })
            .expect("seal");
        out.extend_from_slice(&sealed);
    } else {
        out.extend_from_slice(&padded);
    }
    if sig_flag == 1 {
        let digest = Sha256::digest(&out);
        let sig = SigningKey::from_bytes(seed).sign(&digest);
        out.extend_from_slice(&sig.to_bytes());
    }
    out
}

fn key_and_seed() -> ([u8; 32], [u8; 32]) {
    let key: [u8; 32] = hex_decode(AEAD_KEY_HEX).try_into().expect("32-byte key");
    let seed: [u8; 32] = hex_decode(ED25519_SEED_HEX).try_into().expect("32-byte seed");
    (key, seed)
}

#[test]
fn rust_nonce_vectors_match_js() {
    let cases: [(u8, u64); 6] = [(0, 0), (0, 1), (7, 1), (7, 2), (255, u64::MAX), (42, 0x0102030405060708)];
    for (key_id, ctr) in cases {
        let actual = moq_secure::derive_nonce12(key_id, ctr);
        assert_eq!(
            hex::encode(actual),
            hex::encode(reference_nonce(key_id, ctr)),
            "nonce mismatch for key_id={} ctr={}",
            key_id,
            ctr,
        );
    }
}

#[test]
fn rust_consumes_js_frames() {
    let (key, seed) = key_and_seed();
    let verifying_key = SigningKey::from_bytes(&seed).verifying_key().to_bytes();

    let mut keys = [[0u8; 32]; 256];
    keys[7] = key;

    for vector in vectors() {
        let frame_bytes = reference_frame(&key, &seed, &vector);
        // Unsigned frames are accepted on the lease of an earlier signed one.
        let mut lease_remaining = 1u8;
        let plaintext = decrypt_frame(&keys, &verifying_key, &mut lease_remaining, &frame_bytes)
            .unwrap_or_else(|error| panic!("Rust failed to consume {}: {:?}", vector.name, error));
        assert_eq!(plaintext, vector.plaintext, "plaintext mismatch for {}", vector.name);
    }
}

#[test]
fn rust_produces_the_same_frames_as_js() {
    let (key, seed) = key_and_seed();

    let mut keys = [[0u8; 32]; 256];
    keys[7] = key;

    for vector in vectors() {
        let frame_bytes = reference_frame(&key, &seed, &vector);
        let parsed = Frame::parse(&frame_bytes).expect("reference frame should parse");

        let generated = encrypt_frame(
            &keys,
            &seed,
            parsed.header.key_id,
            parsed.header.ctr,
            parsed.header.n_signed,
            parsed.header.sig_flag == 1,
            parsed.header.encrypted,
            parsed.header.pad_len,
            &vector.plaintext,
        )
        .expect("Rust encryption should succeed");

        assert_eq!(generated.serialize(), frame_bytes, "wire mismatch for {}", vector.name);
    }
}
