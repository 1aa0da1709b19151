//! Keys and per-session state of the secure chat: the publisher turns each
//! message into one signed, encrypted frame; the subscriber verifies and
//! decrypts frames with the publisher's keys.
use vstd::prelude::*;

use crate::codec::{read_array32, zeros};
use crate::crypto::{
    ed25519_key_check, ed25519_public_key, spec_ed25519_key_valid, spec_ed25519_public_key,
    AEAD_MAX_MESSAGE_LEN,
};
use crate::encoding::{
    base64_error_text, base64_standard_decode, base64_standard_no_pad_decode, hex_decode,
    hex_encode, hex_error_text, is_hex_string, looks_like_hex64, spec_hex_decode,
    spec_hex_encode,
};
use crate::error::MoqSecureError;
use crate::key_store::{
    is_single_key_table, key_text_is_32, single_key_table, spec_key_text_bytes, KeyStore,
};
use crate::random::{os_random_bytes, os_random_u32};
use crate::text::{push_decimal, spec_decimal, trim_whitespace};
use crate::wire::{
    decrypt_frame, encrypt_frame, lemma_accepted_wire, law_parse_serialize, result_bytes,
    spec_decrypt_frame, spec_expected_open, spec_parse_error, spec_sealed_wire,
    spec_sealing_header,
};

verus! {

/// Why chat keys could not be built.
#[derive(Debug)]
pub enum ChatKeysError {
    KeyIdOutOfRange(u16),
    AeadKeyWrongLen(usize),
    DecodeFailed(String),
}

impl ChatKeysError {
    /// The text of the error, as shown to the user.
    pub open spec fn spec_message(&self) -> Seq<char> {
        match self {
            ChatKeysError::KeyIdOutOfRange(v) => "key_id must be 0..=255 (got "@ + spec_decimal(
                *v as nat,
            ) + ")"@,
            ChatKeysError::AeadKeyWrongLen(n) => "aead key must be 32 bytes (decoded "@
                + spec_decimal(*n as nat) + " bytes)"@,
            ChatKeysError::DecodeFailed(m) => "failed to decode key string as hex or base64: "@
                + m@,
        }
    }

    /// The text of the error, as shown to the user.
    pub fn message(&self) -> (r: String)
        ensures
            r@ == self.spec_message(),
    {
        match self {
            ChatKeysError::KeyIdOutOfRange(v) => {
                let mut m = String::from_str("key_id must be 0..=255 (got ");
                push_decimal(&mut m, *v as u64);
                m.append(")");
                m
            },
            ChatKeysError::AeadKeyWrongLen(n) => {
                let mut m = String::from_str("aead key must be 32 bytes (decoded ");
                push_decimal(&mut m, *n as u64);
                m.append(" bytes)");
                m
            },
            ChatKeysError::DecodeFailed(d) => {
                let mut m = String::from_str("failed to decode key string as hex or base64: ");
                m.append(d.as_str());
                m
            },
        }
    }
}

/// Decodes key text: after trimming, 64 hex digits as hex, anything else
/// as Base64 (padded, then unpadded). The error text is the decoder's.
fn decode_hex_or_b64(s: &str) -> (r: Result<Vec<u8>, ChatKeysError>)
    ensures
        match r {
            Ok(v) => spec_key_text_bytes(s@) == Some(v@),
            Err(e) => spec_key_text_bytes(s@) is None && e is DecodeFailed,
        },
{
    let t = trim_whitespace(s);
    if looks_like_hex64(t) {
        match hex_decode(t) {
            Ok(v) => Ok(v),
            Err(e) => Err(ChatKeysError::DecodeFailed(hex_error_text(&e))),
        }
    } else {
        match base64_standard_decode(t) {
            Ok(v) => Ok(v),
            Err(_) => match base64_standard_no_pad_decode(t) {
                Ok(v) => Ok(v),
                Err(e) => Err(ChatKeysError::DecodeFailed(base64_error_text(&e))),
            },
        }
    }
}

/// Reads AEAD key text as `ChatKeys::from_strings` does: after trimming,
/// 64 hex digits as hex, anything else as Base64 (padded, then unpadded);
/// the key must be 32 bytes.
pub fn decode_aead_key(s: &str) -> (r: Result<[u8; 32], ChatKeysError>)
    ensures
        r is Ok <==> key_text_is_32(s@),
        match r {
            Ok(k) => Some(k@) == spec_key_text_bytes(s@),
            Err(ChatKeysError::AeadKeyWrongLen(n)) => spec_key_text_bytes(s@) matches Some(a)
                && a.len() == n && n != 32,
            Err(ChatKeysError::DecodeFailed(_)) => spec_key_text_bytes(s@) is None,
            Err(ChatKeysError::KeyIdOutOfRange(_)) => false,
        },
{
    let decoded = match decode_hex_or_b64(s) {
        Ok(v) => v,
        Err(e) => {
            return Err(e);
        },
    };
    if decoded.len() != 32 {
        return Err(ChatKeysError::AeadKeyWrongLen(decoded.len()));
    }
    let key = read_array32(decoded.as_slice(), 0);
    assert(key@ =~= decoded@);
    Ok(key)
}

/// Both key texts decode to 32 bytes.
pub open spec fn key_text_is_32_both(aead: Seq<char>, seed: Seq<char>) -> bool {
    key_text_is_32(aead) && key_text_is_32(seed)
}

/// A chat participant's keys: the AEAD key with its id, and the Ed25519
/// signing seed with the matching public verify key.
#[derive(Debug, Clone, Copy)]
pub struct ChatKeys {
    pub key_id: u8,
    pub aead_key: [u8; 32],
    pub signing_private: [u8; 32],
    pub signing_verify: [u8; 32],
}

impl ChatKeys {
    /// The verify key is the public key of the signing seed.
    pub open spec fn wf(&self) -> bool {
        self.signing_verify@ == spec_ed25519_public_key(self.signing_private@)
    }

    /// Fresh random keys; the key id is `key_id` if given, else random.
    pub fn generate(key_id: Option<u8>) -> (r: Result<Self, ChatKeysError>)
        ensures
            r matches Ok(k) && k.wf() && (key_id matches Some(id) ==> k.key_id == id),
    {
        let aead_bytes = os_random_bytes(32);
        let aead_key = read_array32(aead_bytes.as_slice(), 0);
        let key_id = match key_id {
            Some(id) => id,
            None => (os_random_u32() % 256) as u8,
        };
        let seed_bytes = os_random_bytes(32);
        let signing_private = read_array32(seed_bytes.as_slice(), 0);
        let signing_verify = ed25519_public_key(&signing_private);
        Ok(ChatKeys { key_id, aead_key, signing_private, signing_verify })
    }

    /// Keys from an AEAD key and a signing seed; the verify key is derived.
    pub fn from_aead_and_signing(key_id: u8, aead_key: [u8; 32], signing_private: [u8; 32]) -> (r:
        Self)
        ensures
            r.key_id == key_id,
            r.aead_key == aead_key,
            r.signing_private == signing_private,
            r.wf(),
    {
        let signing_verify = ed25519_public_key(&signing_private);
        ChatKeys { key_id, aead_key, signing_private, signing_verify }
    }

    /// The AEAD key as lowercase hex.
    pub fn aead_key_hex(&self) -> (r: String)
        ensures
            r@ == spec_hex_encode(self.aead_key@),
    {
        hex_encode(&self.aead_key)
    }

    /// The public verify key as lowercase hex.
    pub fn signing_verify_hex(&self) -> (r: String)
        ensures
            r@ == spec_hex_encode(self.signing_verify@),
    {
        hex_encode(&self.signing_verify)
    }

    /// The 32-byte signing seed as lowercase hex.
    pub fn signing_private_hex_seed(&self) -> (r: String)
        ensures
            r@ == spec_hex_encode(self.signing_private@),
    {
        hex_encode(&self.signing_private)
    }

    /// Keys from key text (hex or Base64): a 32-byte AEAD key and a 32-byte
    /// signing seed; 64-byte private-key text is refused.
    pub fn from_strings(key_id: u8, aead_key_str: &str, signing_private_seed_or_bytes_str: &str) -> (r:
        Result<Self, ChatKeysError>)
        ensures
            r is Ok <==> key_text_is_32_both(aead_key_str@, signing_private_seed_or_bytes_str@),
            match r {
                Ok(k) => {
                    &&& k.key_id == key_id
                    &&& Some(k.aead_key@) == spec_key_text_bytes(aead_key_str@)
                    &&& Some(k.signing_private@) == spec_key_text_bytes(
                        signing_private_seed_or_bytes_str@,
                    )
                    &&& k.wf()
                },
                Err(ChatKeysError::AeadKeyWrongLen(n)) => spec_key_text_bytes(aead_key_str@)
                    matches Some(a) && a.len() == n && n != 32,
                Err(ChatKeysError::DecodeFailed(m)) => {
                    ||| spec_key_text_bytes(aead_key_str@) is None
                    ||| (spec_key_text_bytes(aead_key_str@) matches Some(a) && a.len() == 32 && {
                        let seed = spec_key_text_bytes(signing_private_seed_or_bytes_str@);
                        ||| seed is None
                        ||| (seed matches Some(s) && s.len() == 64 && m@
                            == "Provided signing key decoded to 64 bytes; expected 32-byte seed hex/base64"@)
                        ||| (seed matches Some(s) && s.len() != 64 && s.len() != 32 && m@
                            == "Provided signing key decoded to "@ + spec_decimal(s.len())
                            + " bytes; expected 32-byte seed"@)
                    })
                },
                Err(ChatKeysError::KeyIdOutOfRange(_)) => false,
            },
    {
        let aead_decoded = match decode_hex_or_b64(aead_key_str) {
            Ok(v) => v,
            Err(e) => {
                return Err(e);
            },
        };
        if aead_decoded.len() != 32 {
            return Err(ChatKeysError::AeadKeyWrongLen(aead_decoded.len()));
        }
        let aead_key = read_array32(aead_decoded.as_slice(), 0);
        assert(aead_key@ =~= aead_decoded@);
        let seed_decoded = match decode_hex_or_b64(signing_private_seed_or_bytes_str) {
            Ok(v) => v,
            Err(e) => {
                return Err(e);
            },
        };
        if seed_decoded.len() == 32 {
            let signing_private = read_array32(seed_decoded.as_slice(), 0);
            assert(signing_private@ =~= seed_decoded@);
            let signing_verify = ed25519_public_key(&signing_private);
            Ok(ChatKeys { key_id, aead_key, signing_private, signing_verify })
        } else if seed_decoded.len() == 64 {
            Err(
                ChatKeysError::DecodeFailed(
                    String::from_str(
                        "Provided signing key decoded to 64 bytes; expected 32-byte seed hex/base64",
                    ),
                ),
            )
        } else {
            let mut m = String::from_str("Provided signing key decoded to ");
            push_decimal(&mut m, seed_decoded.len() as u64);
            m.append(" bytes; expected 32-byte seed");
            Err(ChatKeysError::DecodeFailed(m))
        }
    }

    /// Subscriber keys from key text: the AEAD key (read as
    /// `decode_aead_key` reads it) and the publisher's public verify key
    /// (hex or Base64 as well, 32 bytes, a valid Ed25519 key). A subscriber
    /// holds no signing seed, so that field is 32 zero bytes.
    pub fn from_strings_public_verify(
        key_id: u8,
        aead_key_str: &str,
        signing_public_str: &str,
    ) -> (r: Result<Self, ChatKeysError>)
        ensures
            r is Ok <==> (key_text_is_32(aead_key_str@) && key_text_is_32(signing_public_str@)
                && spec_ed25519_key_valid(spec_key_text_bytes(signing_public_str@)->Some_0)),
            match r {
                Ok(k) => {
                    &&& k.key_id == key_id
                    &&& Some(k.aead_key@) == spec_key_text_bytes(aead_key_str@)
                    &&& Some(k.signing_verify@) == spec_key_text_bytes(signing_public_str@)
                    &&& k.signing_private@ == zeros(32)
                },
                Err(ChatKeysError::AeadKeyWrongLen(n)) => spec_key_text_bytes(aead_key_str@)
                    matches Some(a) && a.len() == n && n != 32,
                Err(ChatKeysError::DecodeFailed(m)) => {
                    ||| spec_key_text_bytes(aead_key_str@) is None
                    ||| (key_text_is_32(aead_key_str@) && {
                        let v = spec_key_text_bytes(signing_public_str@);
                        ||| v is None
                        ||| (v matches Some(b) && b.len() != 32 && m@ == "verify key decoded to "@
                            + spec_decimal(b.len()) + " bytes; expected 32"@)
                        ||| (v matches Some(b) && b.len() == 32 && !spec_ed25519_key_valid(b))
                    })
                },
                Err(ChatKeysError::KeyIdOutOfRange(_)) => false,
            },
    {
        let aead_key = match decode_aead_key(aead_key_str) {
            Ok(k) => k,
            Err(e) => {
                return Err(e);
            },
        };
        let bytes = match decode_hex_or_b64(signing_public_str) {
            Ok(v) => v,
            Err(e) => {
                return Err(e);
            },
        };
        if bytes.len() != 32 {
            let mut m = String::from_str("verify key decoded to ");
            push_decimal(&mut m, bytes.len() as u64);
            m.append(" bytes; expected 32");
            return Err(ChatKeysError::DecodeFailed(m));
        }
        let signing_verify = read_array32(bytes.as_slice(), 0);
        assert(signing_verify@ =~= bytes@);
        match ed25519_key_check(&signing_verify) {
            Ok(()) => {},
            Err(m) => {
                return Err(ChatKeysError::DecodeFailed(m));
            },
        }
        let signing_private = [0u8; 32];
        assert(signing_private@ =~= zeros(32));
        Ok(ChatKeys { key_id, aead_key, signing_private, signing_verify })
    }

    /// The public verify key written as hex, which must be a valid Ed25519
    /// key when it decodes to 32 bytes.
    pub fn verify_from_hex(verify_hex: &str) -> (r: Result<[u8; 32], ChatKeysError>)
        requires
            is_hex_string(verify_hex@) && spec_hex_decode(verify_hex@).len() == 32
                ==> spec_ed25519_key_valid(spec_hex_decode(verify_hex@)),
        ensures
            r is Ok <==> (is_hex_string(verify_hex@) && spec_hex_decode(verify_hex@).len() == 32),
            match r {
                Ok(k) => k@ == spec_hex_decode(verify_hex@),
                Err(ChatKeysError::DecodeFailed(m)) => !is_hex_string(verify_hex@) || m@
                    == "verify key decoded to "@ + spec_decimal(spec_hex_decode(verify_hex@).len())
                    + " bytes; expected 32"@,
                Err(_) => false,
            },
    {
        let bytes = match hex_decode(verify_hex) {
            Ok(v) => v,
            Err(e) => {
                return Err(ChatKeysError::DecodeFailed(hex_error_text(&e)));
            },
        };
        if bytes.len() != 32 {
            let mut m = String::from_str("verify key decoded to ");
            push_decimal(&mut m, bytes.len() as u64);
            m.append(" bytes; expected 32");
            return Err(ChatKeysError::DecodeFailed(m));
        }
        let arr = read_array32(bytes.as_slice(), 0);
        assert(arr@ =~= bytes@);
        Ok(arr)
    }

    /// `verify_from_hex` for any text: `None` when the text decodes to 32
    /// bytes that are not a valid Ed25519 public key, otherwise what
    /// `verify_from_hex` gives.
    pub fn checked_verify_from_hex(verify_hex: &str) -> (r: Option<Result<[u8; 32], ChatKeysError>>)
        ensures
            r is None <==> (is_hex_string(verify_hex@) && spec_hex_decode(verify_hex@).len() == 32
                && !spec_ed25519_key_valid(spec_hex_decode(verify_hex@))),
            r matches Some(Ok(k)) ==> k@ == spec_hex_decode(verify_hex@) && spec_ed25519_key_valid(k@),
            r matches Some(Err(_)) ==> !(is_hex_string(verify_hex@) && spec_hex_decode(verify_hex@).len() == 32),
    {
        if let Ok(bytes) = hex_decode(verify_hex) {
            if bytes.len() == 32 {
                let arr = read_array32(bytes.as_slice(), 0);
                assert(arr@ =~= bytes@);
                if ed25519_key_check(&arr).is_err() {
                    return None;
                }
            }
        }
        Some(ChatKeys::verify_from_hex(verify_hex))
    }
}

/// A key table of 256 keys, zero everywhere except `keys.aead_key` at
/// `keys.key_id` (the table the chat sessions encrypt and decrypt with).
pub open spec fn is_session_table(ks: [[u8; 32]; 256], keys: ChatKeys) -> bool {
    is_single_key_table(ks, keys.key_id, keys.aead_key)
}

/// The session key table for `keys`.
fn keystore_array_for(keys: &ChatKeys) -> (r: [[u8; 32]; 256])
    ensures
        is_session_table(r, *keys),
        r.spec_aead_key(keys.key_id) == Some(keys.aead_key),
{
    single_key_table(keys.key_id, keys.aead_key)
}

/// A chat session: keys plus broadcast and track names.
pub struct ChatSession {
    pub keys: ChatKeys,
    pub broadcast: String,
    pub track: String,
}

impl ChatSession {
    pub fn new(keys: ChatKeys, broadcast: String, track: String) -> (r: Self)
        ensures
            r.keys == keys,
            r.broadcast == broadcast,
            r.track == track,
    {
        ChatSession { keys, broadcast, track }
    }

    /// The session key table.
    fn keystore_array(&self) -> (r: [[u8; 32]; 256])
        ensures
            is_session_table(r, self.keys),
    {
        keystore_array_for(&self.keys)
    }
}

/// The next counter value, wrapping from `u64::MAX` to 0.
pub open spec fn next_ctr(ctr: u64) -> u64 {
    if ctr == u64::MAX {
        0
    } else {
        (ctr + 1) as u64
    }
}

/// The counter after `n` messages sealed from counter `c`.
pub open spec fn spec_ctr_after(c: u64, n: nat) -> u64
    decreases n,
{
    if n == 0 {
        c
    } else {
        next_ctr(spec_ctr_after(c, (n - 1) as nat))
    }
}

/// The counter after `n` messages is `c + n` modulo 2^64.
proof fn lemma_ctr_after(c: u64, n: nat)
    ensures
        spec_ctr_after(c, n) as int == (c as int + n) % 0x1_0000_0000_0000_0000,
    decreases n,
{
    let m: int = 0x1_0000_0000_0000_0000;
    if n > 0 {
        lemma_ctr_after(c, (n - 1) as nat);
        let x = spec_ctr_after(c, (n - 1) as nat);
        assert(next_ctr(x) as int == (x as int + 1) % m);
        vstd::arithmetic::div_mod::lemma_add_mod_noop(c as int + n - 1, 1, m);
        assert(1int % m == 1);
    }
}

/// A publisher never uses a counter twice within 2^64 messages: messages
/// `i` and `j` (counted from any starting counter) get different counters,
/// so with one key no nonce repeats.
pub proof fn law_counters_distinct(c: u64, i: nat, j: nat)
    requires
        i < j < 0x1_0000_0000_0000_0000,
    ensures
        spec_ctr_after(c, i) != spec_ctr_after(c, j),
{
    let m: int = 0x1_0000_0000_0000_0000;
    lemma_ctr_after(c, i);
    lemma_ctr_after(c, j);
    let a: int = c as int + i;
    let b: int = c as int + j;
    vstd::arithmetic::div_mod::lemma_fundamental_div_mod(a, m);
    vstd::arithmetic::div_mod::lemma_fundamental_div_mod(b, m);
    if a % m == b % m {
        assert(b - a == m * (b / m) - m * (a / m));
        assert(m * (b / m) - m * (a / m) == m * (b / m - a / m)) by (nonlinear_arith);
        assert(0 < b - a < m);
        assert(false) by (nonlinear_arith)
            requires
                0 < m * (b / m - a / m) < m,
                m > 0,
        ;
    }
}

/// The publishing side: every message becomes one encrypted frame, signed
/// while `n_signed > 0`, with a counter that advances per message.
pub struct ChatPublisher {
    pub keys: ChatKeys,
    /// 0 disables signing; the publisher starts with 1 (every message signed).
    pub n_signed: u8,
    pub ctr: u64,
}

impl ChatPublisher {
    /// A publisher that signs every message, starting at counter 0.
    pub fn new(keys: ChatKeys) -> (r: Self)
        ensures
            r.keys == keys,
            r.n_signed == 1,
            r.ctr == 0,
    {
        ChatPublisher { keys, n_signed: 1, ctr: 0 }
    }

    /// The wire bytes of the frame carrying `plaintext`: encrypted with the
    /// session key table, no padding, signed when `n_signed > 0`, at the
    /// current counter, which then advances.
    pub fn seal_message(&mut self, plaintext: &[u8]) -> (r: Result<Vec<u8>, MoqSecureError>)
        requires
            plaintext@.len() < AEAD_MAX_MESSAGE_LEN,
        ensures
            final(self).keys == old(self).keys,
            final(self).n_signed == old(self).n_signed,
            final(self).ctr == next_ctr(old(self).ctr),
            r matches Ok(b) && b@ == spec_sealed_wire(
                old(self).keys.aead_key@,
                old(self).keys.signing_private@,
                spec_sealing_header(
                    old(self).keys.key_id,
                    old(self).ctr,
                    old(self).n_signed,
                    true,
                    1,
                    0,
                ),
                plaintext@,
            ),
            match r {
                Ok(b) => spec_parse_error(b@) is None ==> forall|ks: [[u8; 32]; 256], lease: u8|
                is_session_table(ks, old(self).keys) ==> #[trigger] spec_decrypt_frame(
                    &ks,
                    spec_ed25519_public_key(old(self).keys.signing_private@),
                    lease,
                    b@,
                ) == spec_expected_open(
                    old(self).n_signed,
                    if old(self).n_signed != 0 {
                        1u8
                    } else {
                        0u8
                    },
                    lease,
                    plaintext@,
                ),
                Err(_) => true,
            },
    {
        let _len = plaintext.len();
        let ctr = self.ctr;
        self.ctr = self.ctr.wrapping_add(1);
        let table = self.keystore_array();
        match encrypt_frame(
            &table,
            &self.keys.signing_private,
            self.keys.key_id,
            ctr,
            self.n_signed,
            true,
            1,
            0,
            plaintext,
        ) {
            Ok(frame) => {
                let b = frame.serialize();
                proof {
                    if spec_parse_error(b@) is None {
                        lemma_accepted_wire(frame@);
                        law_parse_serialize(frame@);
                        assert forall|ks: [[u8; 32]; 256], lease: u8|
                            is_session_table(ks, old(self).keys) implies #[trigger] spec_decrypt_frame(
                            &ks,
                            spec_ed25519_public_key(old(self).keys.signing_private@),
                            lease,
                            b@,
                        ) == spec_decrypt_frame(
                            &table,
                            spec_ed25519_public_key(old(self).keys.signing_private@),
                            lease,
                            b@,
                        ) by {
                            assert(ks.spec_aead_key(frame.header.key_id) == table.spec_aead_key(
                                frame.header.key_id,
                            ));
                        }
                    }
                }
                Ok(b)
            },
            Err(e) => Err(e),
        }
    }

    /// The session key table.
    fn keystore_array(&self) -> (r: [[u8; 32]; 256])
        ensures
            is_session_table(r, self.keys),
            r.spec_aead_key(self.keys.key_id) == Some(self.keys.aead_key),
    {
        keystore_array_for(&self.keys)
    }
}

/// The receiving side: verifies signatures with the publisher's verify
/// key, keeps the lease, and decrypts with the session key table.
pub struct ChatSubscriber {
    pub verify_key: [u8; 32],
    pub keys: ChatKeys,
    pub lease_remaining: u8,
}

impl ChatSubscriber {
    /// A subscriber for the publisher with these keys, with no lease yet.
    pub fn new(keys: ChatKeys) -> (r: Self)
        ensures
            r.verify_key == keys.signing_verify,
            r.keys == keys,
            r.lease_remaining == 0,
    {
        ChatSubscriber { verify_key: keys.signing_verify, keys, lease_remaining: 0 }
    }

    /// Verifies and decrypts one received frame (see `spec_decrypt_frame`),
    /// updating the lease.
    pub fn open_message(&mut self, frame_bytes: &[u8]) -> (r: Result<Vec<u8>, MoqSecureError>)
        ensures
            final(self).keys == old(self).keys,
            final(self).verify_key == old(self).verify_key,
            exists|ks: [[u8; 32]; 256]|
                is_session_table(ks, old(self).keys) && (
                result_bytes(r),
                final(self).lease_remaining,
            ) == #[trigger] spec_decrypt_frame(
                &ks,
                old(self).verify_key@,
                old(self).lease_remaining,
                frame_bytes@,
            ),
    {
        let table = self.keystore_array();
        let r = decrypt_frame(&table, &self.verify_key, &mut self.lease_remaining, frame_bytes);
        assert(is_session_table(table, old(self).keys));
        r
    }

    /// The session key table.
    fn keystore_array(&self) -> (r: [[u8; 32]; 256])
        ensures
            is_session_table(r, self.keys),
    {
        keystore_array_for(&self.keys)
    }
}

} // verus!
