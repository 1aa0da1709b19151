//! Symmetric AEAD keys, selected by the frame's one-byte key id.
use vstd::prelude::*;
use zeroize::{Zeroize, Zeroizing};

use crate::codec::{read_array32, zeros};
use crate::encoding::{
    base64_standard_decode, base64_standard_no_pad_decode, hex_decode, is_hex64, looks_like_hex64,
    spec_base64_standard_decode, spec_base64_standard_no_pad_decode, spec_hex_decode,
};
use crate::text::{spec_trim, trim_whitespace};

verus! {

/// A source of 32-byte AEAD keys indexed by key id.
pub trait KeyStore {
    /// The key stored under `key_id`, if any.
    spec fn spec_aead_key(&self, key_id: u8) -> Option<[u8; 32]>;

    /// Looks up the key stored under `key_id`.
    fn aead_key(&self, key_id: u8) -> (r: Option<&[u8; 32]>)
        ensures
            match r {
                Some(k) => self.spec_aead_key(key_id) == Some(*k),
                None => self.spec_aead_key(key_id) is None,
            },
    ;
}

/// A table of 256 keys in which every slot holds a key (the form the chat
/// sessions build: all-zero keys except the one in use).
impl KeyStore for [[u8; 32]; 256] {
    open spec fn spec_aead_key(&self, key_id: u8) -> Option<[u8; 32]> {
        Some(self@[key_id as int])
    }

    fn aead_key(&self, key_id: u8) -> (r: Option<&[u8; 32]>) {
        Some(&self[key_id as usize])
    }
}

/// A table of 256 keys that holds `key` at `key_id` and 32 zero bytes
/// everywhere else.
pub open spec fn is_single_key_table(ks: [[u8; 32]; 256], key_id: u8, key: [u8; 32]) -> bool {
    &&& ks@[key_id as int] == key
    &&& forall|j: int| 0 <= j < 256 && j != key_id ==> #[trigger] ks@[j]@ == zeros(32)
}

/// The table holding `key` at `key_id` and zero keys elsewhere.
pub fn single_key_table(key_id: u8, key: [u8; 32]) -> (r: [[u8; 32]; 256])
    ensures
        is_single_key_table(r, key_id, key),
{
    let zero = [0u8; 32];
    assert(zero@ =~= zeros(32));
    let mut ks = [zero; 256];
    ks[key_id as usize] = key;
    ks
}

/// Why a key could not be stored or removed.
#[derive(Debug)]
pub enum KeyStoreError {
    KeyNotLoaded(u8),
    KeyWrongLength(usize),
    DecodeFailed(DecodeFailed),
}

/// Why key text could not be decoded.
#[derive(Debug)]
pub enum DecodeFailed {
    Hex(hex::FromHexError),
    Base64(base64::DecodeError),
    HexWrongLength,
    Other,
}

/// Calls `Zeroize::zeroize` of the `zeroize` crate on one stored key.
/// Claims: that key becomes 32 zero bytes and nothing else changes.
#[verifier::external_body]
fn zeroize_key_slot(keys: &mut [[u8; 32]; 256], i: usize)
    requires
        i < 256,
    ensures
        final(keys)@[i as int]@ == zeros(32),
        forall|j: int| 0 <= j < 256 && j != i ==> final(keys)@[j] == old(keys)@[j],
{
    keys[i].zeroize();
}

/// Calls `Zeroize::zeroize` of the `zeroize` crate on a byte vector
/// holding decoded key material. Claims: the vector is left empty (the
/// crate zeroes its contents and spare capacity, then clears it).
#[verifier::external_body]
fn zeroize_bytes(v: &mut Vec<u8>)
    ensures
        final(v)@.len() == 0,
{
    v.zeroize();
}

/// A key table held in the `Zeroizing` wrapper of the `zeroize` crate,
/// which zeroizes the table when it is dropped.
#[verifier::external_body]
pub struct ZeroizingKeys {
    table: Zeroizing<[[u8; 32]; 256]>,
}

/// The key table that a `ZeroizingKeys` holds.
pub uninterp spec fn spec_zeroizing_keys(z: ZeroizingKeys) -> [[u8; 32]; 256];

/// Calls `Zeroizing::new` of the `zeroize` crate on a key table. Claims:
/// the wrapper holds that table.
#[verifier::external_body]
fn zeroizing_keys_new(table: [[u8; 32]; 256]) -> (r: ZeroizingKeys)
    ensures
        spec_zeroizing_keys(r) == table,
{
    ZeroizingKeys { table: Zeroizing::new(table) }
}

/// Calls `Deref::deref` of `Zeroizing`. Claims: the reference is to the
/// table the wrapper holds.
#[verifier::external_body]
fn zeroizing_keys_ref(z: &ZeroizingKeys) -> (r: &[[u8; 32]; 256])
    ensures
        *r == spec_zeroizing_keys(*z),
{
    &*z.table
}

/// Calls `DerefMut::deref_mut` of `Zeroizing`. Claims: the reference is to
/// the table the wrapper holds, and the wrapper then holds whatever the
/// table has become through it.
#[verifier::external_body]
fn zeroizing_keys_mut(z: &mut ZeroizingKeys) -> (r: &mut [[u8; 32]; 256])
    ensures
        *r == spec_zeroizing_keys(*old(z)),
        spec_zeroizing_keys(*final(z)) == *final(r),
{
    &mut *z.table
}

/// Up to 256 AEAD keys held in memory, one per key id. Keys are zeroized
/// when removed and when the store is dropped.
pub struct InMemoryKeyStore {
    keys: ZeroizingKeys,
    loaded: [bool; 256],
}

impl View for InMemoryKeyStore {
    type V = Map<u8, [u8; 32]>;

    closed spec fn view(&self) -> Map<u8, [u8; 32]> {
        Map::new(|k: u8| self.loaded@[k as int], |k: u8| spec_zeroizing_keys(self.keys)@[k as int])
    }
}

/// The Base64 reading of key text: padded Base64 first, then unpadded.
pub open spec fn spec_base64_key_decode(t: Seq<char>) -> Option<Seq<u8>> {
    match spec_base64_standard_decode(t) {
        Some(v) => Some(v),
        None => spec_base64_standard_no_pad_decode(t),
    }
}

/// The bytes that key text decodes to, before the length check: after
/// trimming, 64 hex digits are read as hex, anything else as Base64.
pub open spec fn spec_key_text_bytes(s: Seq<char>) -> Option<Seq<u8>> {
    let t = spec_trim(s);
    if is_hex64(t) {
        Some(spec_hex_decode(t))
    } else {
        spec_base64_key_decode(t)
    }
}

/// Key text that decodes to exactly 32 bytes.
pub open spec fn key_text_is_32(s: Seq<char>) -> bool {
    spec_key_text_bytes(s) matches Some(b) && b.len() == 32
}

impl InMemoryKeyStore {
    /// A store with no keys.
    pub fn empty() -> (r: Self)
        ensures
            r@ == Map::<u8, [u8; 32]>::empty(),
    {
        let keys = zeroizing_keys_new([[0u8; 32]; 256]);
        let loaded = [false; 256];
        let r = InMemoryKeyStore { keys, loaded };
        assert(r@ =~= Map::<u8, [u8; 32]>::empty());
        r
    }

    /// Stores `key` under `key_id`, replacing any key there.
    pub fn set_key(&mut self, key_id: u8, key: [u8; 32])
        ensures
            final(self)@ == old(self)@.insert(key_id, key),
    {
        let table = zeroizing_keys_mut(&mut self.keys);
        table[key_id as usize] = key;
        self.loaded[key_id as usize] = true;
        assert(self@ =~= old(self)@.insert(key_id, key));
    }

    /// Decodes key text and stores it under `key_id`.
    ///
    /// After trimming whitespace, 64 hexadecimal digits are read as hex;
    /// anything else is read as Base64, padded first and then unpadded.
    /// The decoded key must be exactly 32 bytes. Decoded buffers are
    /// zeroized.
    pub fn set_key_encoded(&mut self, key_id: u8, key_encoded: &str) -> (r: Result<
        (),
        KeyStoreError,
    >)
        ensures
            r is Ok <==> (spec_key_text_bytes(key_encoded@) matches Some(b) && b.len() == 32),
            match r {
                Ok(()) => {
                    &&& final(self)@.dom() == old(self)@.dom().insert(key_id)
                    &&& Some(final(self)@[key_id]@) == spec_key_text_bytes(key_encoded@)
                    &&& final(self)@.remove(key_id) == old(self)@.remove(key_id)
                },
                Err(e) => {
                    &&& final(self)@ == old(self)@
                    &&& !is_hex64(spec_trim(key_encoded@))
                    &&& match e {
                        KeyStoreError::KeyWrongLength(n) => spec_key_text_bytes(key_encoded@)
                            matches Some(b) && b.len() == n && n != 32,
                        KeyStoreError::DecodeFailed(DecodeFailed::Base64(_)) => spec_key_text_bytes(
                            key_encoded@,
                        ) is None,
                        _ => false,
                    }
                },
            },
    {
        let t = trim_whitespace(key_encoded);
        if looks_like_hex64(t) {
            let mut decoded = match hex_decode(t) {
                Ok(v) => v,
                Err(e) => {
                    return Err(KeyStoreError::DecodeFailed(DecodeFailed::Hex(e)));
                },
            };
            assert(decoded@.len() == 32);
            let key = read_array32(decoded.as_slice(), 0);
            assert(key@ =~= decoded@);
            zeroize_bytes(&mut decoded);
            self.set_key(key_id, key);
            assert(self@.dom() =~= old(self)@.dom().insert(key_id));
            assert(self@.remove(key_id) =~= old(self)@.remove(key_id));
            return Ok(());
        }
        let mut decoded = match base64_standard_decode(t) {
            Ok(v) => v,
            Err(_) => match base64_standard_no_pad_decode(t) {
                Ok(v) => v,
                Err(e) => {
                    return Err(KeyStoreError::DecodeFailed(DecodeFailed::Base64(e)));
                },
            },
        };
        if decoded.len() != 32 {
            let n = decoded.len();
            zeroize_bytes(&mut decoded);
            return Err(KeyStoreError::KeyWrongLength(n));
        }
        let key = read_array32(decoded.as_slice(), 0);
        assert(key@ =~= decoded@);
        zeroize_bytes(&mut decoded);
        self.set_key(key_id, key);
        assert(self@.dom() =~= old(self)@.dom().insert(key_id));
        assert(self@.remove(key_id) =~= old(self)@.remove(key_id));
        Ok(())
    }

    /// Zeroizes and removes the key under `key_id`; fails if none is there.
    pub fn remove_key(&mut self, key_id: u8) -> (r: Result<(), KeyStoreError>)
        ensures
            r is Ok <==> old(self)@.contains_key(key_id),
            final(self)@ == old(self)@.remove(key_id),
            r matches Err(e) ==> e == KeyStoreError::KeyNotLoaded(key_id),
    {
        if !self.loaded[key_id as usize] {
            assert(self@ =~= old(self)@.remove(key_id));
            return Err(KeyStoreError::KeyNotLoaded(key_id));
        }
        zeroize_key_slot(zeroizing_keys_mut(&mut self.keys), key_id as usize);
        self.loaded[key_id as usize] = false;
        assert(self@ =~= old(self)@.remove(key_id));
        Ok(())
    }

    /// Whether a key is stored under `key_id`.
    pub fn contains_key(&self, key_id: u8) -> (r: bool)
        ensures
            r == self@.contains_key(key_id),
    {
        self.loaded[key_id as usize]
    }
}

/// A lookup after a key was stored gives that key for its id and what
/// the store held before for every other id.
pub proof fn law_lookup_after_set(
    before: InMemoryKeyStore,
    after: InMemoryKeyStore,
    key_id: u8,
    key: [u8; 32],
    other: u8,
)
    requires
        after@ == before@.insert(key_id, key),
    ensures
        after.spec_aead_key(key_id) == Some(key),
        other != key_id ==> after.spec_aead_key(other) == before.spec_aead_key(other),
{
}

/// A lookup after a key was removed finds nothing for its id and what the
/// store held before for every other id.
pub proof fn law_lookup_after_remove(
    before: InMemoryKeyStore,
    after: InMemoryKeyStore,
    key_id: u8,
    other: u8,
)
    requires
        after@ == before@.remove(key_id),
    ensures
        after.spec_aead_key(key_id) is None,
        other != key_id ==> after.spec_aead_key(other) == before.spec_aead_key(other),
{
}

impl KeyStore for InMemoryKeyStore {
    open spec fn spec_aead_key(&self, key_id: u8) -> Option<[u8; 32]> {
        if self@.contains_key(key_id) {
            Some(self@[key_id])
        } else {
            None
        }
    }

    fn aead_key(&self, key_id: u8) -> (r: Option<&[u8; 32]>) {
        if self.loaded[key_id as usize] {
            Some(&zeroizing_keys_ref(&self.keys)[key_id as usize])
        } else {
            None
        }
    }
}

} // verus!
