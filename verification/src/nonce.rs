//! Per-frame nonce derivation.
use vstd::prelude::*;

use crate::codec::{be64_bytes, push_be64};
use crate::crypto::{sha256_digest, spec_sha256};

verus! {

/// ASCII `nonce`, the domain-separation prefix hashed into every nonce.
pub const NONCE_PREFIX_5: [u8; 5] = [0x6e, 0x6f, 0x6e, 0x63, 0x65];

/// The hashed input `"nonce" || key_id || ctr (big endian)`.
pub open spec fn spec_nonce_input(key_id: u8, ctr: u64) -> Seq<u8> {
    seq![0x6eu8, 0x6fu8, 0x6eu8, 0x63u8, 0x65u8, key_id] + be64_bytes(ctr)
}

/// The 12-byte nonce: the first 12 bytes of SHA-256 of the nonce input.
pub open spec fn spec_nonce12(key_id: u8, ctr: u64) -> Seq<u8> {
    spec_sha256(spec_nonce_input(key_id, ctr)).subrange(0, 12)
}

/// `SHA256("nonce" || key_id || ctr_be)[0..12]`, the nonce used for the
/// frame with this key id and counter.
pub fn derive_nonce12(key_id: u8, ctr: u64) -> (r: [u8; 12])
    ensures
        r@ == spec_nonce12(key_id, ctr),
{
    let mut input: Vec<u8> = Vec::new();
    input.push(0x6e);
    input.push(0x6f);
    input.push(0x6e);
    input.push(0x63);
    input.push(0x65);
    input.push(key_id);
    push_be64(&mut input, ctr);
    assert(input@ =~= spec_nonce_input(key_id, ctr));
    let digest = sha256_digest(input.as_slice());
    let mut nonce = [0u8; 12];
    let mut i: usize = 0;
    while i < 12
        invariant
            i <= 12,
            digest@ == spec_sha256(spec_nonce_input(key_id, ctr)),
            forall|j: int| 0 <= j < i ==> nonce@[j] == digest@[j],
        decreases 12 - i,
    {
        nonce[i] = digest[i];
        i = i + 1;
    }
    assert(nonce@ =~= spec_nonce12(key_id, ctr));
    nonce
}

} // verus!
