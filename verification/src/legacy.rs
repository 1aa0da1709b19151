//! The earlier frame format, with the signature slot right after the
//! header and every frame encrypted.
//!
//! ```text
//! magic(4) | version(1) | key_id(1) | ctr(8, BE) | n_signed(1) |
//! sig_flag(1) | encrypted(1) | sig_slot(64, if sig_flag) |
//! ciphertext | tag(16)
//! ```
use vstd::prelude::*;

use crate::codec::{
    all_zero, be64_bytes, extend_bytes, lemma_be64_bytes_of_value, lemma_be64_value_of_bytes,
    push_be64, read_array16, read_array64, read_be64, zeros,
};
use crate::crypto::{
    aead_decrypt, aead_encrypt, ed25519_sign, ed25519_verify, sha256_digest, spec_aead_open,
    spec_aead_seal, spec_ed25519_public_key, spec_ed25519_sign, spec_ed25519_verify, spec_sha256,
    AEAD_MAX_MESSAGE_LEN, AEAD_TAG_LEN,
};
use crate::error::MoqSecureError;
use crate::wire::{magic_bytes, result_bytes, spec_expected_open, MAGIC, SIG_SLOT_LEN, VERSION};

verus! {

/// magic(4) + version(1) + key_id(1) + ctr(8) + n_signed(1) + sig_flag(1)
/// + encrypted(1).
pub const LEGACY_HEADER_LEN: usize = 17;

/// The header of the earlier format, with its signature slot.
#[derive(Debug, Clone, Copy)]
pub struct WireHeader {
    pub magic: [u8; 4],
    pub version: u8,
    pub key_id: u8,
    pub ctr: u64,
    /// 0 disables signing; otherwise the lease granted by a signed frame.
    pub n_signed: u8,
    /// 1 when the frame carries a signature in `sig_slot`.
    pub sig_flag: u8,
    /// 1 when the payload is encrypted.
    pub encrypted: u8,
    /// Serialized only when `sig_flag == 1`.
    pub sig_slot: [u8; 64],
}

impl WireHeader {
    /// The 17 header bytes without the signature slot.
    pub open spec fn spec_encode(&self) -> Seq<u8> {
        self.magic@ + seq![self.version, self.key_id] + be64_bytes(self.ctr) + seq![
            self.n_signed,
            self.sig_flag,
            self.encrypted,
        ]
    }

    /// Encodes the header without the signature slot.
    pub fn encode_without_sig_slot(&self) -> (r: Vec<u8>)
        ensures
            r@ == self.spec_encode(),
            r@.len() == LEGACY_HEADER_LEN,
    {
        let mut v: Vec<u8> = Vec::new();
        v.push(self.magic[0]);
        v.push(self.magic[1]);
        v.push(self.magic[2]);
        v.push(self.magic[3]);
        v.push(self.version);
        v.push(self.key_id);
        push_be64(&mut v, self.ctr);
        v.push(self.n_signed);
        v.push(self.sig_flag);
        v.push(self.encrypted);
        assert(v@ =~= self.spec_encode());
        v
    }

    /// The AEAD associated data: the header without the signature slot.
    pub fn aad(&self) -> (r: Vec<u8>)
        ensures
            r@ == self.spec_encode(),
    {
        self.encode_without_sig_slot()
    }
}

/// An encrypted frame of the earlier format.
#[derive(Debug, Clone)]
pub struct EncryptedFrame {
    pub header: WireHeader,
    pub ciphertext: Vec<u8>,
    pub tag: [u8; 16],
}

/// The mathematical content of an `EncryptedFrame`.
pub ghost struct EncryptedFrameModel {
    pub header: WireHeader,
    pub ciphertext: Seq<u8>,
    pub tag: [u8; 16],
}

impl View for EncryptedFrame {
    type V = EncryptedFrameModel;

    open spec fn view(&self) -> EncryptedFrameModel {
        EncryptedFrameModel { header: self.header, ciphertext: self.ciphertext@, tag: self.tag }
    }
}

/// The signature slot as it appears on the wire.
pub open spec fn spec_slot_bytes(f: EncryptedFrameModel) -> Seq<u8> {
    if f.header.sig_flag == 1 {
        f.header.sig_slot@
    } else {
        Seq::empty()
    }
}

/// The wire bytes of a frame.
pub open spec fn spec_serialize(f: EncryptedFrameModel) -> Seq<u8> {
    f.header.spec_encode() + spec_slot_bytes(f) + f.ciphertext + f.tag@
}

/// What signatures sign: SHA-256 of header (without slot), ciphertext and
/// tag.
pub open spec fn spec_digest(f: EncryptedFrameModel) -> Seq<u8> {
    spec_sha256(f.header.spec_encode() + f.ciphertext + f.tag@)
}

/// A frame the parser can produce.
pub open spec fn frame_wf(f: EncryptedFrameModel) -> bool {
    &&& f.header.magic@ == magic_bytes()
    &&& f.header.version == VERSION
    &&& (f.header.sig_flag == 0 || f.header.sig_flag == 1)
    &&& (f.header.encrypted == 0 || f.header.encrypted == 1)
    &&& (f.header.sig_flag == 1 ==> f.header.sig_slot@ != zeros(64))
    &&& (f.header.sig_flag == 0 ==> f.header.sig_slot@ == zeros(64))
    &&& (f.header.n_signed == 0 ==> f.header.sig_flag == 0)
}

/// The first reason the parser refuses `b`, if any.
pub open spec fn spec_parse_error(b: Seq<u8>) -> Option<MoqSecureError> {
    if b.len() < LEGACY_HEADER_LEN + AEAD_TAG_LEN {
        Some(MoqSecureError::TruncatedFrame)
    } else if b.subrange(0, 4) != magic_bytes() {
        Some(MoqSecureError::InvalidMagic)
    } else if b[4] != VERSION {
        Some(MoqSecureError::UnsupportedVersion(b[4]))
    } else if b[15] != 0 && b[15] != 1 {
        Some(MoqSecureError::InvalidSignature)
    } else if b[16] != 0 && b[16] != 1 {
        Some(MoqSecureError::InvalidSignature)
    } else if b[15] == 1 && b.len() - LEGACY_HEADER_LEN < SIG_SLOT_LEN + AEAD_TAG_LEN {
        Some(MoqSecureError::TruncatedFrame)
    } else if b[15] == 1 && b.subrange(17, 81) == zeros(64) {
        Some(MoqSecureError::InvalidSignature)
    } else if b[14] == 0 && b[15] != 0 {
        Some(MoqSecureError::SigningMismatch)
    } else {
        None
    }
}

/// What parsing `b` gives: the first refusal, or the well-formed frame
/// whose wire bytes are exactly `b`.
pub open spec fn spec_parse(b: Seq<u8>) -> Result<EncryptedFrameModel, MoqSecureError> {
    match spec_parse_error(b) {
        Some(e) => Err(e),
        None => Ok(choose|f: EncryptedFrameModel| frame_wf(f) && spec_serialize(f) == b),
    }
}

/// Two well-formed frames with the same wire bytes are the same frame.
pub proof fn lemma_serialize_injective(f1: EncryptedFrameModel, f2: EncryptedFrameModel)
    requires
        frame_wf(f1),
        frame_wf(f2),
        spec_serialize(f1) == spec_serialize(f2),
    ensures
        f1 == f2,
{
    let b = spec_serialize(f1);
    let b2 = spec_serialize(f2);
    assert(b.subrange(0, 4) =~= f1.header.magic@);
    assert(b2.subrange(0, 4) =~= f2.header.magic@);
    assert(f1.header.magic =~= f2.header.magic);
    assert(b.subrange(6, 14) =~= be64_bytes(f1.header.ctr));
    assert(b2.subrange(6, 14) =~= be64_bytes(f2.header.ctr));
    lemma_be64_value_of_bytes(f1.header.ctr);
    lemma_be64_value_of_bytes(f2.header.ctr);
    assert(b[4] == f1.header.version && b2[4] == f2.header.version);
    assert(b[5] == f1.header.key_id && b2[5] == f2.header.key_id);
    assert(b[14] == f1.header.n_signed && b2[14] == f2.header.n_signed);
    assert(b[15] == f1.header.sig_flag && b2[15] == f2.header.sig_flag);
    assert(b[16] == f1.header.encrypted && b2[16] == f2.header.encrypted);
    let off: int = if f1.header.sig_flag == 1 {
        81
    } else {
        17
    };
    if f1.header.sig_flag == 1 {
        assert(b.subrange(17, 81) =~= f1.header.sig_slot@);
        assert(b2.subrange(17, 81) =~= f2.header.sig_slot@);
    }
    assert(f1.header.sig_slot =~= f2.header.sig_slot);
    assert(spec_slot_bytes(f1).len() == spec_slot_bytes(f2).len());
    assert(b.len() == b2.len());
    let n = f1.ciphertext.len() as int;
    assert(f2.ciphertext.len() == n);
    assert(b.subrange(off, off + n) =~= f1.ciphertext);
    assert(b2.subrange(off, off + n) =~= f2.ciphertext);
    assert(f1.ciphertext =~= f2.ciphertext);
    assert(b.subrange(off + n, off + n + 16) =~= f1.tag@);
    assert(b2.subrange(off + n, off + n + 16) =~= f2.tag@);
    assert(f1.tag =~= f2.tag);
}

proof fn lemma_parse_of_wf(f: EncryptedFrameModel)
    requires
        frame_wf(f),
        spec_parse_error(spec_serialize(f)) is None,
    ensures
        spec_parse(spec_serialize(f)) == Ok::<EncryptedFrameModel, MoqSecureError>(f),
{
    let b = spec_serialize(f);
    let g = choose|g: EncryptedFrameModel| frame_wf(g) && spec_serialize(g) == b;
    assert(frame_wf(f) && spec_serialize(f) == b);
    lemma_serialize_injective(f, g);
}

/// Parsing the wire bytes of a well-formed frame gives the frame back.
pub proof fn law_parse_serialize(f: EncryptedFrameModel)
    requires
        frame_wf(f),
    ensures
        spec_parse(spec_serialize(f)) == Ok::<EncryptedFrameModel, MoqSecureError>(f),
{
    let b = spec_serialize(f);
    assert(b.subrange(0, 4) =~= f.header.magic@);
    assert(b[4] == f.header.version);
    assert(b[14] == f.header.n_signed);
    assert(b[15] == f.header.sig_flag);
    assert(b[16] == f.header.encrypted);
    if f.header.sig_flag == 1 {
        assert(b.subrange(17, 81) =~= f.header.sig_slot@);
    }
    lemma_parse_of_wf(f);
}

impl EncryptedFrame {
    /// The wire bytes: header, the signature slot when `sig_flag == 1`,
    /// ciphertext and tag.
    pub fn serialize(&self) -> (r: Vec<u8>)
        ensures
            r@ == spec_serialize(self@),
    {
        let mut out = self.header.encode_without_sig_slot();
        if self.header.sig_flag == 1 {
            extend_bytes(&mut out, &self.header.sig_slot);
        }
        extend_bytes(&mut out, self.ciphertext.as_slice());
        extend_bytes(&mut out, &self.tag);
        assert(out@ =~= spec_serialize(self@));
        out
    }

    /// Parses wire bytes, refusing truncated input, a bad magic or version,
    /// flags other than 0 or 1, an all-zero signature slot and a flagged
    /// signature with signing disabled.
    pub fn parse(frame: &[u8]) -> (r: Result<EncryptedFrame, MoqSecureError>)
        ensures
            match r {
                Ok(f) => {
                    &&& spec_parse(frame@) == Ok::<EncryptedFrameModel, MoqSecureError>(f@)
                    &&& spec_serialize(f@) == frame@
                    &&& frame_wf(f@)
                },
                Err(e) => spec_parse(frame@) == Err::<EncryptedFrameModel, MoqSecureError>(e),
            },
    {
        let ghost b = frame@;
        if frame.len() < LEGACY_HEADER_LEN + AEAD_TAG_LEN {
            return Err(MoqSecureError::TruncatedFrame);
        }
        let magic: [u8; 4] = [frame[0], frame[1], frame[2], frame[3]];
        assert(magic@ =~= b.subrange(0, 4));
        if !(magic[0] == 0x4d && magic[1] == 0x4f && magic[2] == 0x51 && magic[3] == 0x53) {
            assert(b.subrange(0, 4) != magic_bytes()) by {
                if b.subrange(0, 4) == magic_bytes() {
                    assert(magic@[0] == magic_bytes()[0]);
                    assert(magic@[1] == magic_bytes()[1]);
                    assert(magic@[2] == magic_bytes()[2]);
                    assert(magic@[3] == magic_bytes()[3]);
                }
            }
            return Err(MoqSecureError::InvalidMagic);
        }
        assert(b.subrange(0, 4) =~= magic_bytes());
        let version = frame[4];
        if version != VERSION {
            return Err(MoqSecureError::UnsupportedVersion(version));
        }
        let key_id = frame[5];
        let ctr = read_be64(frame, 6);
        let n_signed = frame[14];
        let sig_flag = frame[15];
        if sig_flag != 0 && sig_flag != 1 {
            return Err(MoqSecureError::InvalidSignature);
        }
        let encrypted = frame[16];
        if encrypted != 0 && encrypted != 1 {
            return Err(MoqSecureError::InvalidSignature);
        }
        let mut sig_slot = [0u8; 64];
        let mut body_start: usize = LEGACY_HEADER_LEN;
        if sig_flag == 1 {
            if frame.len() - LEGACY_HEADER_LEN < SIG_SLOT_LEN + AEAD_TAG_LEN {
                return Err(MoqSecureError::TruncatedFrame);
            }
            sig_slot = read_array64(frame, LEGACY_HEADER_LEN);
            body_start = LEGACY_HEADER_LEN + SIG_SLOT_LEN;
        }
        if sig_flag == 1 && all_zero(&sig_slot) {
            return Err(MoqSecureError::InvalidSignature);
        }
        if n_signed == 0 && sig_flag != 0 {
            return Err(MoqSecureError::SigningMismatch);
        }
        if frame.len() - body_start < AEAD_TAG_LEN {
            return Err(MoqSecureError::CiphertextTooShort);
        }
        let ct_end = frame.len() - AEAD_TAG_LEN;
        let ciphertext = vstd::slice::slice_to_vec(
            vstd::slice::slice_subrange(frame, body_start, ct_end),
        );
        let tag = read_array16(frame, ct_end);
        let header = WireHeader { magic, version, key_id, ctr, n_signed, sig_flag, encrypted, sig_slot };
        let f = EncryptedFrame { header, ciphertext, tag };
        proof {
            lemma_be64_bytes_of_value(b.subrange(6, 14));
            assert(header.spec_encode() =~= b.subrange(0, 17));
            if sig_flag == 0 {
                assert(sig_slot@ =~= zeros(64));
            }
            assert(spec_serialize(f@) =~= b);
            lemma_parse_of_wf(f@);
        }
        Ok(f)
    }

    /// The AEAD associated data of this frame.
    pub fn aad_bytes(&self) -> (r: Vec<u8>)
        ensures
            r@ == self.header.spec_encode(),
    {
        self.header.aad()
    }

    /// SHA-256 of header (without the slot), ciphertext and tag.
    pub fn digest_for_signature(&self) -> (r: [u8; 32])
        ensures
            r@ == spec_digest(self@),
    {
        let mut v = self.header.encode_without_sig_slot();
        extend_bytes(&mut v, self.ciphertext.as_slice());
        extend_bytes(&mut v, &self.tag);
        sha256_digest(v.as_slice())
    }

    /// Accepts any key and does nothing: encryption happens in
    /// `encrypt_frame`.
    pub fn aead_encrypt_for(&self, _key: &[u8; 32]) -> (r: Result<(), MoqSecureError>)
        ensures
            r is Ok,
    {
        Ok(())
    }
}

/// Receiving a parsed frame of the earlier format with the key table
/// `keys`: the plaintext (or the refusal) and the lease afterwards.
pub open spec fn spec_open_frame(
    f: EncryptedFrameModel,
    keys: [[u8; 32]; 256],
    public_key: Seq<u8>,
    lease: u8,
) -> (Result<Seq<u8>, MoqSecureError>, u8) {
    if f.header.encrypted == 0 {
        (Err(MoqSecureError::AeadAuthFailed), lease)
    } else {
        let admission: Result<u8, MoqSecureError> = if f.header.n_signed == 0 {
            if f.header.sig_flag != 0 || f.header.sig_slot@ != zeros(64) {
                Err(MoqSecureError::SigningMismatch)
            } else {
                Ok(lease)
            }
        } else if f.header.sig_flag == 1 {
            if f.header.sig_slot@ == zeros(64) {
                Err(MoqSecureError::InvalidSignature)
            } else if spec_ed25519_verify(public_key, spec_digest(f), f.header.sig_slot@) {
                Ok(f.header.n_signed)
            } else {
                Err(MoqSecureError::InvalidSignature)
            }
        } else if lease == 0 {
            Err(MoqSecureError::InvalidSignature)
        } else {
            Ok((lease - 1) as u8)
        };
        match admission {
            Err(e) => (Err(e), lease),
            Ok(new_lease) => (
                match spec_aead_open(
                    keys@[f.header.key_id as int]@,
                    f.header.key_id,
                    f.header.ctr,
                    f.header.spec_encode(),
                    f.ciphertext,
                    f.tag@,
                ) {
                    Some(p) => Ok(p),
                    None => Err(MoqSecureError::AeadAuthFailed),
                },
                new_lease,
            ),
        }
    }
}

/// Receiving wire bytes of the earlier format: parse, then open.
pub open spec fn spec_decrypt_frame(
    keys: [[u8; 32]; 256],
    public_key: Seq<u8>,
    lease: u8,
    bytes: Seq<u8>,
) -> (Result<Seq<u8>, MoqSecureError>, u8) {
    match spec_parse(bytes) {
        Err(e) => (Err(e), lease),
        Ok(f) => spec_open_frame(f, keys, public_key, lease),
    }
}

/// What a signature of the earlier format signs: SHA-256 of the frame's
/// wire bytes with the signature slot cut out, that is of the 17 header
/// bytes (magic, version, key id, big-endian counter, `n_signed`,
/// `sig_flag`, `encrypted`) followed by ciphertext and tag.
pub proof fn law_digest_is_wire_without_slot(f: EncryptedFrameModel)
    ensures
        ({
            let b = spec_serialize(f);
            let slot: int = if f.header.sig_flag == 1 {
                64
            } else {
                0
            };
            spec_digest(f) == spec_sha256(
                b.subrange(0, LEGACY_HEADER_LEN as int) + b.subrange(
                    LEGACY_HEADER_LEN + slot,
                    b.len() as int,
                ),
            )
        }),
        spec_digest(f) == spec_sha256(
            f.header.magic@ + seq![f.header.version, f.header.key_id] + be64_bytes(f.header.ctr)
                + seq![f.header.n_signed, f.header.sig_flag, f.header.encrypted] + f.ciphertext
                + f.tag@,
        ),
{
    let b = spec_serialize(f);
    let h = f.header.spec_encode();
    let slot: int = if f.header.sig_flag == 1 {
        64
    } else {
        0
    };
    assert(h.len() == 17);
    assert(spec_slot_bytes(f).len() == slot);
    assert(b.subrange(0, 17) =~= h);
    assert(b.subrange(17 + slot, b.len() as int) =~= f.ciphertext + f.tag@);
    assert(h + f.ciphertext + f.tag@ =~= h + (f.ciphertext + f.tag@));
}

/// The 17 header bytes for these fields (current magic and version).
pub open spec fn spec_header_bytes(key_id: u8, ctr: u64, n_signed: u8, sig_flag: u8, encrypted: u8) -> Seq<
    u8,
> {
    magic_bytes() + seq![VERSION, key_id] + be64_bytes(ctr) + seq![n_signed, sig_flag, encrypted]
}

/// The wire bytes of an encrypted frame of the earlier format: header,
/// then (when `sig_flag == 1`) the Ed25519 signature of the digest of
/// header and sealed plaintext, then the sealed plaintext.
pub open spec fn spec_sealed_wire(
    key: Seq<u8>,
    seed: Seq<u8>,
    key_id: u8,
    ctr: u64,
    n_signed: u8,
    sig_flag: u8,
    plaintext: Seq<u8>,
) -> Seq<u8> {
    let h = spec_header_bytes(key_id, ctr, n_signed, sig_flag, 1);
    let sealed = spec_aead_seal(key, key_id, ctr, h, plaintext);
    if sig_flag == 1 {
        h + spec_ed25519_sign(seed, spec_sha256(h + sealed)) + sealed
    } else {
        h + sealed
    }
}

/// Encrypts `plaintext` under `keys[key_id]` and, when signing is enabled
/// and requested, signs the digest into the signature slot.
pub fn encrypt_frame(
    keys: &[[u8; 32]; 256],
    broadcaster_private_key: &[u8; 32],
    key_id: u8,
    ctr: u64,
    n_signed: u8,
    maybe_sign: bool,
    plaintext: &[u8],
) -> (r: EncryptedFrame)
    requires
        plaintext@.len() < AEAD_MAX_MESSAGE_LEN,
    ensures
        r.header.magic@ == magic_bytes(),
        r.header.version == VERSION,
        r.header.key_id == key_id,
        r.header.ctr == ctr,
        r.header.n_signed == n_signed,
        r.header.sig_flag == (if n_signed != 0 && maybe_sign {
            1u8
        } else {
            0u8
        }),
        r.header.encrypted == 1,
        r.ciphertext@ + r.tag@ == spec_aead_seal(
            keys@[key_id as int]@,
            key_id,
            ctr,
            r.header.spec_encode(),
            plaintext@,
        ),
        r.ciphertext@.len() == plaintext@.len(),
        r.header.sig_flag == 1 ==> r.header.sig_slot@ == spec_ed25519_sign(
            broadcaster_private_key@,
            spec_digest(r@),
        ) && spec_ed25519_verify(
            spec_ed25519_public_key(broadcaster_private_key@),
            spec_digest(r@),
            r.header.sig_slot@,
        ),
        r.header.sig_flag == 0 ==> r.header.sig_slot@ == zeros(64),
        r.header.sig_slot@ != zeros(64) || r.header.sig_flag == 0 ==> frame_wf(r@),
        spec_serialize(r@) == spec_sealed_wire(
            keys@[key_id as int]@,
            broadcaster_private_key@,
            key_id,
            ctr,
            n_signed,
            r.header.sig_flag,
            plaintext@,
        ),
        forall|lease: u8|
            (r.header.sig_slot@ != zeros(64) || r.header.sig_flag == 0) ==> #[trigger] spec_decrypt_frame(
                *keys,
                spec_ed25519_public_key(broadcaster_private_key@),
                lease,
                spec_serialize(r@),
            ) == spec_expected_open(n_signed, r.header.sig_flag, lease, plaintext@),
{
    let sig_flag: u8 = if n_signed == 0 {
        0
    } else if maybe_sign {
        1
    } else {
        0
    };
    let header = WireHeader {
        magic: MAGIC,
        version: VERSION,
        key_id,
        ctr,
        n_signed,
        sig_flag,
        encrypted: 1,
        sig_slot: [0u8; 64],
    };
    assert(header.magic@ =~= magic_bytes());
    assert(header.sig_slot@ =~= zeros(64));
    let aad = header.aad();
    let (ciphertext, tag) = aead_encrypt(
        &keys[key_id as usize],
        key_id,
        ctr,
        aad.as_slice(),
        plaintext,
    );
    let mut frame = EncryptedFrame { header, ciphertext, tag };
    if n_signed > 0 && sig_flag == 1 {
        let digest = frame.digest_for_signature();
        let sig = ed25519_sign(broadcaster_private_key, &digest);
        frame.header.sig_slot = sig;
        frame.header.sig_flag = 1;
    } else {
        frame.header.sig_slot = [0u8; 64];
        frame.header.sig_flag = 0;
        assert(frame.header.sig_slot@ =~= zeros(64));
    }
    proof {
        assert(frame.header.spec_encode() == header.spec_encode());
        assert(header.spec_encode() =~= spec_header_bytes(key_id, ctr, n_signed, frame.header.sig_flag, 1));
        assert(frame.header.spec_encode() + frame.ciphertext@ + frame.tag@ =~= frame.header.spec_encode() + (
        frame.ciphertext@ + frame.tag@));
        assert(spec_serialize(frame@) =~= spec_sealed_wire(
            keys@[key_id as int]@,
            broadcaster_private_key@,
            key_id,
            ctr,
            n_signed,
            frame.header.sig_flag,
            plaintext@,
        ));
        assert forall|lease: u8|
            (frame.header.sig_slot@ != zeros(64) || frame.header.sig_flag == 0) implies #[trigger] spec_decrypt_frame(
            *keys,
            spec_ed25519_public_key(broadcaster_private_key@),
            lease,
            spec_serialize(frame@),
        ) == spec_expected_open(n_signed, frame.header.sig_flag, lease, plaintext@) by {
            law_parse_serialize(frame@);
        }
    }
    frame
}

/// Parses and opens a frame of the earlier format (see
/// `spec_decrypt_frame`).
pub fn decrypt_frame(
    keys: &[[u8; 32]; 256],
    broadcaster_public_key: &[u8; 32],
    lease_remaining: &mut u8,
    frame_bytes: &[u8],
) -> (r: Result<Vec<u8>, MoqSecureError>)
    ensures
        (result_bytes(r), *final(lease_remaining)) == spec_decrypt_frame(
            *keys,
            broadcaster_public_key@,
            *old(lease_remaining),
            frame_bytes@,
        ),
{
    let frame = match EncryptedFrame::parse(frame_bytes) {
        Ok(f) => f,
        Err(e) => {
            return Err(e);
        },
    };
    if frame.header.sig_flag != 0 && frame.header.sig_flag != 1 {
        return Err(MoqSecureError::InvalidSignature);
    }
    if frame.header.encrypted != 0 && frame.header.encrypted != 1 {
        return Err(MoqSecureError::InvalidSignature);
    }
    if frame.header.encrypted == 0 {
        return Err(MoqSecureError::AeadAuthFailed);
    }
    if frame.header.n_signed == 0 {
        if frame.header.sig_flag != 0 || !all_zero(&frame.header.sig_slot) {
            return Err(MoqSecureError::SigningMismatch);
        }
    } else {
        if frame.header.sig_flag == 1 {
            if all_zero(&frame.header.sig_slot) {
                return Err(MoqSecureError::InvalidSignature);
            }
            let digest = frame.digest_for_signature();
            if !ed25519_verify(broadcaster_public_key, &digest, &frame.header.sig_slot) {
                return Err(MoqSecureError::InvalidSignature);
            }
            *lease_remaining = frame.header.n_signed;
        } else {
            if *lease_remaining == 0 {
                return Err(MoqSecureError::InvalidSignature);
            }
            *lease_remaining = *lease_remaining - 1;
        }
    }
    let aad = frame.aad_bytes();
    match aead_decrypt(
        &keys[frame.header.key_id as usize],
        frame.header.key_id,
        frame.header.ctr,
        aad.as_slice(),
        frame.ciphertext.as_slice(),
        &frame.tag,
    ) {
        Ok(p) => Ok(p),
        Err(_) => Err(MoqSecureError::AeadAuthFailed),
    }
}

} // verus!
