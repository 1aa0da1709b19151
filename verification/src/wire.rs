//! The frame format: a fixed header, the (encrypted or plain) padded
//! payload, the AEAD tag when encrypted, and an optional Ed25519 signature
//! trailer.
//!
//! ```text
//! magic(4) | version(1) | key_id(1) | ctr(8, BE) | n_signed(1) |
//! sig_flag(1) | encrypted(1) | pad_len(4, BE) |
//! payload | tag(16, if encrypted) | signature(64, if sig_flag)
//! ```
use vstd::prelude::*;

use crate::codec::{
    all_zero, be32_bytes, be64_bytes, extend_bytes, lemma_be32_bytes_of_value,
    lemma_be32_value_of_bytes, lemma_be64_bytes_of_value, lemma_be64_value_of_bytes, push_be32,
    push_be64, read_array16, read_array64, read_be32, read_be64, zeros,
};
use crate::crypto::{
    aead_decrypt, aead_encrypt, ed25519_sign, ed25519_verify, spec_aead_seal,
    spec_ed25519_public_key, spec_ed25519_sign, AEAD_MAX_MESSAGE_LEN, sha256_digest, spec_aead_open, spec_ed25519_verify, spec_sha256,
    AEAD_TAG_LEN,
};
use crate::error::MoqSecureError;
use crate::key_store::KeyStore;

verus! {

/// ASCII `MOQS`.
pub const MAGIC: [u8; 4] = [0x4d, 0x4f, 0x51, 0x53];

pub const VERSION: u8 = 1;

pub const SIG_SLOT_LEN: usize = 64;

pub const PAD_LEN_FIELD_LEN: usize = 4;

/// magic(4) + version(1) + key_id(1) + ctr(8) + n_signed(1) + sig_flag(1)
/// + encrypted(1) + pad_len(4).
pub const FIXED_HEADER_LEN: usize = 21;

/// Frames shorter than this are refused as truncated.
pub const MIN_FRAME_LEN: usize = 28;

/// The bytes of `MAGIC`.
pub open spec fn magic_bytes() -> Seq<u8> {
    seq![0x4du8, 0x4fu8, 0x51u8, 0x53u8]
}

/// The first rule that a header with these fields breaks, in the order the
/// receiver checks them.
pub open spec fn spec_header_error(
    magic: Seq<u8>,
    version: u8,
    n_signed: u8,
    sig_flag: u8,
    encrypted: u8,
) -> Option<MoqSecureError> {
    if magic != magic_bytes() {
        Some(MoqSecureError::InvalidMagic)
    } else if version != VERSION {
        Some(MoqSecureError::UnsupportedVersion(version))
    } else if sig_flag != 0 && sig_flag != 1 {
        Some(MoqSecureError::InvalidSigFlag(sig_flag))
    } else if encrypted != 0 && encrypted != 1 {
        Some(MoqSecureError::InvalidEncryptedFlag(encrypted))
    } else if n_signed == 0 && sig_flag != 0 {
        Some(MoqSecureError::SigningMismatch)
    } else {
        None
    }
}

/// The fixed frame header.
#[derive(Debug, Clone, Copy, PartialEq, Eq)]
pub struct WireHeader {
    pub magic: [u8; 4],
    pub version: u8,
    pub key_id: u8,
    pub ctr: u64,
    pub n_signed: u8,
    pub sig_flag: u8,
    pub encrypted: u8,
    pub pad_len: u32,
}

impl WireHeader {
    /// The 21 header bytes, in wire order.
    pub open spec fn spec_encode(&self) -> Seq<u8> {
        self.magic@ + seq![self.version, self.key_id] + be64_bytes(self.ctr) + seq![
            self.n_signed,
            self.sig_flag,
            self.encrypted,
        ] + be32_bytes(self.pad_len)
    }

    /// The first rule this header breaks, if any.
    pub open spec fn spec_error(&self) -> Option<MoqSecureError> {
        spec_header_error(self.magic@, self.version, self.n_signed, self.sig_flag, self.encrypted)
    }

    /// Encodes the header in wire order.
    pub fn encode(&self) -> (r: Vec<u8>)
        ensures
            r@ == self.spec_encode(),
            r@.len() == FIXED_HEADER_LEN,
    {
        let mut v: Vec<u8> = Vec::new();
        v.push(self.magic[0]);
        v.push(self.magic[1]);
        v.push(self.magic[2]);
        v.push(self.magic[3]);
        v.push(self.version);
        v.push(self.key_id);
        push_be64(&mut v, self.ctr);
        v.push(self.n_signed);
        v.push(self.sig_flag);
        v.push(self.encrypted);
        push_be32(&mut v, self.pad_len);
        assert(v@ =~= self.spec_encode());
        v
    }

    /// The AEAD associated data: exactly the encoded header.
    pub fn aad(&self) -> (r: Vec<u8>)
        ensures
            r@ == self.spec_encode(),
            r@.len() == FIXED_HEADER_LEN,
    {
        self.encode()
    }

    /// Checks magic, version, the two flags and that a signature is only
    /// flagged when signing is enabled.
    pub fn validate(&self) -> (r: Result<(), MoqSecureError>)
        ensures
            match r {
                Ok(()) => self.spec_error() is None,
                Err(e) => self.spec_error() == Some(e),
            },
    {
        if !(self.magic[0] == 0x4d && self.magic[1] == 0x4f && self.magic[2] == 0x51
            && self.magic[3] == 0x53) {
            assert(self.magic@ != magic_bytes()) by {
                if self.magic@ == magic_bytes() {
                    assert(self.magic@[0] == magic_bytes()[0]);
                    assert(self.magic@[1] == magic_bytes()[1]);
                    assert(self.magic@[2] == magic_bytes()[2]);
                    assert(self.magic@[3] == magic_bytes()[3]);
                }
            }
            return Err(MoqSecureError::InvalidMagic);
        }
        assert(self.magic@ =~= magic_bytes());
        if self.version != VERSION {
            return Err(MoqSecureError::UnsupportedVersion(self.version));
        }
        if self.sig_flag != 0 && self.sig_flag != 1 {
            return Err(MoqSecureError::InvalidSigFlag(self.sig_flag));
        }
        if self.encrypted != 0 && self.encrypted != 1 {
            return Err(MoqSecureError::InvalidEncryptedFlag(self.encrypted));
        }
        if self.n_signed == 0 && self.sig_flag != 0 {
            return Err(MoqSecureError::SigningMismatch);
        }
        Ok(())
    }
}

/// Two headers with the same encoding are the same header.
pub proof fn lemma_header_encode_injective(h1: WireHeader, h2: WireHeader)
    requires
        h1.spec_encode() == h2.spec_encode(),
    ensures
        h1 == h2,
{
    let e = h1.spec_encode();
    assert(e.subrange(0, 4) =~= h1.magic@);
    assert(h2.spec_encode().subrange(0, 4) =~= h2.magic@);
    assert(h1.magic =~= h2.magic);
    assert(e.subrange(6, 14) =~= be64_bytes(h1.ctr));
    assert(h2.spec_encode().subrange(6, 14) =~= be64_bytes(h2.ctr));
    lemma_be64_value_of_bytes(h1.ctr);
    lemma_be64_value_of_bytes(h2.ctr);
    assert(e.subrange(17, 21) =~= be32_bytes(h1.pad_len));
    assert(h2.spec_encode().subrange(17, 21) =~= be32_bytes(h2.pad_len));
    lemma_be32_value_of_bytes(h1.pad_len);
    lemma_be32_value_of_bytes(h2.pad_len);
    assert(e[4] == h1.version && h2.spec_encode()[4] == h2.version);
    assert(e[5] == h1.key_id && h2.spec_encode()[5] == h2.key_id);
    assert(e[14] == h1.n_signed && h2.spec_encode()[14] == h2.n_signed);
    assert(e[15] == h1.sig_flag && h2.spec_encode()[15] == h2.sig_flag);
    assert(e[16] == h1.encrypted && h2.spec_encode()[16] == h2.encrypted);
}

/// A frame: header, payload, AEAD tag and optional signature.
///
/// For encrypted frames `payload` is the ciphertext without the tag; for
/// unencrypted frames it is the padded plaintext and `tag` is all zero.
#[derive(Debug, Clone)]
pub struct Frame {
    pub header: WireHeader,
    pub payload: Vec<u8>,
    pub tag: [u8; 16],
    pub signature: Option<[u8; 64]>,
}

/// The mathematical content of a `Frame`.
pub ghost struct FrameModel {
    pub header: WireHeader,
    pub payload: Seq<u8>,
    pub tag: [u8; 16],
    pub signature: Option<[u8; 64]>,
}

impl View for Frame {
    type V = FrameModel;

    open spec fn view(&self) -> FrameModel {
        FrameModel {
            header: self.header,
            payload: self.payload@,
            tag: self.tag,
            signature: self.signature,
        }
    }
}

/// The tag bytes that appear on the wire: the tag for encrypted frames,
/// nothing otherwise.
pub open spec fn spec_tag_bytes(f: FrameModel) -> Seq<u8> {
    if f.header.encrypted == 1 {
        f.tag@
    } else {
        Seq::empty()
    }
}

/// The signature trailer: present when `sig_flag == 1` (64 zero bytes when
/// no signature is held), absent otherwise.
pub open spec fn spec_sig_trailer(f: FrameModel) -> Seq<u8> {
    if f.header.sig_flag == 1 {
        match f.signature {
            Some(s) => s@,
            None => zeros(64),
        }
    } else {
        Seq::empty()
    }
}

/// Everything the signature covers: header, payload and (when encrypted)
/// the tag; never the signature itself.
pub open spec fn spec_signed_bytes(f: FrameModel) -> Seq<u8> {
    f.header.spec_encode() + f.payload + spec_tag_bytes(f)
}

/// The wire bytes of a frame.
pub open spec fn spec_serialize(f: FrameModel) -> Seq<u8> {
    spec_signed_bytes(f) + spec_sig_trailer(f)
}

/// The digest that signatures sign: SHA-256 of the signed bytes.
pub open spec fn spec_digest(f: FrameModel) -> Seq<u8> {
    spec_sha256(spec_signed_bytes(f))
}

/// A frame the parser can produce: a valid header, a signature exactly
/// when flagged and never all zero, and a zero tag when unencrypted.
pub open spec fn frame_wf(f: FrameModel) -> bool {
    &&& f.header.spec_error() is None
    &&& (f.header.sig_flag == 1 <==> f.signature is Some)
    &&& (f.signature matches Some(s) ==> s@ != zeros(64))
    &&& (f.header.encrypted != 1 ==> f.tag@ == zeros(16))
}

/// The first reason the parser refuses `b`, if any.
pub open spec fn spec_parse_error(b: Seq<u8>) -> Option<MoqSecureError> {
    if b.len() < MIN_FRAME_LEN {
        Some(MoqSecureError::TruncatedFrame)
    } else {
        match spec_header_error(b.subrange(0, 4), b[4], b[14], b[15], b[16]) {
            Some(e) => Some(e),
            None => {
                let rest = b.len() - FIXED_HEADER_LEN;
                let sig_len = if b[15] == 1 {
                    SIG_SLOT_LEN as int
                } else {
                    0
                };
                if rest < sig_len {
                    Some(MoqSecureError::TruncatedFrame)
                } else if b[15] == 1 && b.subrange(b.len() - 64, b.len() as int) == zeros(64) {
                    Some(MoqSecureError::InvalidSignature)
                } else if b[16] == 1 && rest - sig_len < AEAD_TAG_LEN {
                    Some(MoqSecureError::CiphertextTooShort)
                } else {
                    None
                }
            },
        }
    }
}

/// What parsing `b` gives: the first refusal, or the well-formed frame
/// whose wire bytes are exactly `b`.
pub open spec fn spec_parse(b: Seq<u8>) -> Result<FrameModel, MoqSecureError> {
    match spec_parse_error(b) {
        Some(e) => Err(e),
        None => Ok(choose|f: FrameModel| frame_wf(f) && spec_serialize(f) == b),
    }
}

/// Two well-formed frames with the same wire bytes are the same frame.
pub proof fn lemma_serialize_injective(f1: FrameModel, f2: FrameModel)
    requires
        frame_wf(f1),
        frame_wf(f2),
        spec_serialize(f1) == spec_serialize(f2),
    ensures
        f1 == f2,
{
    let b = spec_serialize(f1);
    assert(b.subrange(0, 21) =~= f1.header.spec_encode());
    assert(spec_serialize(f2).subrange(0, 21) =~= f2.header.spec_encode());
    lemma_header_encode_injective(f1.header, f2.header);
    assert(spec_tag_bytes(f1).len() == spec_tag_bytes(f2).len());
    assert(spec_sig_trailer(f1).len() == spec_sig_trailer(f2).len());
    assert(b.len() == spec_serialize(f2).len());
    let n = f1.payload.len() as int;
    assert(f2.payload.len() == n);
    assert(b.subrange(21, 21 + n) =~= f1.payload);
    assert(spec_serialize(f2).subrange(21, 21 + n) =~= f2.payload);
    if f1.header.encrypted == 1 {
        assert(b.subrange(21 + n, 37 + n) =~= f1.tag@);
        assert(spec_serialize(f2).subrange(21 + n, 37 + n) =~= f2.tag@);
    }
    assert(f1.tag =~= f2.tag);
    if f1.header.sig_flag == 1 {
        let s1 = f1.signature->Some_0;
        let s2 = f2.signature->Some_0;
        assert(b.subrange(b.len() - 64, b.len() as int) =~= s1@);
        assert(spec_serialize(f2).subrange(b.len() - 64, b.len() as int) =~= s2@);
        assert(s1 =~= s2);
    }
    assert(f1.payload =~= f2.payload);
}

/// The wire bytes of a well-formed frame raise no parse error when they
/// are at least `MIN_FRAME_LEN` long.
proof fn lemma_wf_no_parse_error(f: FrameModel)
    requires
        frame_wf(f),
        spec_serialize(f).len() >= MIN_FRAME_LEN,
    ensures
        spec_parse_error(spec_serialize(f)) is None,
{
    let b = spec_serialize(f);
    assert(b.subrange(0, 4) =~= f.header.magic@);
    assert(b[4] == f.header.version);
    assert(b[14] == f.header.n_signed);
    assert(b[15] == f.header.sig_flag);
    assert(b[16] == f.header.encrypted);
    if f.header.sig_flag == 1 {
        let s = f.signature->Some_0;
        assert(b.subrange(b.len() - 64, b.len() as int) =~= s@);
    }
}

/// When the parser accepts the wire bytes of a frame with a valid header,
/// they are long enough and any signature in them is not all zero.
pub proof fn lemma_accepted_wire(f: FrameModel)
    requires
        f.header.spec_error() is None,
        f.header.sig_flag == 1 <==> f.signature is Some,
        spec_parse_error(spec_serialize(f)) is None,
    ensures
        signature_nonzero(f),
        spec_serialize(f).len() >= MIN_FRAME_LEN,
{
    let b = spec_serialize(f);
    if b.len() >= MIN_FRAME_LEN {
        assert(b.subrange(0, 4) =~= f.header.magic@);
        assert(b[4] == f.header.version);
        assert(b[14] == f.header.n_signed);
        assert(b[15] == f.header.sig_flag);
        assert(b[16] == f.header.encrypted);
        if f.header.sig_flag == 1 {
            let s = f.signature->Some_0;
            assert(b.subrange(b.len() - 64, b.len() as int) =~= s@);
        }
    }
}

/// Parsing the wire bytes of a well-formed frame at least `MIN_FRAME_LEN`
/// long gives the frame back.
pub proof fn law_parse_serialize(f: FrameModel)
    requires
        frame_wf(f),
        spec_serialize(f).len() >= MIN_FRAME_LEN,
    ensures
        spec_parse(spec_serialize(f)) == Ok::<FrameModel, MoqSecureError>(f),
{
    lemma_wf_no_parse_error(f);
    lemma_parse_of_wf(f);
}

impl Frame {
    /// Parses wire bytes into a frame, refusing truncated input, a bad
    /// header, an all-zero signature and an encrypted body without a tag.
    pub fn parse(frame: &[u8]) -> (r: Result<Frame, MoqSecureError>)
        ensures
            match r {
                Ok(f) => {
                    &&& spec_parse(frame@) == Ok::<FrameModel, MoqSecureError>(f@)
                    &&& spec_serialize(f@) == frame@
                    &&& frame_wf(f@)
                },
                Err(e) => spec_parse(frame@) == Err::<FrameModel, MoqSecureError>(e),
            },
    {
        let ghost b = frame@;
        if frame.len() < MIN_FRAME_LEN {
            return Err(MoqSecureError::TruncatedFrame);
        }
        let magic: [u8; 4] = [frame[0], frame[1], frame[2], frame[3]];
        let version = frame[4];
        let key_id = frame[5];
        let ctr = read_be64(frame, 6);
        let n_signed = frame[14];
        let sig_flag = frame[15];
        let encrypted = frame[16];
        let pad_len = read_be32(frame, 17);
        let header = WireHeader { magic, version, key_id, ctr, n_signed, sig_flag, encrypted, pad_len };
        assert(magic@ =~= b.subrange(0, 4));
        proof {
            lemma_be64_bytes_of_value(b.subrange(6, 14));
            lemma_be32_bytes_of_value(b.subrange(17, 21));
            assert(header.spec_encode() =~= b.subrange(0, 21));
        }
        match header.validate() {
            Ok(()) => {},
            Err(e) => {
                return Err(e);
            },
        }
        let sig_len: usize = if sig_flag == 1 {
            SIG_SLOT_LEN
        } else {
            0
        };
        let rest_len = frame.len() - FIXED_HEADER_LEN;
        if rest_len < sig_len {
            return Err(MoqSecureError::TruncatedFrame);
        }
        let body_end = frame.len() - sig_len;
        let signature: Option<[u8; 64]> = if sig_flag == 1 {
            let sig = read_array64(frame, body_end);
            if all_zero(&sig) {
                return Err(MoqSecureError::InvalidSignature);
            }
            Some(sig)
        } else {
            None
        };
        let body_len = body_end - FIXED_HEADER_LEN;
        if encrypted == 1 {
            if body_len < AEAD_TAG_LEN {
                return Err(MoqSecureError::CiphertextTooShort);
            }
            let ct_end = body_end - AEAD_TAG_LEN;
            let payload = vstd::slice::slice_to_vec(
                vstd::slice::slice_subrange(frame, FIXED_HEADER_LEN, ct_end),
            );
            let tag = read_array16(frame, ct_end);
            let f = Frame { header, payload, tag, signature };
            proof {
                assert(spec_serialize(f@) =~= b);
                lemma_parse_of_wf(f@);
            }
            Ok(f)
        } else {
            let payload = vstd::slice::slice_to_vec(
                vstd::slice::slice_subrange(frame, FIXED_HEADER_LEN, body_end),
            );
            let f = Frame { header, payload, tag: [0u8; 16], signature };
            proof {
                assert(f.tag@ =~= zeros(16));
                assert(spec_serialize(f@) =~= b);
                lemma_parse_of_wf(f@);
            }
            Ok(f)
        }
    }

    /// The wire bytes: header, payload, the tag when encrypted, and the
    /// signature trailer when `sig_flag == 1` (zeros if none is held).
    pub fn serialize(&self) -> (r: Vec<u8>)
        ensures
            r@ == spec_serialize(self@),
    {
        let mut out = self.header.encode();
        extend_bytes(&mut out, self.payload.as_slice());
        if self.header.encrypted == 1 {
            extend_bytes(&mut out, &self.tag);
        }
        if self.header.sig_flag == 1 {
            match &self.signature {
                Some(signature) => extend_bytes(&mut out, signature),
                None => {
                    let z = [0u8; 64];
                    assert(z@ =~= zeros(64));
                    extend_bytes(&mut out, &z);
                },
            }
        }
        assert(out@ =~= spec_serialize(self@));
        out
    }

    /// The AEAD associated data of this frame: its encoded header.
    pub fn aad_bytes(&self) -> (r: Vec<u8>)
        ensures
            r@ == self.header.spec_encode(),
    {
        self.header.aad()
    }

    /// SHA-256 of header, payload and (when encrypted) tag; the signature
    /// trailer is never included.
    pub fn digest_for_signature(&self) -> (r: [u8; 32])
        ensures
            r@ == spec_digest(self@),
    {
        let mut data = self.header.encode();
        extend_bytes(&mut data, self.payload.as_slice());
        if self.header.encrypted == 1 {
            extend_bytes(&mut data, &self.tag);
        }
        assert(data@ =~= spec_signed_bytes(self@));
        sha256_digest(data.as_slice())
    }
}

/// A well-formed frame whose wire bytes raise no parse error is what
/// parsing those bytes gives.
proof fn lemma_parse_of_wf(f: FrameModel)
    requires
        frame_wf(f),
        spec_parse_error(spec_serialize(f)) is None,
    ensures
        spec_parse(spec_serialize(f)) == Ok::<FrameModel, MoqSecureError>(f),
{
    let b = spec_serialize(f);
    let g = choose|g: FrameModel| frame_wf(g) && spec_serialize(g) == b;
    assert(frame_wf(f) && spec_serialize(f) == b);
    lemma_serialize_injective(f, g);
}

/// The signature-and-lease check: the lease after admitting `f`, or why it
/// is refused.
///
/// With signing disabled (`n_signed == 0`) nothing may claim a signature
/// and the lease is untouched; a signed frame must verify and renews the
/// lease to `n_signed`; an unsigned frame consumes one unit of lease and
/// is refused when none is left.
pub open spec fn spec_lease_check(f: FrameModel, public_key: Seq<u8>, lease: u8) -> Result<
    u8,
    MoqSecureError,
> {
    if f.header.n_signed == 0 {
        if f.header.sig_flag != 0 || f.signature is Some {
            Err(MoqSecureError::SigningMismatch)
        } else {
            Ok(lease)
        }
    } else if f.header.sig_flag == 1 {
        match f.signature {
            None => Err(MoqSecureError::InvalidSignature),
            Some(sig) => if spec_ed25519_verify(public_key, spec_digest(f), sig@) {
                Ok(f.header.n_signed)
            } else {
                Err(MoqSecureError::InvalidSignature)
            },
        }
    } else if lease == 0 {
        Err(MoqSecureError::InvalidSignature)
    } else {
        Ok((lease - 1) as u8)
    }
}

/// The padded plaintext of `f`: the decrypted payload when encrypted (with
/// the key `store` holds for the frame's key id), the payload otherwise.
pub open spec fn spec_padded_plaintext<K: KeyStore>(f: FrameModel, store: &K) -> Result<
    Seq<u8>,
    MoqSecureError,
> {
    if f.header.encrypted == 1 {
        match store.spec_aead_key(f.header.key_id) {
            None => Err(MoqSecureError::InvalidKeyId(f.header.key_id)),
            Some(key) => match spec_aead_open(
                key@,
                f.header.key_id,
                f.header.ctr,
                f.header.spec_encode(),
                f.payload,
                f.tag@,
            ) {
                Some(p) => Ok(p),
                None => Err(MoqSecureError::AeadAuthFailed),
            },
        }
    } else {
        Ok(f.payload)
    }
}

/// Drops the `pad_len` leading padding bytes.
pub open spec fn spec_unpad(padded: Seq<u8>, pad_len: u32) -> Result<Seq<u8>, MoqSecureError> {
    if pad_len > padded.len() {
        Err(MoqSecureError::InvalidPadLength)
    } else {
        Ok(padded.subrange(pad_len as int, padded.len() as int))
    }
}

/// Receiving a parsed frame: the usable plaintext (or the refusal) and the
/// lease afterwards. A frame refused by that check leaves the lease as it
/// was; once past it, the lease is updated even if decryption or
/// unpadding then fails.
pub open spec fn spec_open_frame<K: KeyStore>(
    f: FrameModel,
    store: &K,
    public_key: Seq<u8>,
    lease: u8,
) -> (Result<Seq<u8>, MoqSecureError>, u8) {
    match spec_lease_check(f, public_key, lease) {
        Err(e) => (Err(e), lease),
        Ok(new_lease) => (
            match spec_padded_plaintext(f, store) {
                Err(e) => Err(e),
                Ok(p) => spec_unpad(p, f.header.pad_len),
            },
            new_lease,
        ),
    }
}

/// Receiving wire bytes: parse, then open.
pub open spec fn spec_decrypt_frame<K: KeyStore>(
    store: &K,
    public_key: Seq<u8>,
    lease: u8,
    bytes: Seq<u8>,
) -> (Result<Seq<u8>, MoqSecureError>, u8) {
    match spec_parse(bytes) {
        Err(e) => (Err(e), lease),
        Ok(f) => spec_open_frame(f, store, public_key, lease),
    }
}

/// The view of a byte-vector result.
pub open spec fn result_bytes(r: Result<Vec<u8>, MoqSecureError>) -> Result<Seq<u8>, MoqSecureError> {
    match r {
        Ok(v) => Ok(v@),
        Err(e) => Err(e),
    }
}

impl Frame {
    /// Applies the signature/lease check, decrypts (or takes the payload as
    /// is) and strips the padding.
    pub fn decode_plaintext_with_key_store<K: KeyStore>(
        &self,
        key_store: &K,
        broadcaster_public_key: &[u8; 32],
        lease_remaining: &mut u8,
    ) -> (r: Result<Vec<u8>, MoqSecureError>)
        ensures
            (result_bytes(r), *final(lease_remaining)) == spec_open_frame(
                self@,
                key_store,
                broadcaster_public_key@,
                *old(lease_remaining),
            ),
    {
        if self.header.n_signed == 0 {
            if self.header.sig_flag != 0 || self.signature.is_some() {
                return Err(MoqSecureError::SigningMismatch);
            }
        } else if self.header.sig_flag == 1 {
            let signature = match &self.signature {
                Some(s) => s,
                None => {
                    return Err(MoqSecureError::InvalidSignature);
                },
            };
            let digest = self.digest_for_signature();
            if !ed25519_verify(broadcaster_public_key, &digest, signature) {
                return Err(MoqSecureError::InvalidSignature);
            }
            *lease_remaining = self.header.n_signed;
        } else {
            if *lease_remaining == 0 {
                return Err(MoqSecureError::InvalidSignature);
            }
            *lease_remaining = *lease_remaining - 1;
        }
        let padded_plaintext = if self.header.encrypted == 1 {
            let key = match key_store.aead_key(self.header.key_id) {
                Some(k) => k,
                None => {
                    return Err(MoqSecureError::InvalidKeyId(self.header.key_id));
                },
            };
            let aad = self.aad_bytes();
            match aead_decrypt(
                key,
                self.header.key_id,
                self.header.ctr,
                aad.as_slice(),
                self.payload.as_slice(),
                &self.tag,
            ) {
                Ok(p) => p,
                Err(e) => {
                    return Err(e);
                },
            }
        } else {
            self.payload.clone()
        };
        let pad_len = self.header.pad_len as usize;
        if pad_len > padded_plaintext.len() {
            return Err(MoqSecureError::InvalidPadLength);
        }
        Ok(
            vstd::slice::slice_to_vec(
                vstd::slice::slice_subrange(
                    padded_plaintext.as_slice(),
                    pad_len,
                    padded_plaintext.len(),
                ),
            ),
        )
    }
}

/// Parses `frame_bytes` and opens the frame (see `spec_decrypt_frame`).
pub fn decrypt_frame<K: KeyStore>(
    key_store: &K,
    broadcaster_public_key: &[u8; 32],
    lease_remaining: &mut u8,
    frame_bytes: &[u8],
) -> (r: Result<Vec<u8>, MoqSecureError>)
    ensures
        (result_bytes(r), *final(lease_remaining)) == spec_decrypt_frame(
            key_store,
            broadcaster_public_key@,
            *old(lease_remaining),
            frame_bytes@,
        ),
{
    let frame = match Frame::parse(frame_bytes) {
        Ok(f) => f,
        Err(e) => {
            return Err(e);
        },
    };
    frame.decode_plaintext_with_key_store(key_store, broadcaster_public_key, lease_remaining)
}

/// The header `encrypt_frame` writes: the frame carries a signature
/// exactly when signing is enabled (`n_signed != 0`) and requested.
pub open spec fn spec_sealing_header(
    key_id: u8,
    ctr: u64,
    n_signed: u8,
    maybe_sign: bool,
    encrypted: u8,
    pad_len: u32,
) -> WireHeader {
    WireHeader {
        magic: MAGIC,
        version: VERSION,
        key_id,
        ctr,
        n_signed,
        sig_flag: if n_signed != 0 && maybe_sign {
            1u8
        } else {
            0u8
        },
        encrypted,
        pad_len,
    }
}

/// `pad_len` zero bytes followed by the plaintext.
pub open spec fn spec_padded(pad_len: u32, plaintext: Seq<u8>) -> Seq<u8> {
    zeros(pad_len as nat) + plaintext
}

/// What a receiver holding the right key and public key gets from a frame
/// produced by `encrypt_frame`, given its lease before the frame.
pub open spec fn spec_expected_open(n_signed: u8, sig_flag: u8, lease: u8, plaintext: Seq<u8>) -> (
    Result<Seq<u8>, MoqSecureError>,
    u8,
) {
    if n_signed == 0 {
        (Ok(plaintext), lease)
    } else if sig_flag == 1 {
        (Ok(plaintext), n_signed)
    } else if lease == 0 {
        (Err(MoqSecureError::InvalidSignature), lease)
    } else {
        (Ok(plaintext), (lease - 1) as u8)
    }
}

/// The signature held is not 64 zero bytes (the parser refuses those).
pub open spec fn signature_nonzero(f: FrameModel) -> bool {
    f.signature matches Some(s) ==> s@ != zeros(64)
}

/// The wire bytes of the frame with header `h` carrying `plaintext`:
/// header, then the padded plaintext (sealed as ciphertext and tag under
/// `key` when `h.encrypted == 1`, as is otherwise), and, when
/// `h.sig_flag == 1`, the Ed25519 signature of their digest.
pub open spec fn spec_sealed_wire(key: Seq<u8>, seed: Seq<u8>, h: WireHeader, plaintext: Seq<u8>) -> Seq<
    u8,
> {
    let body = h.spec_encode() + if h.encrypted == 1 {
        spec_aead_seal(key, h.key_id, h.ctr, h.spec_encode(), spec_padded(h.pad_len, plaintext))
    } else {
        spec_padded(h.pad_len, plaintext)
    };
    if h.sig_flag == 1 {
        body + spec_ed25519_sign(seed, spec_sha256(body))
    } else {
        body
    }
}

/// Builds a frame: pads the plaintext with `pad_len` leading zero bytes,
/// encrypts it under the key for `key_id` when `encrypted == 1` (with the
/// encoded header as associated data), and signs the digest with the
/// broadcaster's Ed25519 seed when signing is enabled and requested. The
/// wire bytes depend only on the arguments and the key stored for
/// `key_id` (`spec_sealed_wire`), so equal calls give equal frames.
pub fn encrypt_frame<K: KeyStore>(
    key_store: &K,
    broadcaster_private_key: &[u8; 32],
    key_id: u8,
    ctr: u64,
    n_signed: u8,
    maybe_sign: bool,
    encrypted: u8,
    pad_len: u32,
    plaintext: &[u8],
) -> (r: Result<Frame, MoqSecureError>)
    requires
        pad_len + plaintext@.len() <= usize::MAX,
        encrypted == 1 ==> pad_len + plaintext@.len() < AEAD_MAX_MESSAGE_LEN,
    ensures
        r is Ok <==> ((encrypted == 0 || encrypted == 1) && (encrypted == 1
            ==> key_store.spec_aead_key(key_id) is Some)),
        match r {
            Err(e) => if encrypted != 0 && encrypted != 1 {
                e == MoqSecureError::InvalidEncryptedFlag(encrypted)
            } else {
                e == MoqSecureError::InvalidKeyId(key_id)
            },
            Ok(f) => {
                &&& f.header == spec_sealing_header(
                    key_id,
                    ctr,
                    n_signed,
                    maybe_sign,
                    encrypted,
                    pad_len,
                )
                &&& encrypted == 1 ==> {
                    &&& f.payload@ + f.tag@ == spec_aead_seal(
                        key_store.spec_aead_key(key_id)->Some_0@,
                        key_id,
                        ctr,
                        f.header.spec_encode(),
                        spec_padded(pad_len, plaintext@),
                    )
                    &&& f.payload@.len() == pad_len + plaintext@.len()
                }
                &&& spec_serialize(f@) == spec_sealed_wire(
                    key_store.spec_aead_key(key_id)->Some_0@,
                    broadcaster_private_key@,
                    f.header,
                    plaintext@,
                )
                &&& encrypted == 0 ==> f.payload@ == spec_padded(pad_len, plaintext@) && f.tag@
                    == zeros(16)
                &&& match f.signature {
                    Some(s) => f.header.sig_flag == 1 && s@ == spec_ed25519_sign(
                        broadcaster_private_key@,
                        spec_digest(f@),
                    ) && spec_ed25519_verify(
                        spec_ed25519_public_key(broadcaster_private_key@),
                        spec_digest(f@),
                        s@,
                    ),
                    None => f.header.sig_flag == 0,
                }
                &&& signature_nonzero(f@) ==> frame_wf(f@)
                &&& forall|lease: u8|
                    signature_nonzero(f@) && spec_serialize(f@).len() >= MIN_FRAME_LEN
                        ==> #[trigger] spec_decrypt_frame(
                        key_store,
                        spec_ed25519_public_key(broadcaster_private_key@),
                        lease,
                        spec_serialize(f@),
                    ) == spec_expected_open(n_signed, f.header.sig_flag, lease, plaintext@)
            },
        },
{
    if encrypted != 0 && encrypted != 1 {
        return Err(MoqSecureError::InvalidEncryptedFlag(encrypted));
    }
    let sig_flag: u8 = if n_signed != 0 && maybe_sign {
        1
    } else {
        0
    };
    let header = WireHeader {
        magic: MAGIC,
        version: VERSION,
        key_id,
        ctr,
        n_signed,
        sig_flag,
        encrypted,
        pad_len,
    };
    assert(header.magic@ =~= magic_bytes());
    match header.validate() {
        Ok(()) => {},
        Err(e) => {
            return Err(e);
        },
    }
    let mut padded: Vec<u8> = Vec::new();
    let pad_len_usize = pad_len as usize;
    let mut i: usize = 0;
    while i < pad_len_usize
        invariant
            i <= pad_len_usize,
            pad_len_usize == pad_len,
            padded@ == zeros(i as nat),
        decreases pad_len_usize - i,
    {
        padded.push(0u8);
        i = i + 1;
        assert(padded@ =~= zeros(i as nat));
    }
    extend_bytes(&mut padded, plaintext);
    assert(padded@ =~= spec_padded(pad_len, plaintext@));
    let ghost store_key: Option<[u8; 32]> = key_store.spec_aead_key(key_id);
    let unsigned = if encrypted == 1 {
        let key = match key_store.aead_key(key_id) {
            Some(k) => k,
            None => {
                return Err(MoqSecureError::InvalidKeyId(key_id));
            },
        };
        let aad = header.aad();
        let (ciphertext, tag) = aead_encrypt(key, key_id, ctr, aad.as_slice(), padded.as_slice());
        let f = Frame { header, payload: ciphertext, tag, signature: None };
        assert(spec_padded_plaintext(f@, key_store) == Ok::<Seq<u8>, MoqSecureError>(padded@));
        f
    } else {
        let f = Frame { header, payload: padded, tag: [0u8; 16], signature: None };
        assert(f.tag@ =~= zeros(16));
        assert(spec_padded_plaintext(f@, key_store) == Ok::<Seq<u8>, MoqSecureError>(padded@));
        f
    };
    assert(padded@.subrange(pad_len as int, padded@.len() as int) =~= plaintext@);
    assert(spec_unpad(padded@, pad_len) == Ok::<Seq<u8>, MoqSecureError>(plaintext@));
    if sig_flag == 1 {
        let digest = unsigned.digest_for_signature();
        let signature = ed25519_sign(broadcaster_private_key, &digest);
        let f = Frame { signature: Some(signature), ..unsigned };
        proof {
            assert(spec_signed_bytes(f@) == spec_signed_bytes(unsigned@));
            assert(spec_padded_plaintext(f@, key_store) == spec_padded_plaintext(unsigned@, key_store));
            lemma_sealed_round_trip(f@, key_store, broadcaster_private_key@, plaintext@, padded@);
            assert(spec_signed_bytes(f@) =~= f.header.spec_encode() + (f.payload@ + spec_tag_bytes(f@)));
        }
        Ok(f)
    } else {
        proof {
            lemma_sealed_round_trip(unsigned@, key_store, broadcaster_private_key@, plaintext@, padded@);
            assert(spec_signed_bytes(unsigned@) =~= unsigned.header.spec_encode() + (unsigned.payload@
                + spec_tag_bytes(unsigned@)));
            assert(spec_serialize(unsigned@) =~= spec_signed_bytes(unsigned@));
        }
        Ok(unsigned)
    }
}

/// Receiving the wire bytes of a frame whose padded plaintext opens to
/// `padded` (which unpads to `plaintext`) and whose signature, if any,
/// verifies under the seed's public key gives what `spec_expected_open`
/// says, for every lease.
proof fn lemma_sealed_round_trip<K: KeyStore>(
    f: FrameModel,
    store: &K,
    seed: Seq<u8>,
    plaintext: Seq<u8>,
    padded: Seq<u8>,
)
    requires
        f.header.spec_error() is None,
        f.header.sig_flag == 1 <==> f.signature is Some,
        f.header.encrypted != 1 ==> f.tag@ == zeros(16),
        spec_padded_plaintext(f, store) == Ok::<Seq<u8>, MoqSecureError>(padded),
        spec_unpad(padded, f.header.pad_len) == Ok::<Seq<u8>, MoqSecureError>(plaintext),
        f.signature matches Some(s) ==> spec_ed25519_verify(
            spec_ed25519_public_key(seed),
            spec_digest(f),
            s@,
        ),
    ensures
        signature_nonzero(f) ==> frame_wf(f),
        forall|lease: u8|
            signature_nonzero(f) && spec_serialize(f).len() >= MIN_FRAME_LEN
                ==> #[trigger] spec_decrypt_frame(
                store,
                spec_ed25519_public_key(seed),
                lease,
                spec_serialize(f),
            ) == spec_expected_open(f.header.n_signed, f.header.sig_flag, lease, plaintext),
{
    assert forall|lease: u8|
        signature_nonzero(f) && spec_serialize(f).len() >= MIN_FRAME_LEN implies #[trigger] spec_decrypt_frame(
        store,
        spec_ed25519_public_key(seed),
        lease,
        spec_serialize(f),
    ) == spec_expected_open(f.header.n_signed, f.header.sig_flag, lease, plaintext) by {
        law_parse_serialize(f);
    }
}

/// A signature is never part of what is signed: two frames that differ
/// only in their signature have the same digest.
pub proof fn law_digest_ignores_signature(f1: FrameModel, f2: FrameModel)
    requires
        f1.header == f2.header,
        f1.payload == f2.payload,
        f1.tag == f2.tag,
    ensures
        spec_digest(f1) == spec_digest(f2),
        spec_signed_bytes(f1) == spec_signed_bytes(f2),
{
}

/// What a signature signs: SHA-256 of the frame's wire bytes without the
/// 64-byte signature trailer, that is of the 21 header bytes followed by
/// the payload and (when encrypted) the tag.
pub proof fn law_digest_is_wire_without_trailer(f: FrameModel)
    ensures
        ({
            let b = spec_serialize(f);
            let trailer: int = if f.header.sig_flag == 1 {
                64
            } else {
                0
            };
            spec_digest(f) == spec_sha256(b.subrange(0, b.len() - trailer))
        }),
        spec_digest(f) == spec_sha256(
            f.header.magic@ + seq![f.header.version, f.header.key_id] + be64_bytes(f.header.ctr)
                + seq![f.header.n_signed, f.header.sig_flag, f.header.encrypted] + be32_bytes(
                f.header.pad_len,
            ) + f.payload + if f.header.encrypted == 1 {
                f.tag@
            } else {
                Seq::empty()
            },
        ),
{
    let b = spec_serialize(f);
    assert(b.subrange(0, b.len() - spec_sig_trailer(f).len()) =~= spec_signed_bytes(f));
}

/// The lease rules: with signing disabled an unsigned frame passes and the
/// lease is untouched; a signed frame that verifies renews the lease to
/// `n_signed`; an unsigned frame with signing enabled is admitted only
/// while lease remains, and uses one unit of it; a refused frame leaves
/// the lease as it was.
pub proof fn law_lease_check<K: KeyStore>(f: FrameModel, store: &K, public_key: Seq<u8>, lease: u8)
    ensures
        f.header.n_signed == 0 && f.header.sig_flag == 0 && f.signature is None ==> spec_lease_check(
            f,
            public_key,
            lease,
        ) == Ok::<u8, MoqSecureError>(lease),
        f.header.n_signed != 0 && f.header.sig_flag == 1 && (f.signature matches Some(s)
            && spec_ed25519_verify(public_key, spec_digest(f), s@)) ==> spec_lease_check(
            f,
            public_key,
            lease,
        ) == Ok::<u8, MoqSecureError>(f.header.n_signed),
        f.header.n_signed != 0 && f.header.sig_flag == 1 && !(f.signature matches Some(s)
            && spec_ed25519_verify(public_key, spec_digest(f), s@)) ==> spec_lease_check(
            f,
            public_key,
            lease,
        ) == Err::<u8, MoqSecureError>(MoqSecureError::InvalidSignature),
        f.header.n_signed != 0 && f.header.sig_flag == 0 && lease > 0 ==> spec_lease_check(
            f,
            public_key,
            lease,
        ) == Ok::<u8, MoqSecureError>((lease - 1) as u8),
        f.header.n_signed != 0 && f.header.sig_flag == 0 && lease == 0 ==> spec_lease_check(
            f,
            public_key,
            lease,
        ) == Err::<u8, MoqSecureError>(MoqSecureError::InvalidSignature),
        spec_lease_check(f, public_key, lease) is Err ==> spec_open_frame(
            f,
            store,
            public_key,
            lease,
        ).1 == lease,
        spec_lease_check(f, public_key, lease) matches Ok(l) ==> spec_open_frame(
            f,
            store,
            public_key,
            lease,
        ).1 == l,
{
}

} // verus!
