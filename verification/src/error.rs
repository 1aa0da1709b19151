use vstd::prelude::*;

verus! {

/// Reasons a frame is refused by the wire codec, the signature check or
/// the AEAD layer.
#[derive(Debug, Clone, Copy, PartialEq, Eq, Structural)]
pub enum MoqSecureError {
    InvalidMagic,
    UnsupportedVersion(u8),
    TruncatedFrame,
    CiphertextTooShort,
    InvalidEncryptedFlag(u8),
    InvalidSigFlag(u8),
    AeadAuthFailed,
    InvalidSignature,
    SigningMismatch,
    MissingSigSlot,
    SignatureNotAllowedByNSigned,
    DecryptFailed,
    InvalidKeyId(u8),
    InvalidPadLength,
}

} // verus!
