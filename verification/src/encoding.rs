//! Hex and Base64 decoding and encoding of key material, through the `hex`
//! and `base64` crates.
use base64::Engine;
use vstd::prelude::*;

verus! {

/// The error type of `hex::decode`.
#[verifier::external_type_specification]
#[verifier::external_body]
pub struct ExFromHexError(hex::FromHexError);

/// The error type of Base64 decoding.
#[verifier::external_type_specification]
#[verifier::external_body]
pub struct ExDecodeError(base64::DecodeError);

/// An ASCII hexadecimal digit (either case).
pub open spec fn is_hex_digit(c: char) -> bool {
    ('0' <= c && c <= '9') || ('a' <= c && c <= 'f') || ('A' <= c && c <= 'F')
}

/// The value of a hexadecimal digit.
pub open spec fn hex_digit_value(c: char) -> int {
    if '0' <= c && c <= '9' {
        c as int - 48
    } else if 'a' <= c && c <= 'f' {
        c as int - 87
    } else {
        c as int - 55
    }
}

/// An even number of hexadecimal digits.
pub open spec fn is_hex_string(s: Seq<char>) -> bool {
    &&& s.len() % 2 == 0
    &&& forall|i: int| 0 <= i < s.len() ==> #[trigger] is_hex_digit(s[i])
}

/// The bytes that a string of hexadecimal digit pairs denotes.
pub open spec fn spec_hex_decode(s: Seq<char>) -> Seq<u8> {
    Seq::new(
        s.len() / 2,
        |i: int| (hex_digit_value(s[2 * i]) * 16 + hex_digit_value(s[2 * i + 1])) as u8,
    )
}

/// The lowercase hexadecimal digit for `n < 16`.
pub open spec fn hex_digit_char(n: int) -> char {
    if n < 10 {
        (48 + n) as char
    } else {
        (87 + n) as char
    }
}

/// Lowercase hexadecimal text of `b`, two digits per byte.
pub open spec fn spec_hex_encode(b: Seq<u8>) -> Seq<char> {
    Seq::new(
        2 * b.len(),
        |i: int|
            if i % 2 == 0 {
                hex_digit_char(b[i / 2] as int / 16)
            } else {
                hex_digit_char(b[i / 2] as int % 16)
            },
    )
}

/// What the `STANDARD` Base64 engine of the `base64` crate decodes `s` to
/// (`None` when it refuses `s`).
pub uninterp spec fn spec_base64_standard_decode(s: Seq<char>) -> Option<Seq<u8>>;

/// What the `STANDARD_NO_PAD` Base64 engine of the `base64` crate decodes
/// `s` to (`None` when it refuses `s`).
pub uninterp spec fn spec_base64_standard_no_pad_decode(s: Seq<char>) -> Option<Seq<u8>>;

/// Calls `hex::encode`. Claims: lowercase hexadecimal, two digits per byte
/// (as the crate's source does with its lowercase digit table).
#[verifier::external_body]
pub(crate) fn hex_encode(bytes: &[u8]) -> (s: String)
    ensures
        s@ == spec_hex_encode(bytes@),
{
    hex::encode(bytes)
}

/// Calls `hex::decode`. Claims: it succeeds exactly on an even number of
/// hexadecimal digits (either case), and then yields the bytes they
/// denote. What the error holds is not stated.
#[verifier::external_body]
pub(crate) fn hex_decode(s: &str) -> (r: Result<Vec<u8>, hex::FromHexError>)
    ensures
        r is Ok <==> is_hex_string(s@),
        r matches Ok(v) ==> v@ == spec_hex_decode(s@),
{
    hex::decode(s)
}

/// Calls `STANDARD.decode` of the `base64` crate. Claims: the outcome is
/// the function `spec_base64_standard_decode` of the text. What the error
/// holds is not stated.
#[verifier::external_body]
pub(crate) fn base64_standard_decode(s: &str) -> (r: Result<Vec<u8>, base64::DecodeError>)
    ensures
        match r {
            Ok(v) => spec_base64_standard_decode(s@) == Some(v@),
            Err(_) => spec_base64_standard_decode(s@) is None,
        },
{
    base64::engine::general_purpose::STANDARD.decode(s)
}

/// Calls `STANDARD_NO_PAD.decode` of the `base64` crate. Claims: the
/// outcome is the function `spec_base64_standard_no_pad_decode` of the
/// text. What the error holds is not stated.
#[verifier::external_body]
pub(crate) fn base64_standard_no_pad_decode(s: &str) -> (r: Result<
    Vec<u8>,
    base64::DecodeError,
>)
    ensures
        match r {
            Ok(v) => spec_base64_standard_no_pad_decode(s@) == Some(v@),
            Err(_) => spec_base64_standard_no_pad_decode(s@) is None,
        },
{
    base64::engine::general_purpose::STANDARD_NO_PAD.decode(s)
}

/// Calls `ToString::to_string` on a Base64 error (its `Display` text).
/// Nothing is claimed about the text.
#[verifier::external_body]
pub(crate) fn base64_error_text(e: &base64::DecodeError) -> String {
    e.to_string()
}

/// Calls `ToString::to_string` on a hex error (its `Display` text).
/// Nothing is claimed about the text.
#[verifier::external_body]
pub(crate) fn hex_error_text(e: &hex::FromHexError) -> String {
    e.to_string()
}

/// Whether `c` is an ASCII hexadecimal digit.
pub fn is_ascii_hexdigit(c: char) -> (r: bool)
    ensures
        r == is_hex_digit(c),
{
    ('0' <= c && c <= '9') || ('a' <= c && c <= 'f') || ('A' <= c && c <= 'F')
}

/// Whether `s` is exactly 64 ASCII hexadecimal digits (the text form of a
/// 32-byte key).
pub open spec fn is_hex64(s: Seq<char>) -> bool {
    &&& s.len() == 64
    &&& forall|i: int| 0 <= i < s.len() ==> #[trigger] is_hex_digit(s[i])
}

/// Whether `s` is exactly 64 ASCII hexadecimal digits.
pub fn looks_like_hex64(s: &str) -> (r: bool)
    ensures
        r == is_hex64(s@),
{
    let n = s.unicode_len();
    if n != 64 {
        return false;
    }
    let mut i: usize = 0;
    while i < n
        invariant
            i <= n,
            n == s@.len(),
            forall|j: int| 0 <= j < i ==> #[trigger] is_hex_digit(s@[j]),
        decreases n - i,
    {
        if !is_ascii_hexdigit(s.get_char(i)) {
            return false;
        }
        i = i + 1;
    }
    true
}

} // verus!
