//! Big-endian integer encodings and small byte-sequence helpers shared by
//! the wire formats.
use vstd::prelude::*;

verus! {

/// The eight big-endian bytes of `x`.
pub open spec fn be64_bytes(x: u64) -> Seq<u8> {
    seq![
        (x >> 56u64) as u8,
        (x >> 48u64) as u8,
        (x >> 40u64) as u8,
        (x >> 32u64) as u8,
        (x >> 24u64) as u8,
        (x >> 16u64) as u8,
        (x >> 8u64) as u8,
        x as u8,
    ]
}

/// The four big-endian bytes of `x`.
pub open spec fn be32_bytes(x: u32) -> Seq<u8> {
    seq![(x >> 24u32) as u8, (x >> 16u32) as u8, (x >> 8u32) as u8, x as u8]
}

/// The `u64` whose big-endian bytes are `b[0..8]`.
pub open spec fn be64_value(b: Seq<u8>) -> u64 {
    ((b[0] as u64) << 56u64) | ((b[1] as u64) << 48u64) | ((b[2] as u64) << 40u64) | ((
    b[3] as u64) << 32u64) | ((b[4] as u64) << 24u64) | ((b[5] as u64) << 16u64) | ((
    b[6] as u64) << 8u64) | (b[7] as u64)
}

/// The `u32` whose big-endian bytes are `b[0..4]`.
pub open spec fn be32_value(b: Seq<u8>) -> u32 {
    ((b[0] as u32) << 24u32) | ((b[1] as u32) << 16u32) | ((b[2] as u32) << 8u32) | (
    b[3] as u32)
}

/// A sequence of `n` zero bytes.
pub open spec fn zeros(n: nat) -> Seq<u8> {
    Seq::new(n, |i: int| 0u8)
}

proof fn lemma_be64_bits(
    x: u64,
    b0: u8,
    b1: u8,
    b2: u8,
    b3: u8,
    b4: u8,
    b5: u8,
    b6: u8,
    b7: u8,
)
    ensures
        (((((x >> 56u64) as u8) as u64) << 56u64) | ((((x >> 48u64) as u8) as u64) << 48u64)
            | ((((x >> 40u64) as u8) as u64) << 40u64) | ((((x >> 32u64) as u8) as u64)
            << 32u64) | ((((x >> 24u64) as u8) as u64) << 24u64) | ((((x >> 16u64) as u8)
            as u64) << 16u64) | ((((x >> 8u64) as u8) as u64) << 8u64) | ((x as u8) as u64))
            == x,
        ({
            let v = ((b0 as u64) << 56u64) | ((b1 as u64) << 48u64) | ((b2 as u64) << 40u64)
                | ((b3 as u64) << 32u64) | ((b4 as u64) << 24u64) | ((b5 as u64) << 16u64) | ((
            b6 as u64) << 8u64) | (b7 as u64);
            &&& (v >> 56u64) as u8 == b0
            &&& (v >> 48u64) as u8 == b1
            &&& (v >> 40u64) as u8 == b2
            &&& (v >> 32u64) as u8 == b3
            &&& (v >> 24u64) as u8 == b4
            &&& (v >> 16u64) as u8 == b5
            &&& (v >> 8u64) as u8 == b6
            &&& v as u8 == b7
        }),
{
    assert(((((x >> 56u64) as u8) as u64) << 56u64) | ((((x >> 48u64) as u8) as u64) << 48u64)
        | ((((x >> 40u64) as u8) as u64) << 40u64) | ((((x >> 32u64) as u8) as u64) << 32u64)
        | ((((x >> 24u64) as u8) as u64) << 24u64) | ((((x >> 16u64) as u8) as u64) << 16u64)
        | ((((x >> 8u64) as u8) as u64) << 8u64) | ((x as u8) as u64) == x) by (bit_vector);
    assert({
        let v = ((b0 as u64) << 56u64) | ((b1 as u64) << 48u64) | ((b2 as u64) << 40u64) | ((
        b3 as u64) << 32u64) | ((b4 as u64) << 24u64) | ((b5 as u64) << 16u64) | ((b6 as u64)
            << 8u64) | (b7 as u64);
        &&& (v >> 56u64) as u8 == b0
        &&& (v >> 48u64) as u8 == b1
        &&& (v >> 40u64) as u8 == b2
        &&& (v >> 32u64) as u8 == b3
        &&& (v >> 24u64) as u8 == b4
        &&& (v >> 16u64) as u8 == b5
        &&& (v >> 8u64) as u8 == b6
        &&& v as u8 == b7
    }) by (bit_vector);
}

/// Decoding the big-endian bytes of `x` gives `x` back.
pub proof fn lemma_be64_value_of_bytes(x: u64)
    ensures
        be64_value(be64_bytes(x)) == x,
{
    lemma_be64_bits(x, 0, 0, 0, 0, 0, 0, 0, 0);
}

/// Eight bytes are the big-endian encoding of the value they denote.
pub proof fn lemma_be64_bytes_of_value(b: Seq<u8>)
    requires
        b.len() == 8,
    ensures
        be64_bytes(be64_value(b)) == b,
{
    lemma_be64_bits(0, b[0], b[1], b[2], b[3], b[4], b[5], b[6], b[7]);
    assert(be64_bytes(be64_value(b)) =~= b);
}

proof fn lemma_be32_bits(x: u32, b0: u8, b1: u8, b2: u8, b3: u8)
    ensures
        (((((x >> 24u32) as u8) as u32) << 24u32) | ((((x >> 16u32) as u8) as u32) << 16u32)
            | ((((x >> 8u32) as u8) as u32) << 8u32) | ((x as u8) as u32)) == x,
        ({
            let v = ((b0 as u32) << 24u32) | ((b1 as u32) << 16u32) | ((b2 as u32) << 8u32) | (
            b3 as u32);
            &&& (v >> 24u32) as u8 == b0
            &&& (v >> 16u32) as u8 == b1
            &&& (v >> 8u32) as u8 == b2
            &&& v as u8 == b3
        }),
{
    assert((((((x >> 24u32) as u8) as u32) << 24u32) | ((((x >> 16u32) as u8) as u32) << 16u32)
        | ((((x >> 8u32) as u8) as u32) << 8u32) | ((x as u8) as u32)) == x) by (bit_vector);
    assert({
        let v = ((b0 as u32) << 24u32) | ((b1 as u32) << 16u32) | ((b2 as u32) << 8u32) | (
        b3 as u32);
        &&& (v >> 24u32) as u8 == b0
        &&& (v >> 16u32) as u8 == b1
        &&& (v >> 8u32) as u8 == b2
        &&& v as u8 == b3
    }) by (bit_vector);
}

/// Decoding the big-endian bytes of `x` gives `x` back.
pub proof fn lemma_be32_value_of_bytes(x: u32)
    ensures
        be32_value(be32_bytes(x)) == x,
{
    lemma_be32_bits(x, 0, 0, 0, 0);
}

/// Four bytes are the big-endian encoding of the value they denote.
pub proof fn lemma_be32_bytes_of_value(b: Seq<u8>)
    requires
        b.len() == 4,
    ensures
        be32_bytes(be32_value(b)) == b,
{
    lemma_be32_bits(0, b[0], b[1], b[2], b[3]);
    assert(be32_bytes(be32_value(b)) =~= b);
}

/// Appends the big-endian bytes of `x` to `out`.
pub fn push_be64(out: &mut Vec<u8>, x: u64)
    ensures
        final(out)@ == old(out)@ + be64_bytes(x),
{
    out.push((x >> 56u64) as u8);
    out.push((x >> 48u64) as u8);
    out.push((x >> 40u64) as u8);
    out.push((x >> 32u64) as u8);
    out.push((x >> 24u64) as u8);
    out.push((x >> 16u64) as u8);
    out.push((x >> 8u64) as u8);
    out.push(x as u8);
    assert(out@ =~= old(out)@ + be64_bytes(x));
}

/// Appends the big-endian bytes of `x` to `out`.
pub fn push_be32(out: &mut Vec<u8>, x: u32)
    ensures
        final(out)@ == old(out)@ + be32_bytes(x),
{
    out.push((x >> 24u32) as u8);
    out.push((x >> 16u32) as u8);
    out.push((x >> 8u32) as u8);
    out.push(x as u8);
    assert(out@ =~= old(out)@ + be32_bytes(x));
}

/// Reads the big-endian `u64` at `b[start..start + 8]`.
pub fn read_be64(b: &[u8], start: usize) -> (r: u64)
    requires
        start + 8 <= b@.len(),
    ensures
        r == be64_value(b@.subrange(start as int, start + 8)),
{
    ((b[start] as u64) << 56u64) | ((b[start + 1] as u64) << 48u64) | ((b[start + 2] as u64)
        << 40u64) | ((b[start + 3] as u64) << 32u64) | ((b[start + 4] as u64) << 24u64) | ((
    b[start + 5] as u64) << 16u64) | ((b[start + 6] as u64) << 8u64) | (b[start + 7] as u64)
}

/// Reads the big-endian `u32` at `b[start..start + 4]`.
pub fn read_be32(b: &[u8], start: usize) -> (r: u32)
    requires
        start + 4 <= b@.len(),
    ensures
        r == be32_value(b@.subrange(start as int, start + 4)),
{
    ((b[start] as u32) << 24u32) | ((b[start + 1] as u32) << 16u32) | ((b[start + 2] as u32)
        << 8u32) | (b[start + 3] as u32)
}

/// Appends all of `src` to `out`.
pub fn extend_bytes(out: &mut Vec<u8>, src: &[u8])
    ensures
        final(out)@ == old(out)@ + src@,
{
    let mut i: usize = 0;
    while i < src.len()
        invariant
            i <= src@.len(),
            out@ == old(out)@ + src@.subrange(0, i as int),
        decreases src@.len() - i,
    {
        out.push(src[i]);
        i = i + 1;
        assert(out@ =~= old(out)@ + src@.subrange(0, i as int));
    }
    assert(src@.subrange(0, src@.len() as int) =~= src@);
}

/// Copies `b[start..start + 16]` into an array.
pub fn read_array16(b: &[u8], start: usize) -> (r: [u8; 16])
    requires
        start + 16 <= b@.len(),
    ensures
        r@ == b@.subrange(start as int, start + 16),
{
    let mut r = [0u8; 16];
    let mut i: usize = 0;
    while i < 16
        invariant
            i <= 16,
            start + 16 <= b.len(),
            forall|j: int| 0 <= j < i ==> r@[j] == b@[start + j],
        decreases 16 - i,
    {
        r[i] = b[start + i];
        i = i + 1;
    }
    assert(r@ =~= b@.subrange(start as int, start + 16));
    r
}

/// Copies `b[start..start + 32]` into an array.
pub fn read_array32(b: &[u8], start: usize) -> (r: [u8; 32])
    requires
        start + 32 <= b@.len(),
    ensures
        r@ == b@.subrange(start as int, start + 32),
{
    let mut r = [0u8; 32];
    let mut i: usize = 0;
    while i < 32
        invariant
            i <= 32,
            start + 32 <= b.len(),
            forall|j: int| 0 <= j < i ==> r@[j] == b@[start + j],
        decreases 32 - i,
    {
        r[i] = b[start + i];
        i = i + 1;
    }
    assert(r@ =~= b@.subrange(start as int, start + 32));
    r
}

/// Copies `b[start..start + 64]` into an array.
pub fn read_array64(b: &[u8], start: usize) -> (r: [u8; 64])
    requires
        start + 64 <= b@.len(),
    ensures
        r@ == b@.subrange(start as int, start + 64),
{
    let mut r = [0u8; 64];
    let mut i: usize = 0;
    while i < 64
        invariant
            i <= 64,
            start + 64 <= b.len(),
            forall|j: int| 0 <= j < i ==> r@[j] == b@[start + j],
        decreases 64 - i,
    {
        r[i] = b[start + i];
        i = i + 1;
    }
    assert(r@ =~= b@.subrange(start as int, start + 64));
    r
}

/// Whether every byte of `b` is zero.
pub fn all_zero(b: &[u8]) -> (r: bool)
    ensures
        r == (b@ == zeros(b@.len())),
{
    let mut i: usize = 0;
    while i < b.len()
        invariant
            i <= b@.len(),
            forall|j: int| 0 <= j < i ==> b@[j] == 0u8,
        decreases b@.len() - i,
    {
        if b[i] != 0 {
            assert(b@[i as int] != zeros(b@.len())[i as int]);
            return false;
        }
        i = i + 1;
    }
    assert(b@ =~= zeros(b@.len()));
    true
}

} // verus!
