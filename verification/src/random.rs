//! Randomness from the operating system (through `rand`).
use rand::RngCore;
use vstd::prelude::*;

verus! {

/// Calls `OsRng::fill_bytes` of `rand` on `n` bytes. Claims only the
/// length: the bytes are random. (The crate panics if the operating system
/// refuses to provide randomness; that outcome is not stated.)
#[verifier::external_body]
pub(crate) fn os_random_bytes(n: usize) -> (r: Vec<u8>)
    ensures
        r@.len() == n,
{
    let mut v = vec![0u8; n];
    rand::rngs::OsRng.fill_bytes(&mut v);
    v
}

/// Calls `OsRng::next_u32` of `rand`. Nothing is claimed of the value.
#[verifier::external_body]
pub(crate) fn os_random_u32() -> u32 {
    rand::rngs::OsRng.next_u32()
}

/// Calls `ThreadRng::fill_bytes` (`rand::thread_rng()`) on `n` bytes.
/// Claims only the length.
#[verifier::external_body]
pub(crate) fn thread_random_bytes(n: usize) -> (r: Vec<u8>)
    ensures
        r@.len() == n,
{
    let mut v = vec![0u8; n];
    rand::thread_rng().fill_bytes(&mut v);
    v
}

/// Calls `rand::random::<u8>()`. Nothing is claimed of the value.
#[verifier::external_body]
pub(crate) fn random_u8() -> u8 {
    rand::random::<u8>()
}

} // verus!
