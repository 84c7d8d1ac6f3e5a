//! The random draws the library makes, each through `rand`.
use rand::RngCore;
use vstd::prelude::*;

verus! {

/// Relies on `rand::random::<u8>`: one byte from the thread-local generator
/// (a CSPRNG). Nothing is promised of its value.
#[verifier::external_body]
pub(crate) fn random_byte() -> (r: u8) {
    rand::random::<u8>()
}

/// Relies on `rand::random_range`: a value of the half-open range `0..bound`,
/// which must be non-empty (the call panics on an empty range).
#[verifier::external_body]
pub(crate) fn random_index(bound: usize) -> (r: usize)
    requires
        bound > 0,
    ensures
        r < bound,
{
    rand::random_range(0..bound)
}

/// Relies on `rand::rng().fill_bytes`: fills a buffer of `n` bytes with
/// random data.
#[verifier::external_body]
pub(crate) fn random_bytes(n: usize) -> (r: Vec<u8>)
    ensures
        r@.len() == n,
{
    let mut buf = vec![0u8; n];
    rand::rng().fill_bytes(&mut buf);
    buf
}

} // verus!
