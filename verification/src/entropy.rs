//! The entropy source: a locally owned ChaCha20 generator seeded from the
//! operating system, and the refill operation that overwrites a byte buffer
//! with fresh generator output. The generator itself is opaque; nothing is
//! assumed about the bytes it produces beyond the buffer keeping its length,
//! so every caller is verified for every possible outcome. The module also
//! holds the zeroizer that scrubs an entropy buffer before it is dropped.

use vstd::prelude::*;

verus! {

#[verifier::external_type_specification]
#[verifier::external_body]
pub struct ExChaCha20Rng(rand_chacha::ChaCha20Rng);

/// Relies on `rand_chacha::ChaCha20Rng::from_entropy` (through rand's
/// `SeedableRng`): constructs a ChaCha20 generator seeded from operating-system
/// entropy. The generator's state is random, so nothing is promised of it;
/// the underlying call aborts only if the operating system cannot supply
/// entropy at all.
#[verifier::external_body]
pub fn fresh_rng() -> rand_chacha::ChaCha20Rng {
    <rand_chacha::ChaCha20Rng as rand::SeedableRng>::from_entropy()
}

/// Relies on rand's `RngCore::fill_bytes` for `ChaCha20Rng`: overwrites every
/// byte of `buf` with generator output and guarantees the whole buffer is
/// filled, leaving its length unchanged. The bytes themselves are random, so
/// nothing is promised about their values.
#[verifier::external_body]
pub fn fill_from_rng(rng: &mut rand_chacha::ChaCha20Rng, buf: &mut Vec<u8>)
    ensures
        final(buf)@.len() == old(buf)@.len(),
{
    rand::RngCore::fill_bytes(rng, buf.as_mut_slice());
}

/// Builds a byte buffer of `n` zero bytes, later overwritten by `fill_from_rng`.
pub fn zero_bytes(n: usize) -> (r: Vec<u8>)
    ensures
        r@.len() == n,
        forall|i: int| 0 <= i < n ==> r@[i] == 0u8,
{
    let mut v: Vec<u8> = Vec::new();
    let mut i: usize = 0;
    while i < n
        invariant
            i <= n,
            v@.len() == i,
            forall|k: int| 0 <= k < i ==> v@[k] == 0u8,
        decreases n - i,
    {
        v.push(0u8);
        i = i + 1;
    }
    v
}

/// Overwrites every byte of an entropy buffer with zero, so that no random
/// material survives in memory once the buffer is released.
pub fn zeroize(buf: &mut Vec<u8>)
    ensures
        final(buf)@.len() == old(buf)@.len(),
        forall|i: int| 0 <= i < final(buf)@.len() ==> final(buf)@[i] == 0u8,
{
    let n = buf.len();
    let mut i: usize = 0;
    while i < n
        invariant
            i <= n,
            buf@.len() == n,
            forall|k: int| 0 <= k < i ==> buf@[k] == 0u8,
        decreases n - i,
    {
        buf[i] = 0u8;
        i = i + 1;
    }
}

} // verus!
