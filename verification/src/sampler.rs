//! The sampler: rejection sampling over a pre-fetched pool of random bytes.
//! A draw reads the next four pool bytes as a little-endian 32-bit value `v`
//! and accepts it only when `v` lies at or below the threshold
//! `u32::MAX - (u32::MAX % N)` for an alphabet of size N; a rejected draw is
//! discarded and the caller refills the pool and retries. This removes the
//! modulo bias of reducing a raw 32-bit value: of the roughly `2^32 / N`
//! accepted preimages per index, index 0 keeps a single extra one (the
//! threshold value itself), a residual bias of about `2^-32` that the design
//! accepts.

use vstd::prelude::*;

verus! {

/// The four bytes of `bytes` starting at `i`, read little-endian, as a
/// mathematical integer.
pub open spec fn le_u32_at(bytes: Seq<u8>, i: int) -> int
    recommends
        0 <= i,
        i + 4 <= bytes.len(),
{
    bytes[i] + 256 * bytes[i + 1] + 65536 * bytes[i + 2] + 16777216 * bytes[i + 3]
}

/// The largest 32-bit value accepted by rejection sampling for an alphabet of
/// size `n`: `u32::MAX` rounded down to a multiple of `n`. Any draw above it
/// is rejected, so the final `mod n` favours no index beyond the single
/// extra preimage that index 0 keeps in the threshold value itself.
pub open spec fn max_valid_for(n: int) -> int
    recommends
        1 <= n,
{
    0xFFFF_FFFFint - (0xFFFF_FFFFint % n)
}

/// Reads the four bytes of `bytes` starting at `i` as a little-endian 32-bit
/// value.
pub fn read_le_u32(bytes: &[u8], i: usize) -> (v: u32)
    requires
        i + 4 <= bytes@.len(),
    ensures
        v == le_u32_at(bytes@, i as int),
{
    let b0 = bytes[i];
    let b1 = bytes[i + 1];
    let b2 = bytes[i + 2];
    let b3 = bytes[i + 3];
    b0 as u32 + 256 * (b1 as u32) + 65536 * (b2 as u32) + 16777216 * (b3 as u32)
}

/// One rejection-sampling draw from `charset`, fed by the entropy pool.
///
/// If fewer than four unread bytes remain, no byte is consumed and no symbol
/// is returned, signalling the caller to refill. Otherwise the next four pool
/// bytes are consumed as a little-endian value `v`: a draw with `v` at most
/// the rejection threshold yields the character at index `v mod N`, and any
/// larger `v` is rejected, yielding no symbol, its four bytes discarded.
pub fn get_unbiased_random_char(
    charset: &Vec<char>,
    entropy_pool: &[u8],
    pool_index: &mut usize,
) -> (r: Option<char>)
    requires
        1 <= charset@.len() <= 0xFFFF_FFFF,
    ensures
        *old(pool_index) + 4 > entropy_pool@.len() ==> {
            &&& r is None
            &&& *final(pool_index) == *old(pool_index)
        },
        *old(pool_index) + 4 <= entropy_pool@.len() ==> {
            let v = le_u32_at(entropy_pool@, *old(pool_index) as int);
            &&& *final(pool_index) == *old(pool_index) + 4
            &&& v <= max_valid_for(charset@.len() as int) ==> r == Some(
                charset@[v % (charset@.len() as int)],
            )
            &&& v > max_valid_for(charset@.len() as int) ==> r is None
        },
{
    let charset_size = charset.len();
    let max_valid: u32 = u32::MAX - (u32::MAX % (charset_size as u32));

    let n = entropy_pool.len();
    if n < 4 || *pool_index > n - 4 {
        return None;
    }

    let random_value = read_le_u32(entropy_pool, *pool_index);
    *pool_index = *pool_index + 4;

    if random_value <= max_valid {
        let idx = (random_value % (charset_size as u32)) as usize;
        Some(charset[idx])
    } else {
        None
    }
}

} // verus!
