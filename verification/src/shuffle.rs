//! The shuffler: an in-place Fisher–Yates permutation of the assembled
//! password, driven by a dedicated entropy buffer holding one 32-bit group
//! per position. Walking from the last position down to the second, each
//! position is exchanged with an earlier-or-equal position chosen from its
//! 32-bit group; no rejection sampling is applied here, accepting the
//! negligible residual modulo bias of the position choice, as the design
//! allows. The proved contract pins the exact permutation the entropy
//! prescribes, and with it that the multiset of characters is unchanged.

use vstd::prelude::*;

use crate::sampler::le_u32_at;
use crate::sampler::read_le_u32;

verus! {

/// The downward Fisher–Yates pass on `s`, driven by `entropy`: positions `i`
/// down to 1 are each exchanged, in that order, with the position selected
/// by their own little-endian 32-bit group at offset `4 * i`, reduced modulo
/// `i + 1`. For `i < 1` no exchange is left to make.
pub open spec fn shuffled_from(s: Seq<char>, entropy: Seq<u8>, i: int) -> Seq<char>
    decreases i,
{
    if i < 1 {
        s
    } else {
        let j = le_u32_at(entropy, 4 * i) % (i + 1);
        shuffled_from(s.update(i, s[j]).update(j, s[i]), entropy, i - 1)
    }
}

/// Exchanging two positions of a sequence leaves its multiset unchanged.
pub proof fn lemma_swap_preserves_multiset(s: Seq<char>, i: int, j: int)
    requires
        0 <= i < s.len(),
        0 <= j < s.len(),
    ensures
        s.update(i, s[j]).update(j, s[i]).to_multiset() == s.to_multiset(),
{
    broadcast use vstd::seq_lib::group_to_multiset_ensures;
    broadcast use vstd::seq_lib::to_multiset_update;
    broadcast use vstd::multiset::group_multiset_axioms;

    let s1 = s.update(i, s[j]);
    let s2 = s1.update(j, s[i]);
    assert(s1[j] == s[j]);
    assert(s.contains(s[i]));
    assert(s.contains(s[j]));
    assert(s.to_multiset().count(s[i]) > 0);
    assert(s.to_multiset().count(s[j]) > 0);
    assert(s1.to_multiset() == s.to_multiset().insert(s[j]).remove(s[i]));
    assert(s2.to_multiset() == s1.to_multiset().insert(s[i]).remove(s[j]));
    assert(s2.to_multiset() =~= s.to_multiset());
}

/// Permutes `password` in place: for each position `i` from the end down to
/// 1, the 32-bit little-endian group at offset `4 * i` of `shuffle_entropy`
/// picks a partner `j = r mod (i + 1)`, and the two positions are exchanged.
/// The result is exactly the permutation `shuffled_from` prescribes for the
/// given entropy, so in particular the multiset of characters is preserved.
pub fn shuffle_in_place(password: &mut Vec<char>, shuffle_entropy: &[u8])
    requires
        shuffle_entropy@.len() >= old(password)@.len() * 4,
    ensures
        final(password)@.len() == old(password)@.len(),
        final(password)@ == shuffled_from(
            old(password)@,
            shuffle_entropy@,
            old(password)@.len() - 1,
        ),
        final(password)@.to_multiset() == old(password)@.to_multiset(),
{
    let n = password.len();
    let entropy_len = shuffle_entropy.len();
    if n < 2 {
        proof {
            assert(shuffled_from(password@, shuffle_entropy@, n - 1) == password@);
        }
        return;
    }
    let mut i: usize = n - 1;
    while 1 <= i
        invariant
            2 <= n,
            i <= n - 1,
            n == password@.len(),
            n * 4 <= entropy_len == shuffle_entropy@.len(),
            password@.to_multiset() == old(password)@.to_multiset(),
            shuffled_from(old(password)@, shuffle_entropy@, n - 1) == shuffled_from(
                password@,
                shuffle_entropy@,
                i as int,
            ),
        decreases i,
    {
        let r = read_le_u32(shuffle_entropy, i * 4);
        let j = (r as usize) % (i + 1);
        let a = password[i];
        let b = password[j];
        let ghost before_swap = password@;
        password[i] = b;
        password[j] = a;
        proof {
            lemma_swap_preserves_multiset(before_swap, i as int, j as int);
            assert(password@ == before_swap.update(i as int, b).update(j as int, a));
            assert(j as int == le_u32_at(shuffle_entropy@, 4 * (i as int)) % (i as int + 1));
            assert(shuffled_from(before_swap, shuffle_entropy@, i as int) == shuffled_from(
                password@,
                shuffle_entropy@,
                i as int - 1,
            ));
        }
        i = i - 1;
    }
    proof {
        assert(shuffled_from(password@, shuffle_entropy@, 0) == password@);
    }
}

} // verus!
