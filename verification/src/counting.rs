//! Counting characters that satisfy a predicate. The per-class counts of a
//! password are defined through one recursive counter over a sequence of
//! characters, and the lemmas here relate that counter to taking prefixes,
//! concatenation, removal, and multiset equality — the facts the assembly
//! phases and the shuffle step need.

use vstd::prelude::*;

use crate::alphabet::is_digit_char;
use crate::alphabet::is_lower_char;
use crate::alphabet::is_symbol_char;
use crate::alphabet::is_upper_char;

verus! {

/// How many characters of `s` satisfy `p`.
pub open spec fn count_matching(s: Seq<char>, p: spec_fn(char) -> bool) -> nat
    decreases s.len(),
{
    if s.len() == 0 {
        0
    } else {
        count_matching(s.drop_last(), p) + (if p(s.last()) {
            1nat
        } else {
            0nat
        })
    }
}

/// The uppercase-letter predicate as a first-class value, so that every use
/// of the uppercase count shares one function term.
pub open spec fn upper_pred() -> spec_fn(char) -> bool {
    |c: char| is_upper_char(c)
}

/// The lowercase-letter predicate as a first-class value.
pub open spec fn lower_pred() -> spec_fn(char) -> bool {
    |c: char| is_lower_char(c)
}

/// The digit predicate as a first-class value.
pub open spec fn digit_pred() -> spec_fn(char) -> bool {
    |c: char| is_digit_char(c)
}

/// The symbol predicate as a first-class value.
pub open spec fn symbol_pred() -> spec_fn(char) -> bool {
    |c: char| is_symbol_char(c)
}

/// How many uppercase letters `s` holds.
pub open spec fn upper_count(s: Seq<char>) -> nat {
    count_matching(s, upper_pred())
}

/// How many lowercase letters `s` holds.
pub open spec fn lower_count(s: Seq<char>) -> nat {
    count_matching(s, lower_pred())
}

/// How many digits `s` holds.
pub open spec fn digit_count(s: Seq<char>) -> nat {
    count_matching(s, digit_pred())
}

/// How many symbols `s` holds.
pub open spec fn symbol_count(s: Seq<char>) -> nat {
    count_matching(s, symbol_pred())
}

/// Extending a prefix by one element extends its count by whether that
/// element matches.
pub proof fn lemma_count_take_step(s: Seq<char>, p: spec_fn(char) -> bool, i: int)
    requires
        0 <= i < s.len(),
    ensures
        count_matching(s.take(i + 1), p) == count_matching(s.take(i), p) + (if p(s[i]) {
            1nat
        } else {
            0nat
        }),
{
    let t = s.take(i + 1);
    assert(t.drop_last() =~= s.take(i));
    assert(t.last() == s[i]);
}

/// The count of a concatenation is the sum of the counts.
pub proof fn lemma_count_concat(a: Seq<char>, b: Seq<char>, p: spec_fn(char) -> bool)
    ensures
        count_matching(a + b, p) == count_matching(a, p) + count_matching(b, p),
    decreases b.len(),
{
    if b.len() == 0 {
        assert(a + b =~= a);
    } else {
        assert((a + b).drop_last() =~= a + b.drop_last());
        assert((a + b).last() == b.last());
        lemma_count_concat(a, b.drop_last(), p);
    }
}

/// A sequence whose elements all match is counted in full.
pub proof fn lemma_count_all(s: Seq<char>, p: spec_fn(char) -> bool)
    requires
        forall|i: int| 0 <= i < s.len() ==> p(#[trigger] s[i]),
    ensures
        count_matching(s, p) == s.len(),
    decreases s.len(),
{
    if s.len() > 0 {
        assert forall|i: int| 0 <= i < s.drop_last().len() implies p(#[trigger] s.drop_last()[i]) by {
            assert(s.drop_last()[i] == s[i]);
        }
        lemma_count_all(s.drop_last(), p);
        assert(p(s.last()));
    }
}

/// Growing a sequence cannot lower a count, and growing it by elements that
/// all match raises the count by their number.
pub proof fn lemma_count_extend(s: Seq<char>, old_len: int, p: spec_fn(char) -> bool)
    requires
        0 <= old_len <= s.len(),
    ensures
        count_matching(s, p) >= count_matching(s.take(old_len), p),
        (forall|k: int| old_len <= k < s.len() ==> p(#[trigger] s[k])) ==> count_matching(s, p)
            >= count_matching(s.take(old_len), p) + (s.len() - old_len),
{
    assert(s =~= s.take(old_len) + s.skip(old_len));
    lemma_count_concat(s.take(old_len), s.skip(old_len), p);
    if forall|k: int| old_len <= k < s.len() ==> p(#[trigger] s[k]) {
        assert forall|i: int| 0 <= i < s.skip(old_len).len() implies p(
            #[trigger] s.skip(old_len)[i],
        ) by {
            assert(s.skip(old_len)[i] == s[old_len + i]);
        }
        lemma_count_all(s.skip(old_len), p);
    }
}

/// Removing one element lowers the count by whether it matched.
pub proof fn lemma_count_remove(s: Seq<char>, p: spec_fn(char) -> bool, k: int)
    requires
        0 <= k < s.len(),
    ensures
        count_matching(s, p) == count_matching(s.remove(k), p) + (if p(s[k]) {
            1nat
        } else {
            0nat
        }),
    decreases s.len(),
{
    if k == s.len() - 1 {
        assert(s.remove(k) =~= s.drop_last());
    } else {
        assert(s.remove(k).drop_last() =~= s.drop_last().remove(k));
        assert(s.remove(k).last() == s.last());
        assert(s.drop_last()[k] == s[k]);
        lemma_count_remove(s.drop_last(), p, k);
    }
}

/// Two sequences holding the same multiset of characters have the same count
/// for every predicate: a permutation can change no class count.
pub proof fn lemma_multiset_eq_count(s1: Seq<char>, s2: Seq<char>, p: spec_fn(char) -> bool)
    requires
        s1.to_multiset() == s2.to_multiset(),
    ensures
        count_matching(s1, p) == count_matching(s2, p),
    decreases s1.len(),
{
    broadcast use vstd::seq_lib::group_to_multiset_ensures;
    broadcast use vstd::multiset::group_multiset_axioms;

    assert(s1.to_multiset().len() == s1.len());
    assert(s2.to_multiset().len() == s2.len());
    if s1.len() == 0 {
        assert(s2.len() == 0);
    } else {
        let c = s1.last();
        assert(s1.contains(c));
        assert(s2.to_multiset().count(c) > 0);
        assert(s2.contains(c));
        let k = choose|k: int| 0 <= k < s2.len() && s2[k] == c;
        assert(s1.remove(s1.len() - 1) =~= s1.drop_last());
        assert(s1.drop_last().to_multiset() == s1.to_multiset().remove(c));
        assert(s2.remove(k).to_multiset() == s2.to_multiset().remove(c));
        lemma_multiset_eq_count(s1.drop_last(), s2.remove(k), p);
        lemma_count_remove(s2, p, k);
    }
}

} // verus!
