//! The assembly engine: requirement injection, filling, shuffling and
//! validation of one password. Generation first places the required minimum
//! of each character class, then pads to the target length from the union of
//! the enabled alphabets, always drawing through the unbiased sampler and
//! refilling the entropy pool on every rejected draw; the assembled buffer is
//! then permuted in place with fresh entropy and validated against the
//! minimums before it is returned. Every entropy buffer is zeroed before it
//! is released, on every exit path.

use vstd::prelude::*;

use crate::alphabet::digit_alphabet;
use crate::alphabet::digit_seq;
use crate::alphabet::is_digit_char;
use crate::alphabet::is_lower_char;
use crate::alphabet::is_symbol_char;
use crate::alphabet::is_upper_char;
use crate::alphabet::lemma_digit_seq_chars;
use crate::alphabet::lemma_lower_seq_chars;
use crate::alphabet::lemma_symbol_seq_chars;
use crate::alphabet::lemma_upper_seq_chars;
use crate::alphabet::lower_alphabet;
use crate::alphabet::lower_seq;
use crate::alphabet::symbol_alphabet;
use crate::alphabet::symbol_seq;
use crate::alphabet::upper_alphabet;
use crate::alphabet::upper_seq;
use crate::counting::count_matching;
use crate::counting::digit_count;
use crate::counting::digit_pred;
use crate::counting::lemma_count_extend;
use crate::counting::lemma_count_take_step;
use crate::counting::lemma_multiset_eq_count;
use crate::counting::lower_count;
use crate::counting::lower_pred;
use crate::counting::symbol_count;
use crate::counting::symbol_pred;
use crate::counting::upper_count;
use crate::counting::upper_pred;
use crate::entropy::fill_from_rng;
use crate::entropy::fresh_rng;
use crate::entropy::zero_bytes;
use crate::entropy::zeroize;
use crate::sampler::get_unbiased_random_char;
use crate::sampler::le_u32_at;
use crate::shuffle::shuffle_in_place;

verus! {

/// Shortest password length the generator accepts.
pub const MIN_PASSWORD_LENGTH: usize = 12;

/// Longest password length the generator accepts.
pub const MAX_PASSWORD_LENGTH: usize = 128;

/// The entropy pool holds this many 32-bit groups per password position.
pub const ENTROPY_MULTIPLIER: usize = 2;

/// How many pool refills one draw may consume before the generator gives up.
/// A refill is needed only after a rejected draw, and a draw is rejected with
/// probability below `78 / 2^32`, so this budget is never exhausted in
/// practice; it exists because every loop in this library is proved to
/// terminate.
pub const MAX_REFILLS_PER_DRAW: usize = 4096;

/// The immutable requirement specification: for each character class, whether
/// it may appear in the filler pool, and the minimum count it must reach.
#[derive(Clone, Copy, Debug, PartialEq, Eq, Structural)]
pub struct PasswordRequirements {
    pub has_upper: bool,
    pub has_lower: bool,
    pub has_number: bool,
    pub has_symbol: bool,
    pub min_upper: usize,
    pub min_lower: usize,
    pub min_number: usize,
    pub min_symbol: usize,
}

/// Why generation refused to produce a password.
#[derive(Clone, Copy, Debug, PartialEq, Eq, Structural)]
pub enum PasswordError {
    /// The requested length lies outside the accepted range.
    InvalidLength,
    /// The class minimums cannot be met at the requested length, or padding
    /// is needed and no class is enabled to pad from.
    UnsatisfiableRequirements,
    /// The entropy source kept producing rejected draws past the retry
    /// budget. Practically unreachable; never traded for a weakened password.
    EntropyExhausted,
}

/// Sum of the four class minimums.
pub open spec fn min_total(req: PasswordRequirements) -> int {
    req.min_upper + req.min_lower + req.min_number + req.min_symbol
}

/// At least one class may appear in the filler pool.
pub open spec fn some_class_enabled(req: PasswordRequirements) -> bool {
    req.has_upper || req.has_lower || req.has_number || req.has_symbol
}

/// The requested length lies in the accepted range.
pub open spec fn length_in_range(length: int) -> bool {
    MIN_PASSWORD_LENGTH as int <= length <= MAX_PASSWORD_LENGTH as int
}

/// No password of length `length` can meet `req`: the minimums outgrow the
/// length, or padding is needed and no class is enabled to pad from.
pub open spec fn requirements_unsatisfiable(length: int, req: PasswordRequirements) -> bool {
    min_total(req) > length || (min_total(req) < length && !some_class_enabled(req))
}

/// `c` may appear in a password generated under `req`: it belongs to a class
/// that is enabled for filling or must be injected for its minimum.
pub open spec fn char_allowed(c: char, req: PasswordRequirements) -> bool {
    ||| (req.has_upper || req.min_upper > 0) && is_upper_char(c)
    ||| (req.has_lower || req.min_lower > 0) && is_lower_char(c)
    ||| (req.has_number || req.min_number > 0) && is_digit_char(c)
    ||| (req.has_symbol || req.min_symbol > 0) && is_symbol_char(c)
}

/// `c` belongs to the union of the alphabets enabled for filling.
pub open spec fn char_in_enabled(c: char, req: PasswordRequirements) -> bool {
    ||| req.has_upper && is_upper_char(c)
    ||| req.has_lower && is_lower_char(c)
    ||| req.has_number && is_digit_char(c)
    ||| req.has_symbol && is_symbol_char(c)
}

/// The enabled-union predicate as a first-class value, shared by the filler
/// phase and its proofs.
pub open spec fn enabled_pred(req: PasswordRequirements) -> spec_fn(char) -> bool {
    |c: char| char_in_enabled(c, req)
}

/// `s` meets every class minimum of `req`.
pub open spec fn satisfies_minimums(s: Seq<char>, req: PasswordRequirements) -> bool {
    &&& upper_count(s) >= req.min_upper
    &&& lower_count(s) >= req.min_lower
    &&& digit_count(s) >= req.min_number
    &&& symbol_count(s) >= req.min_symbol
}

/// Everything a successfully generated password guarantees: the exact
/// requested length, every class minimum met, and every character drawn from
/// a class that `req` allows to appear.
pub open spec fn generated_ok(s: Seq<char>, length: int, req: PasswordRequirements) -> bool {
    &&& s.len() == length
    &&& satisfies_minimums(s, req)
    &&& forall|i: int| 0 <= i < s.len() ==> char_allowed(#[trigger] s[i], req)
}

/// The union alphabet used by the filler: the concatenation of the alphabets
/// of the enabled classes, in the fixed class order.
pub open spec fn filler_seq(req: PasswordRequirements) -> Seq<char> {
    (if req.has_upper {
        upper_seq()
    } else {
        Seq::<char>::empty()
    }) + (if req.has_lower {
        lower_seq()
    } else {
        Seq::<char>::empty()
    }) + (if req.has_number {
        digit_seq()
    } else {
        Seq::<char>::empty()
    }) + (if req.has_symbol {
        symbol_seq()
    } else {
        Seq::<char>::empty()
    })
}

/// Every character of the filler alphabet belongs to an enabled class, and
/// the filler is non-empty and small whenever some class is enabled.
pub proof fn lemma_filler_seq_chars(req: PasswordRequirements)
    ensures
        forall|k: int| 0 <= k < filler_seq(req).len() ==> char_in_enabled(
            #[trigger] filler_seq(req)[k],
            req,
        ),
        some_class_enabled(req) ==> filler_seq(req).len() >= 10,
        filler_seq(req).len() <= 78,
{
    lemma_upper_seq_chars();
    lemma_lower_seq_chars();
    lemma_digit_seq_chars();
    lemma_symbol_seq_chars();
    let a = (if req.has_upper {
        upper_seq()
    } else {
        Seq::<char>::empty()
    });
    let b = (if req.has_lower {
        lower_seq()
    } else {
        Seq::<char>::empty()
    });
    let c = (if req.has_number {
        digit_seq()
    } else {
        Seq::<char>::empty()
    });
    let d = (if req.has_symbol {
        symbol_seq()
    } else {
        Seq::<char>::empty()
    });
    assert forall|k: int| 0 <= k < filler_seq(req).len() implies char_in_enabled(
        #[trigger] filler_seq(req)[k],
        req,
    ) by {
        if k < a.len() {
            assert(filler_seq(req)[k] == a[k]);
        } else if k < a.len() + b.len() {
            assert(filler_seq(req)[k] == b[k - a.len()]);
        } else if k < a.len() + b.len() + c.len() {
            assert(filler_seq(req)[k] == c[k - a.len() - b.len()]);
        } else {
            assert(filler_seq(req)[k] == d[k - a.len() - b.len() - c.len()]);
        }
    }
}

/// Builds the filler alphabet from the classes enabled in `req`.
pub fn build_filler_alphabet(req: &PasswordRequirements) -> (r: Vec<char>)
    ensures
        r@ == filler_seq(*req),
{
    let mut v: Vec<char> = Vec::new();
    if req.has_upper {
        let mut t = upper_alphabet();
        v.append(&mut t);
    }
    if req.has_lower {
        let mut t = lower_alphabet();
        v.append(&mut t);
    }
    if req.has_number {
        let mut t = digit_alphabet();
        v.append(&mut t);
    }
    if req.has_symbol {
        let mut t = symbol_alphabet();
        v.append(&mut t);
    }
    proof {
        assert(v@ =~= filler_seq(*req));
    }
    v
}

/// `c` is an uppercase letter.
fn char_is_upper(c: char) -> (r: bool)
    ensures
        r == is_upper_char(c),
{
    let u = c as u32;
    65 <= u && u <= 90
}

/// `c` is a lowercase letter.
fn char_is_lower(c: char) -> (r: bool)
    ensures
        r == is_lower_char(c),
{
    let u = c as u32;
    97 <= u && u <= 122
}

/// `c` is a decimal digit.
fn char_is_digit(c: char) -> (r: bool)
    ensures
        r == is_digit_char(c),
{
    let u = c as u32;
    48 <= u && u <= 57
}

/// `c` is one of the sixteen password symbols.
fn char_is_symbol(c: char) -> (r: bool)
    ensures
        r == is_symbol_char(c),
{
    c == '!' || c == '@' || c == '#' || c == '$' || c == '%' || c == '^' || c == '&' || c == '*'
        || c == '(' || c == ')' || c == '-' || c == '_' || c == '=' || c == '+' || c == '['
        || c == ']'
}

/// Recounts each character class in the final buffer and checks every
/// minimum, exactly reporting whether `password` satisfies `req`.
pub fn is_valid_password(password: &[char], req: &PasswordRequirements) -> (r: bool)
    ensures
        r == satisfies_minimums(password@, *req),
{
    let n = password.len();
    let mut upper: usize = 0;
    let mut lower: usize = 0;
    let mut number: usize = 0;
    let mut symbol: usize = 0;
    let mut i: usize = 0;
    while i < n
        invariant
            i <= n,
            n == password@.len(),
            upper <= i && lower <= i && number <= i && symbol <= i,
            upper == count_matching(password@.take(i as int), upper_pred()),
            lower == count_matching(password@.take(i as int), lower_pred()),
            number == count_matching(password@.take(i as int), digit_pred()),
            symbol == count_matching(password@.take(i as int), symbol_pred()),
        decreases n - i,
    {
        let c = password[i];
        proof {
            lemma_count_take_step(password@, upper_pred(), i as int);
            lemma_count_take_step(password@, lower_pred(), i as int);
            lemma_count_take_step(password@, digit_pred(), i as int);
            lemma_count_take_step(password@, symbol_pred(), i as int);
        }
        if char_is_upper(c) {
            upper = upper + 1;
        }
        if char_is_lower(c) {
            lower = lower + 1;
        }
        if char_is_digit(c) {
            number = number + 1;
        }
        if char_is_symbol(c) {
            symbol = symbol + 1;
        }
        i = i + 1;
    }
    proof {
        assert(password@.take(n as int) =~= password@);
    }
    upper >= req.min_upper && lower >= req.min_lower && number >= req.min_number && symbol
        >= req.min_symbol
}

/// One accepted draw from `charset`, refilling the pool on every rejected or
/// exhausted draw, up to the retry budget. A returned character always comes
/// from `charset`; which one is up to the entropy source.
fn sample_char(
    rng: &mut rand_chacha::ChaCha20Rng,
    entropy_pool: &mut Vec<u8>,
    pool_index: &mut usize,
    charset: &Vec<char>,
) -> (r: Option<char>)
    requires
        1 <= charset@.len() <= 0xFFFF_FFFF,
        old(entropy_pool)@.len() >= 4,
    ensures
        final(entropy_pool)@.len() == old(entropy_pool)@.len(),
        r matches Some(c) ==> charset@.contains(c),
{
    let mut refills: usize = 0;
    while refills < MAX_REFILLS_PER_DRAW
        invariant
            1 <= charset@.len() <= 0xFFFF_FFFF,
            entropy_pool@.len() == old(entropy_pool)@.len(),
            entropy_pool@.len() >= 4,
        decreases MAX_REFILLS_PER_DRAW - refills,
    {
        let ghost idx0 = *pool_index;
        let drawn = get_unbiased_random_char(charset, entropy_pool.as_slice(), pool_index);
        match drawn {
            Option::Some(c) => {
                proof {
                    let v = le_u32_at(entropy_pool@, idx0 as int);
                    assert(c == charset@[v % (charset@.len() as int)]);
                    assert(charset@.contains(c));
                }
                return Some(c);
            },
            Option::None => {
                fill_from_rng(rng, entropy_pool);
                *pool_index = 0;
                refills = refills + 1;
            },
        }
    }
    None
}

/// Appends `count` accepted draws from `charset` to `password`. The ghost
/// predicate `p` covers every character of `charset`, so on success the
/// count of `p`-characters grows by at least `count`, and no predicate's
/// count shrinks. Returns false only if the retry budget was exhausted.
fn append_samples(
    rng: &mut rand_chacha::ChaCha20Rng,
    entropy_pool: &mut Vec<u8>,
    pool_index: &mut usize,
    password: &mut Vec<char>,
    charset: &Vec<char>,
    count: usize,
    Ghost(p): Ghost<spec_fn(char) -> bool>,
) -> (ok: bool)
    requires
        1 <= charset@.len() <= 0xFFFF_FFFF,
        old(entropy_pool)@.len() >= 4,
        old(password)@.len() + count <= usize::MAX,
        forall|c: char| charset@.contains(c) ==> p(c),
    ensures
        final(entropy_pool)@.len() == old(entropy_pool)@.len(),
        ok ==> final(password)@.len() == old(password)@.len() + count,
        ok ==> forall|k: int|
            0 <= k < old(password)@.len() ==> final(password)@[k] == old(password)@[k],
        ok ==> forall|k: int|
            old(password)@.len() <= k < final(password)@.len() ==> p(#[trigger] final(password)@[k]),
        ok ==> forall|q: spec_fn(char) -> bool| #[trigger] count_matching(final(password)@, q)
            >= count_matching(old(password)@, q),
        ok ==> count_matching(final(password)@, p) >= count_matching(old(password)@, p) + count,
{
    let ghost len0 = password@.len();
    let ghost pw0 = password@;
    let mut appended: usize = 0;
    while appended < count
        invariant
            1 <= charset@.len() <= 0xFFFF_FFFF,
            entropy_pool@.len() == old(entropy_pool)@.len(),
            entropy_pool@.len() >= 4,
            appended <= count,
            len0 + count <= usize::MAX,
            password@.len() == len0 + appended,
            forall|c: char| charset@.contains(c) ==> p(c),
            forall|k: int| 0 <= k < len0 ==> password@[k] == pw0[k],
            forall|k: int| len0 <= k < password@.len() ==> p(#[trigger] password@[k]),
        decreases count - appended,
    {
        match sample_char(rng, entropy_pool, pool_index, charset) {
            Option::Some(c) => {
                password.push(c);
                appended = appended + 1;
            },
            Option::None => {
                return false;
            },
        }
    }
    proof {
        assert(password@.take(len0 as int) =~= pw0);
        assert forall|q: spec_fn(char) -> bool| #[trigger] count_matching(password@, q)
            >= count_matching(pw0, q) by {
            lemma_count_extend(password@, len0 as int, q);
        }
        lemma_count_extend(password@, len0 as int, p);
    }
    true
}

/// Generates one password of exactly `length` characters meeting `req`.
///
/// A length outside the accepted range is refused as `InvalidLength`;
/// minimums that outgrow the length, or a padding need with no enabled class,
/// are refused as `UnsatisfiableRequirements`. Otherwise the result is a
/// password with the exact requested length, every class minimum met, and
/// every character drawn from a class `req` allows — unless the entropy
/// source exhausts the retry budget, which is reported as `EntropyExhausted`
/// rather than ever weakening the password. All entropy buffers are zeroed
/// before they are released, on every exit path.
pub fn generate_secure_password(length: usize, req: &PasswordRequirements) -> (r: Result<
    Vec<char>,
    PasswordError,
>)
    ensures
        !length_in_range(length as int) ==> r == Err::<Vec<char>, PasswordError>(
            PasswordError::InvalidLength,
        ),
        length_in_range(length as int) && requirements_unsatisfiable(length as int, *req) ==> r
            == Err::<Vec<char>, PasswordError>(PasswordError::UnsatisfiableRequirements),
        length_in_range(length as int) && !requirements_unsatisfiable(length as int, *req)
            ==> match r {
            Result::Ok(pw) => generated_ok(pw@, length as int, *req),
            Result::Err(e) => e == PasswordError::EntropyExhausted,
        },
{
    if length < MIN_PASSWORD_LENGTH || length > MAX_PASSWORD_LENGTH {
        return Err(PasswordError::InvalidLength);
    }

    let total: u128 = req.min_upper as u128 + req.min_lower as u128 + req.min_number as u128
        + req.min_symbol as u128;
    if total > length as u128 {
        return Err(PasswordError::UnsatisfiableRequirements);
    }
    if total < length as u128 && !(req.has_upper || req.has_lower || req.has_number
        || req.has_symbol) {
        return Err(PasswordError::UnsatisfiableRequirements);
    }

    let upper = upper_alphabet();
    let lower = lower_alphabet();
    let digits = digit_alphabet();
    let symbols = symbol_alphabet();
    let filler = build_filler_alphabet(req);
    proof {
        lemma_upper_seq_chars();
        lemma_lower_seq_chars();
        lemma_digit_seq_chars();
        lemma_symbol_seq_chars();
        lemma_filler_seq_chars(*req);
    }

    let mut rng = fresh_rng();
    let mut password: Vec<char> = Vec::new();
    let pool_size = length * ENTROPY_MULTIPLIER * 4;
    let mut entropy_pool = zero_bytes(pool_size);
    // The pool starts fully consumed: the first draw signals exhaustion and
    // triggers the initial refill.
    let mut pool_index: usize = pool_size;

    // Inject the required minimum of each class, in the fixed class order.
    if !append_samples(
        &mut rng,
        &mut entropy_pool,
        &mut pool_index,
        &mut password,
        &upper,
        req.min_upper,
        Ghost(upper_pred()),
    ) {
        zeroize(&mut entropy_pool);
        return Err(PasswordError::EntropyExhausted);
    }
    let ghost pw1 = password@;
    proof {
        assert forall|k: int| 0 <= k < pw1.len() implies char_allowed(#[trigger] pw1[k], *req) by {
            let f = upper_pred();
            assert(f(pw1[k]));
        }
    }

    if !append_samples(
        &mut rng,
        &mut entropy_pool,
        &mut pool_index,
        &mut password,
        &lower,
        req.min_lower,
        Ghost(lower_pred()),
    ) {
        zeroize(&mut entropy_pool);
        return Err(PasswordError::EntropyExhausted);
    }
    let ghost pw2 = password@;
    proof {
        assert forall|k: int| 0 <= k < pw2.len() implies char_allowed(#[trigger] pw2[k], *req) by {
            if k < pw1.len() {
                assert(pw2[k] == pw1[k]);
            } else {
                let f = lower_pred();
                assert(f(pw2[k]));
            }
        }
    }

    if !append_samples(
        &mut rng,
        &mut entropy_pool,
        &mut pool_index,
        &mut password,
        &digits,
        req.min_number,
        Ghost(digit_pred()),
    ) {
        zeroize(&mut entropy_pool);
        return Err(PasswordError::EntropyExhausted);
    }
    let ghost pw3 = password@;
    proof {
        assert forall|k: int| 0 <= k < pw3.len() implies char_allowed(#[trigger] pw3[k], *req) by {
            if k < pw2.len() {
                assert(pw3[k] == pw2[k]);
            } else {
                let f = digit_pred();
                assert(f(pw3[k]));
            }
        }
    }

    if !append_samples(
        &mut rng,
        &mut entropy_pool,
        &mut pool_index,
        &mut password,
        &symbols,
        req.min_symbol,
        Ghost(symbol_pred()),
    ) {
        zeroize(&mut entropy_pool);
        return Err(PasswordError::EntropyExhausted);
    }
    let ghost pw4 = password@;
    proof {
        assert forall|k: int| 0 <= k < pw4.len() implies char_allowed(#[trigger] pw4[k], *req) by {
            if k < pw3.len() {
                assert(pw4[k] == pw3[k]);
            } else {
                let f = symbol_pred();
                assert(f(pw4[k]));
            }
        }
        assert(upper_count(pw4) >= req.min_upper);
        assert(lower_count(pw4) >= req.min_lower);
        assert(digit_count(pw4) >= req.min_number);
        assert(symbol_count(pw4) >= req.min_symbol);
    }

    // Pad to the target length from the union of the enabled alphabets.
    let current = password.len();
    if current < length {
        if !append_samples(
            &mut rng,
            &mut entropy_pool,
            &mut pool_index,
            &mut password,
            &filler,
            length - current,
            Ghost(enabled_pred(*req)),
        ) {
            zeroize(&mut entropy_pool);
            return Err(PasswordError::EntropyExhausted);
        }
    }
    let ghost pw5 = password@;
    proof {
        assert(pw5.len() == length);
        assert forall|k: int| 0 <= k < pw5.len() implies char_allowed(#[trigger] pw5[k], *req) by {
            if k < pw4.len() {
                assert(pw5[k] == pw4[k]);
            } else {
                let f = enabled_pred(*req);
                assert(f(pw5[k]));
            }
        }
        assert(satisfies_minimums(pw5, *req));
    }

    // Shuffle with fresh entropy, one 32-bit group per position.
    let mut shuffle_entropy = zero_bytes(length * 4);
    fill_from_rng(&mut rng, &mut shuffle_entropy);
    shuffle_in_place(&mut password, shuffle_entropy.as_slice());
    let ghost pw6 = password@;
    proof {
        broadcast use vstd::seq_lib::group_to_multiset_ensures;

        lemma_multiset_eq_count(pw6, pw5, upper_pred());
        lemma_multiset_eq_count(pw6, pw5, lower_pred());
        lemma_multiset_eq_count(pw6, pw5, digit_pred());
        lemma_multiset_eq_count(pw6, pw5, symbol_pred());

        assert forall|k: int| 0 <= k < pw6.len() implies char_allowed(#[trigger] pw6[k], *req) by {
            let c = pw6[k];
            assert(pw6.contains(c));
            assert(pw6.to_multiset().count(c) > 0);
            assert(pw5.contains(c));
            let m = choose|m: int| 0 <= m < pw5.len() && pw5[m] == c;
            assert(char_allowed(pw5[m], *req));
        }
    }

    // The recount is a defensive guard: the shuffle preserves every class
    // count, so validation provably succeeds and the error arm below is dead
    // code — were it ever reached, generation would stop rather than return
    // a weakened password.
    let ok = is_valid_password(password.as_slice(), req);
    proof {
        assert(ok);
    }
    zeroize(&mut entropy_pool);
    zeroize(&mut shuffle_entropy);
    if ok {
        Ok(password)
    } else {
        Err(PasswordError::EntropyExhausted)
    }
}

/// Law: structure is deterministic even though content is not. Any two
/// passwords generated for the same length and requirements have the same
/// length and both meet every class minimum.
pub proof fn lemma_structure_deterministic(
    s1: Seq<char>,
    s2: Seq<char>,
    length: int,
    req: PasswordRequirements,
)
    requires
        generated_ok(s1, length, req),
        generated_ok(s2, length, req),
    ensures
        s1.len() == s2.len(),
        satisfies_minimums(s1, req),
        satisfies_minimums(s2, req),
{
}

/// Law: alphabet closure. When every class with a positive minimum is also
/// enabled, every character of a generated password belongs to the union of
/// the enabled alphabets, and no character of a disabled class appears.
pub proof fn lemma_alphabet_closure(s: Seq<char>, length: int, req: PasswordRequirements)
    requires
        generated_ok(s, length, req),
        req.min_upper > 0 ==> req.has_upper,
        req.min_lower > 0 ==> req.has_lower,
        req.min_number > 0 ==> req.has_number,
        req.min_symbol > 0 ==> req.has_symbol,
    ensures
        forall|i: int| 0 <= i < s.len() ==> char_in_enabled(#[trigger] s[i], req),
        !req.has_upper ==> forall|i: int| 0 <= i < s.len() ==> !is_upper_char(#[trigger] s[i]),
        !req.has_lower ==> forall|i: int| 0 <= i < s.len() ==> !is_lower_char(#[trigger] s[i]),
        !req.has_number ==> forall|i: int| 0 <= i < s.len() ==> !is_digit_char(#[trigger] s[i]),
        !req.has_symbol ==> forall|i: int| 0 <= i < s.len() ==> !is_symbol_char(#[trigger] s[i]),
{
    assert forall|i: int| 0 <= i < s.len() implies char_in_enabled(#[trigger] s[i], req) by {
        assert(char_allowed(s[i], req));
    }
}

} // verus!
