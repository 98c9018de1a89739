//! The four fixed character classes a password is drawn from: uppercase
//! letters, lowercase letters, decimal digits, and a fixed set of sixteen
//! symbols. Each class is an ordered sequence of distinct characters; the
//! spec-level sequences are the single source of truth, and the executable
//! builders are proved to produce exactly those sequences.

use vstd::prelude::*;

verus! {

/// The uppercase alphabet: 'A' (code point 65) through 'Z' (90), in order.
pub open spec fn upper_seq() -> Seq<char> {
    Seq::new(26, |i: int| (65 + i) as char)
}

/// The lowercase alphabet: 'a' (code point 97) through 'z' (122), in order.
pub open spec fn lower_seq() -> Seq<char> {
    Seq::new(26, |i: int| (97 + i) as char)
}

/// The digit alphabet: '0' (code point 48) through '9' (57), in order.
pub open spec fn digit_seq() -> Seq<char> {
    Seq::new(10, |i: int| (48 + i) as char)
}

/// The symbol alphabet, a fixed ordered set of sixteen characters.
pub open spec fn symbol_seq() -> Seq<char> {
    seq!['!', '@', '#', '$', '%', '^', '&', '*', '(', ')', '-', '_', '=', '+', '[', ']']
}

/// `c` is an uppercase letter.
pub open spec fn is_upper_char(c: char) -> bool {
    65 <= c as int <= 90
}

/// `c` is a lowercase letter.
pub open spec fn is_lower_char(c: char) -> bool {
    97 <= c as int <= 122
}

/// `c` is a decimal digit.
pub open spec fn is_digit_char(c: char) -> bool {
    48 <= c as int <= 57
}

/// `c` is one of the sixteen password symbols.
pub open spec fn is_symbol_char(c: char) -> bool {
    ||| c == '!'
    ||| c == '@'
    ||| c == '#'
    ||| c == '$'
    ||| c == '%'
    ||| c == '^'
    ||| c == '&'
    ||| c == '*'
    ||| c == '('
    ||| c == ')'
    ||| c == '-'
    ||| c == '_'
    ||| c == '='
    ||| c == '+'
    ||| c == '['
    ||| c == ']'
}

/// Membership in `upper_seq` is exactly `is_upper_char`, and the sequence has
/// the expected length.
pub proof fn lemma_upper_seq_chars()
    ensures
        upper_seq().len() == 26,
        forall|i: int| 0 <= i < 26 ==> is_upper_char(#[trigger] upper_seq()[i]),
        forall|c: char| is_upper_char(c) ==> upper_seq().contains(c),
{
    assert forall|c: char| is_upper_char(c) implies upper_seq().contains(c) by {
        let i = c as int - 65;
        assert(upper_seq()[i] == c);
    }
}

/// Membership in `lower_seq` is exactly `is_lower_char`, and the sequence has
/// the expected length.
pub proof fn lemma_lower_seq_chars()
    ensures
        lower_seq().len() == 26,
        forall|i: int| 0 <= i < 26 ==> is_lower_char(#[trigger] lower_seq()[i]),
        forall|c: char| is_lower_char(c) ==> lower_seq().contains(c),
{
    assert forall|c: char| is_lower_char(c) implies lower_seq().contains(c) by {
        let i = c as int - 97;
        assert(lower_seq()[i] == c);
    }
}

/// Membership in `digit_seq` is exactly `is_digit_char`, and the sequence has
/// the expected length.
pub proof fn lemma_digit_seq_chars()
    ensures
        digit_seq().len() == 10,
        forall|i: int| 0 <= i < 10 ==> is_digit_char(#[trigger] digit_seq()[i]),
        forall|c: char| is_digit_char(c) ==> digit_seq().contains(c),
{
    assert forall|c: char| is_digit_char(c) implies digit_seq().contains(c) by {
        let i = c as int - 48;
        assert(digit_seq()[i] == c);
    }
}

/// Membership in `symbol_seq` is exactly `is_symbol_char`, and the sequence
/// has the expected length.
pub proof fn lemma_symbol_seq_chars()
    ensures
        symbol_seq().len() == 16,
        forall|i: int| 0 <= i < 16 ==> is_symbol_char(#[trigger] symbol_seq()[i]),
        forall|c: char| is_symbol_char(c) ==> symbol_seq().contains(c),
{
    assert forall|i: int| 0 <= i < 16 implies is_symbol_char(#[trigger] symbol_seq()[i]) by {
        if i == 0 {
            assert(symbol_seq()[0] == '!');
        }
    }
    assert forall|c: char| is_symbol_char(c) implies symbol_seq().contains(c) by {
        if c == '!' {
            assert(symbol_seq()[0] == c);
        } else if c == '@' {
            assert(symbol_seq()[1] == c);
        } else if c == '#' {
            assert(symbol_seq()[2] == c);
        } else if c == '$' {
            assert(symbol_seq()[3] == c);
        } else if c == '%' {
            assert(symbol_seq()[4] == c);
        } else if c == '^' {
            assert(symbol_seq()[5] == c);
        } else if c == '&' {
            assert(symbol_seq()[6] == c);
        } else if c == '*' {
            assert(symbol_seq()[7] == c);
        } else if c == '(' {
            assert(symbol_seq()[8] == c);
        } else if c == ')' {
            assert(symbol_seq()[9] == c);
        } else if c == '-' {
            assert(symbol_seq()[10] == c);
        } else if c == '_' {
            assert(symbol_seq()[11] == c);
        } else if c == '=' {
            assert(symbol_seq()[12] == c);
        } else if c == '+' {
            assert(symbol_seq()[13] == c);
        } else if c == '[' {
            assert(symbol_seq()[14] == c);
        } else {
            assert(symbol_seq()[15] == c);
        }
    }
}

/// Builds the uppercase alphabet as a vector of characters.
pub fn upper_alphabet() -> (r: Vec<char>)
    ensures
        r@ == upper_seq(),
{
    let mut v: Vec<char> = Vec::new();
    let mut i: usize = 0;
    while i < 26
        invariant
            i <= 26,
            v@.len() == i,
            forall|k: int| 0 <= k < i ==> v@[k] == upper_seq()[k],
        decreases 26 - i,
    {
        v.push((65 + i as u8) as char);
        i = i + 1;
    }
    proof {
        assert(v@ =~= upper_seq());
    }
    v
}

/// Builds the lowercase alphabet as a vector of characters.
pub fn lower_alphabet() -> (r: Vec<char>)
    ensures
        r@ == lower_seq(),
{
    let mut v: Vec<char> = Vec::new();
    let mut i: usize = 0;
    while i < 26
        invariant
            i <= 26,
            v@.len() == i,
            forall|k: int| 0 <= k < i ==> v@[k] == lower_seq()[k],
        decreases 26 - i,
    {
        v.push((97 + i as u8) as char);
        i = i + 1;
    }
    proof {
        assert(v@ =~= lower_seq());
    }
    v
}

/// Builds the digit alphabet as a vector of characters.
pub fn digit_alphabet() -> (r: Vec<char>)
    ensures
        r@ == digit_seq(),
{
    let mut v: Vec<char> = Vec::new();
    let mut i: usize = 0;
    while i < 10
        invariant
            i <= 10,
            v@.len() == i,
            forall|k: int| 0 <= k < i ==> v@[k] == digit_seq()[k],
        decreases 10 - i,
    {
        v.push((48 + i as u8) as char);
        i = i + 1;
    }
    proof {
        assert(v@ =~= digit_seq());
    }
    v
}

/// Builds the symbol alphabet as a vector of characters.
pub fn symbol_alphabet() -> (r: Vec<char>)
    ensures
        r@ == symbol_seq(),
{
    let mut v: Vec<char> = Vec::new();
    v.push('!');
    v.push('@');
    v.push('#');
    v.push('$');
    v.push('%');
    v.push('^');
    v.push('&');
    v.push('*');
    v.push('(');
    v.push(')');
    v.push('-');
    v.push('_');
    v.push('=');
    v.push('+');
    v.push('[');
    v.push(']');
    proof {
        assert(v@ =~= symbol_seq());
    }
    v
}

} // verus!
