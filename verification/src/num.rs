//! Numeric conversions: a verified decimal reader for 64-bit integers,
//! and trusted IEEE 754 binary64 operations.
use vstd::prelude::*;

use rustc_apfloat::Float;

use crate::model::{digit_val, digits_val, float_add_bits, float_bits_of, i64_of_lit, int_lit_val,
    is_digit_char, is_int_lit};

verus! {

/// Relies on rustc_apfloat's `Double::from_str` (IEEE 754 binary64,
/// round to nearest, ties to even): the bit pattern a decimal literal
/// denotes, a function of the characters alone.
#[verifier::external_body]
pub(crate) fn float_bits_from_lit(s: &str) -> (r: u64)
    ensures
        r == float_bits_of(s@),
{
    match s.parse::<rustc_apfloat::ieee::Double>() {
        Ok(d) => d.to_bits() as u64,
        Err(_) => 0,
    }
}

/// Relies on rustc_apfloat's `Double` addition (IEEE 754 binary64, round
/// to nearest, ties to even): the sum of two values given as bit
/// patterns, a function of the bit patterns alone.
#[verifier::external_body]
pub(crate) fn float_bits_add(a: u64, b: u64) -> (r: u64)
    ensures
        r == float_add_bits(a, b),
{
    let x = rustc_apfloat::ieee::Double::from_bits(a as u128);
    let y = rustc_apfloat::ieee::Double::from_bits(b as u128);
    (x + y).value.to_bits() as u64
}

/// The character of one decimal digit.
pub open spec fn digit_char_of(d: int) -> char {
    if d == 0 {
        '0'
    } else if d == 1 {
        '1'
    } else if d == 2 {
        '2'
    } else if d == 3 {
        '3'
    } else if d == 4 {
        '4'
    } else if d == 5 {
        '5'
    } else if d == 6 {
        '6'
    } else if d == 7 {
        '7'
    } else if d == 8 {
        '8'
    } else {
        '9'
    }
}

/// The decimal digits of `n`, most significant first.
pub open spec fn dec_digits(n: nat) -> Seq<char>
    decreases n,
{
    if n < 10 {
        seq![digit_char_of(n as int)]
    } else {
        dec_digits(n / 10) + seq![digit_char_of((n % 10) as int)]
    }
}

/// The text of one decimal digit.
fn digit_str(d: u64) -> (r: &'static str)
    requires
        d < 10,
    ensures
        r@ == seq![digit_char_of(d as int)],
{
    if d == 0 {
        proof { reveal_strlit("0"); }
        assert("0"@ =~= seq!['0']);
        "0"
    } else if d == 1 {
        proof { reveal_strlit("1"); }
        assert("1"@ =~= seq!['1']);
        "1"
    } else if d == 2 {
        proof { reveal_strlit("2"); }
        assert("2"@ =~= seq!['2']);
        "2"
    } else if d == 3 {
        proof { reveal_strlit("3"); }
        assert("3"@ =~= seq!['3']);
        "3"
    } else if d == 4 {
        proof { reveal_strlit("4"); }
        assert("4"@ =~= seq!['4']);
        "4"
    } else if d == 5 {
        proof { reveal_strlit("5"); }
        assert("5"@ =~= seq!['5']);
        "5"
    } else if d == 6 {
        proof { reveal_strlit("6"); }
        assert("6"@ =~= seq!['6']);
        "6"
    } else if d == 7 {
        proof { reveal_strlit("7"); }
        assert("7"@ =~= seq!['7']);
        "7"
    } else if d == 8 {
        proof { reveal_strlit("8"); }
        assert("8"@ =~= seq!['8']);
        "8"
    } else {
        proof { reveal_strlit("9"); }
        assert("9"@ =~= seq!['9']);
        "9"
    }
}

/// The decimal text of `n`.
pub fn dec_string(n: u64) -> (r: String)
    ensures
        r@ == dec_digits(n as nat),
    decreases n,
{
    if n < 10 {
        digit_str(n).to_owned()
    } else {
        let mut s = dec_string(n / 10);
        s.append(digit_str(n % 10));
        s
    }
}

/// A string of decimal digits denotes a value that is not negative.
pub proof fn lemma_digits_val_nonneg(s: Seq<char>)
    requires
        forall|i: int| 0 <= i < s.len() ==> is_digit_char(#[trigger] s[i]),
    ensures
        digits_val(s) >= 0,
    decreases s.len(),
{
    if s.len() > 0 {
        lemma_digits_val_nonneg(s.drop_last());
    }
}

/// Extending a digit string to the right never shrinks its value.
pub proof fn lemma_digits_val_prefix(s: Seq<char>, i: int)
    requires
        forall|j: int| 0 <= j < s.len() ==> is_digit_char(#[trigger] s[j]),
        0 <= i <= s.len(),
    ensures
        digits_val(s.take(i)) <= digits_val(s),
    decreases s.len() - i,
{
    if i < s.len() {
        lemma_digits_val_prefix(s, i + 1);
        assert(s.take(i + 1).drop_last() =~= s.take(i));
        assert(s.take(i + 1).last() == s[i]);
        lemma_digits_val_nonneg(s.take(i));
    } else {
        assert(s.take(i) =~= s);
    }
}

/// Reads a 64-bit integer from a decimal literal: an optional minus sign
/// and one or more digits.  Yields the literal's value exactly when the
/// string has that shape and the value is representable; anything else,
/// including overflow, yields nothing.
pub fn parse_i64(s: &str) -> (r: Option<i64>)
    ensures
        r == i64_of_lit(s@),
{
    let n = s.unicode_len();
    if n == 0 {
        return None;
    }
    let neg = s.get_char(0) == '-';
    let start: usize = if neg {
        1
    } else {
        0
    };
    if start == n {
        return None;
    }
    let limit: u64 = if neg {
        9223372036854775808
    } else {
        9223372036854775807
    };
    let ghost digits = s@.skip(start as int);
    let mut mag: u64 = 0;
    let mut i: usize = start;
    while i < n
        invariant
            start <= i <= n,
            n == s@.len(),
            start == if neg { 1int } else { 0int },
            neg ==> s@[0] == '-',
            !neg ==> s@[0] != '-',
            start < n,
            limit == if neg { 9223372036854775808u64 } else { 9223372036854775807u64 },
            digits == s@.skip(start as int),
            forall|j: int| start <= j < i ==> is_digit_char(#[trigger] s@[j]),
            mag == digits_val(s@.subrange(start as int, i as int)),
            mag <= limit,
        decreases n - i,
    {
        let c = s.get_char(i);
        let u = c as u32;
        if u < 48 || u > 57 {
            // some character is no digit: the string is no integer literal
            assert(!is_int_lit(s@));
            return None;
        }
        let d = (u - 48) as u64;
        proof {
            assert(s@.subrange(start as int, i + 1).drop_last() =~= s@.subrange(
                start as int,
                i as int,
            ));
            assert(s@.subrange(start as int, i + 1).last() == s@[i as int]);
        }
        if mag > limit / 10 || (mag == limit / 10 && d > limit % 10) {
            // the digits read so far already exceed the representable range,
            // and further digits only grow the value
            proof {
                assert(digits_val(s@.subrange(start as int, i + 1)) == mag * 10 + d);
                assert(mag * 10 + d > limit);
                if is_int_lit(s@) {
                    assert(forall|j: int| 0 <= j < digits.len() ==> is_digit_char(
                        #[trigger] digits[j],
                    ));
                    lemma_digits_val_prefix(digits, i + 1 - start);
                    assert(digits.take(i + 1 - start) =~= s@.subrange(start as int, i + 1));
                    assert(digits_val(digits) > limit);
                    if neg {
                        assert(int_lit_val(s@) < i64::MIN);
                    } else {
                        assert(s@.skip(0) =~= s@);
                        assert(int_lit_val(s@) > i64::MAX);
                    }
                }
            }
            return None;
        }
        mag = mag * 10 + d;
        i = i + 1;
    }
    proof {
        assert(s@.subrange(start as int, n as int) =~= digits);
        assert(is_int_lit(s@));
        if neg {
            assert(int_lit_val(s@) == -digits_val(digits));
        } else {
            assert(s@.skip(0) =~= s@);
            assert(int_lit_val(s@) == digits_val(digits));
        }
    }
    if neg {
        if mag == 9223372036854775808 {
            Some(i64::MIN)
        } else {
            Some(-(mag as i64))
        }
    } else {
        Some(mag as i64)
    }
}

} // verus!
