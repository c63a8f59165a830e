//! Whole numbers in text.

use vstd::prelude::*;

use crate::text::code;

verus! {

/// Whether a character is one of the ten ASCII digits.
pub open spec fn is_digit(c: char) -> bool {
    '0' <= c <= '9'
}

/// The value of a digit.
pub open spec fn digit_value(c: char) -> int {
    c as int - 48
}

/// Whether all characters are digits.
pub open spec fn all_digits(s: Seq<char>) -> bool {
    forall|i: int| 0 <= i < s.len() ==> is_digit(#[trigger] s[i])
}

/// The number that some digits stand for.
pub open spec fn digits_value(s: Seq<char>) -> int
    decreases s.len(),
{
    if s.len() == 0 {
        0
    } else {
        digits_value(s.drop_last()) * 10 + digit_value(s.last())
    }
}

/// The number that a text of at least one digit stands for.
pub open spec fn natural(s: Seq<char>) -> Option<int> {
    if s.len() > 0 && all_digits(s) {
        Some(digits_value(s))
    } else {
        None
    }
}

/// The number that a text stands for as an unsigned integer: digits, with or without a plus sign
/// before them.
pub open spec fn unsigned_value(s: Seq<char>) -> Option<int> {
    if s.len() > 0 && s[0] == '+' {
        natural(s.skip(1))
    } else {
        natural(s)
    }
}

/// The number that a text stands for as a signed integer: digits, with or without a sign before
/// them.
pub open spec fn signed_value(s: Seq<char>) -> Option<int> {
    if s.len() > 0 && s[0] == '-' {
        match natural(s.skip(1)) {
            Some(n) => Some(-n),
            None => None,
        }
    } else {
        unsigned_value(s)
    }
}

/// A number, if it is within bounds.
pub open spec fn within(n: Option<int>, min: int, max: int) -> Option<int> {
    match n {
        Some(n) => if min <= n <= max {
            Some(n)
        } else {
            None
        },
        None => None,
    }
}

/// Whether a character is a digit.
pub fn is_ascii_digit(c: char) -> (r: bool)
    ensures
        r == is_digit(c),
{
    let n: u32 = code(c);
    48 <= n && n <= 57
}

/// Digits never stand for a negative number, and more digits never stand for a smaller one.
pub proof fn lemma_digits_value_grows(s: Seq<char>, n: int)
    requires
        all_digits(s),
        0 <= n <= s.len(),
    ensures
        0 <= digits_value(s.take(n)) <= digits_value(s),
    decreases s.len(),
{
    if n == s.len() {
        assert(s.take(n) =~= s);
        if s.len() > 0 {
            assert forall|i: int| 0 <= i < s.drop_last().len() implies is_digit(
                #[trigger] s.drop_last()[i],
            ) by {
                assert(is_digit(s[i]));
            }
            lemma_digits_value_grows(s.drop_last(), n - 1);
            assert(is_digit(s[n - 1]));
            assert(s.drop_last().take(n - 1) =~= s.drop_last());
        }
    } else {
        assert forall|i: int| 0 <= i < s.drop_last().len() implies is_digit(
            #[trigger] s.drop_last()[i],
        ) by {
            assert(is_digit(s[i]));
        }
        lemma_digits_value_grows(s.drop_last(), n);
        assert(s.drop_last().take(n) =~= s.take(n));
        assert(is_digit(s[s.len() - 1]));
    }
}

/// The number that a text of at least one digit stands for, if it is at most `max`.
fn parse_natural(s: &[char], max: u128) -> (r: Option<u128>)
    ensures
        match within(natural(s@), 0, max as int) {
            Some(n) => r matches Some(m) && m == n,
            None => r is None,
        },
{
    if s.len() == 0 {
        return None;
    }
    let mut i: usize = 0;
    while i < s.len()
        invariant
            i <= s.len(),
            forall|j: int| 0 <= j < i ==> is_digit(#[trigger] s@[j]),
        decreases s.len() - i,
    {
        if !is_ascii_digit(s[i]) {
            assert(!is_digit(s@[i as int]));
            return None;
        }
        i += 1;
    }
    let mut value: u128 = 0;
    let mut k: usize = 0;
    while k < s.len()
        invariant
            k <= s.len(),
            all_digits(s@),
            value == digits_value(s@.take(k as int)),
            value <= max,
            s.len() > 0,
        decreases s.len() - k,
    {
        let digit: u128 = (code(s[k]) - 48) as u128;
        proof {
            assert(is_digit(s@[k as int]));
            assert(s@.take(k + 1).drop_last() =~= s@.take(k as int));
            lemma_digits_value_grows(s@, k + 1);
        }
        if digit > max || value > (max - digit) / 10 {
            return None;
        }
        value = value * 10 + digit;
        k += 1;
    }
    assert(s@.take(k as int) =~= s@);
    Some(value)
}

/// The number that a text stands for as an unsigned integer, if it is at most `max`.
pub fn parse_unsigned(s: &[char], max: u128) -> (r: Option<u128>)
    ensures
        match within(unsigned_value(s@), 0, max as int) {
            Some(n) => r matches Some(m) && m == n,
            None => r is None,
        },
{
    if s.len() > 0 && s[0] == '+' {
        let rest: &[char] = vstd::slice::slice_subrange(s, 1, s.len());
        assert(rest@ =~= s@.skip(1));
        parse_natural(rest, max)
    } else {
        parse_natural(s, max)
    }
}

/// The number that a text stands for as a 64-bit unsigned integer.
pub fn parse_u64(s: &[char]) -> (r: Option<u64>)
    ensures
        match within(unsigned_value(s@), 0, u64::MAX as int) {
            Some(n) => r matches Some(m) && m == n,
            None => r is None,
        },
{
    match parse_unsigned(s, u64::MAX as u128) {
        Some(n) => Some(n as u64),
        None => None,
    }
}

/// The number that a text stands for as a 32-bit unsigned integer.
pub fn parse_u32(s: &[char]) -> (r: Option<u32>)
    ensures
        match within(unsigned_value(s@), 0, u32::MAX as int) {
            Some(n) => r matches Some(m) && m == n,
            None => r is None,
        },
{
    match parse_unsigned(s, u32::MAX as u128) {
        Some(n) => Some(n as u32),
        None => None,
    }
}

/// The number that a text stands for as a 128-bit signed integer.
pub fn parse_i128(s: &[char]) -> (r: Option<i128>)
    ensures
        match within(signed_value(s@), i128::MIN as int, i128::MAX as int) {
            Some(n) => r matches Some(m) && m == n,
            None => r is None,
        },
{
    if s.len() > 0 && s[0] == '-' {
        let rest: &[char] = vstd::slice::slice_subrange(s, 1, s.len());
        assert(rest@ =~= s@.skip(1));
        proof {
            if all_digits(rest@) {
                lemma_digits_value_grows(rest@, rest@.len() as int);
            }
        }
        match parse_natural(rest, 0x8000_0000_0000_0000_0000_0000_0000_0000) {
            Some(n) => if n == 0x8000_0000_0000_0000_0000_0000_0000_0000 {
                Some(i128::MIN)
            } else {
                Some(-(n as i128))
            },
            None => None,
        }
    } else {
        proof {
            let digits = if s@.len() > 0 && s@[0] == '+' {
                s@.skip(1)
            } else {
                s@
            };
            if all_digits(digits) {
                lemma_digits_value_grows(digits, digits.len() as int);
            }
        }
        match parse_unsigned(s, i128::MAX as u128) {
            Some(n) => Some(n as i128),
            None => None,
        }
    }
}

/// The number that a text stands for as a signed integer, if it is within bounds.
pub fn parse_signed(s: &[char], min: i128, max: i128) -> (r: Option<i128>)
    ensures
        match within(signed_value(s@), min as int, max as int) {
            Some(n) => r matches Some(m) && m == n,
            None => r is None,
        },
{
    match parse_i128(s) {
        Some(n) => if min <= n && n <= max {
            Some(n)
        } else {
            None
        },
        None => None,
    }
}

} // verus!
