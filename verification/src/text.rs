//! Small tests and conversions on command-line text.

use vstd::prelude::*;
use vstd::string::StrSliceExecFns;

verus! {

/// Whether `text` ends with `suffix`.
pub fn ends_with(text: &str, suffix: &str) -> (b: bool)
    ensures
        b == suffix@.is_suffix_of(text@),
{
    let n: usize = text.unicode_len();
    let m: usize = suffix.unicode_len();
    if m > n {
        return false;
    }
    let mut i: usize = 0;
    while i < m
        invariant
            i <= m <= n,
            n == text@.len(),
            m == suffix@.len(),
            forall|j: int| 0 <= j < i ==> text@[n - m + j] == suffix@[j],
        decreases m - i,
    {
        if text.get_char(n - m + i) != suffix.get_char(i) {
            return false;
        }
        i = i + 1;
    }
    true
}

/// Whether `text` begins with `prefix`.
pub fn starts_with(text: &str, prefix: &str) -> (b: bool)
    ensures
        b == prefix@.is_prefix_of(text@),
{
    let n: usize = text.unicode_len();
    let m: usize = prefix.unicode_len();
    if m > n {
        return false;
    }
    let mut i: usize = 0;
    while i < m
        invariant
            i <= m <= n,
            n == text@.len(),
            m == prefix@.len(),
            forall|j: int| 0 <= j < i ==> text@[j] == prefix@[j],
        decreases m - i,
    {
        if text.get_char(i) != prefix.get_char(i) {
            return false;
        }
        i = i + 1;
    }
    true
}

/// Whether the two texts hold the same characters.
pub fn same_text(left: &str, right: &str) -> (b: bool)
    ensures
        b == (left@ == right@),
{
    if left.unicode_len() != right.unicode_len() {
        return false;
    }
    let b = starts_with(left, right);
    assert(left@.subrange(0, left@.len() as int) =~= left@);
    b
}

/// Whether `c` is one of the digits `0` to `9`.
pub open spec fn is_digit(c: char) -> bool {
    '0' <= c <= '9'
}

/// The number that a run of decimal digits writes; the empty run writes 0.
pub open spec fn decimal_value(digits: Seq<char>) -> nat
    decreases digits.len(),
{
    if digits.len() == 0 {
        0
    } else {
        decimal_value(digits.drop_last()) * 10 + (digits.last() as nat - 0x30) as nat
    }
}

/// The digits of a number's text: the text without a leading `+`.
pub open spec fn unsigned_part(text: Seq<char>) -> Seq<char> {
    if text.len() > 0 && text[0] == '+' {
        text.skip(1)
    } else {
        text
    }
}

/// The number that `text` writes in decimal: an optional `+`, then one or
/// more digits and nothing else. `None` for any other text, and for a number
/// too large for 64 bits.
pub open spec fn parsed_number(text: Seq<char>) -> Option<u64> {
    let digits = unsigned_part(text);
    if digits.len() > 0 && (forall|i: int| 0 <= i < digits.len() ==> is_digit(#[trigger] digits[i]))
        && decimal_value(digits) <= u64::MAX {
        Some(decimal_value(digits) as u64)
    } else {
        None
    }
}

/// A run of digits writes at least what any of its beginnings writes.
pub proof fn lemma_decimal_value_grows(digits: Seq<char>, n: int)
    requires
        0 <= n <= digits.len(),
        forall|i: int| 0 <= i < digits.len() ==> is_digit(#[trigger] digits[i]),
    ensures
        decimal_value(digits.take(n)) <= decimal_value(digits),
    decreases digits.len() - n,
{
    if n == digits.len() {
        assert(digits.take(n) =~= digits);
    } else {
        assert(digits.take(n + 1).drop_last() =~= digits.take(n));
        lemma_decimal_value_grows(digits, n + 1);
    }
}

/// Reads a number written in decimal.
pub fn parse_number(text: &str) -> (number: Option<u64>)
    ensures
        number == parsed_number(text@),
{
    let n: usize = text.unicode_len();
    let start: usize = if n > 0 && text.get_char(0) == '+' {
        1
    } else {
        0
    };
    let ghost digits = unsigned_part(text@);
    if start == n {
        return None;
    }
    let mut value: u64 = 0;
    let mut i: usize = start;
    while i < n
        invariant
            start <= i <= n,
            n == text@.len(),
            digits == unsigned_part(text@),
            digits == text@.skip(start as int),
            forall|j: int| 0 <= j < i - start ==> is_digit(#[trigger] digits[j]),
            value == decimal_value(digits.take(i - start)),
        decreases n - i,
    {
        let c = text.get_char(i);
        if c < '0' || c > '9' {
            assert(!is_digit(digits[i - start]));
            return None;
        }
        let digit: u64 = (c as u32 - 0x30) as u64;
        proof {
            assert(digits.take(i - start + 1).drop_last() =~= digits.take(i - start));
        }
        if value > (u64::MAX - digit) / 10 {
            proof {
                if forall|j: int| 0 <= j < digits.len() ==> is_digit(#[trigger] digits[j]) {
                    lemma_decimal_value_grows(digits, i - start + 1);
                }
            }
            return None;
        }
        value = value * 10 + digit;
        i = i + 1;
    }
    proof {
        assert(digits.take(n - start) =~= digits);
    }
    Some(value)
}

} // verus!
