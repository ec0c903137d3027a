//! Integers as decimal text.
//!
//! A decimal text is one optional sign, a digit, and then digits and
//! underscores; an underscore separates digits and counts for nothing.

use crate::chain::bigint::{abs, signed};
use vstd::arithmetic::power::pow;
use vstd::prelude::*;

verus! {

/// Whether `c` is a decimal digit.
pub open spec fn is_digit(c: char) -> bool {
    '0' <= c && c <= '9'
}

/// The value of a decimal digit.
pub open spec fn digit_value(c: char) -> nat {
    (c as u8 - '0' as u8) as nat
}

/// The digit for a value below ten.
pub open spec fn digit_char(d: nat) -> char {
    (d + '0' as u8) as u8 as char
}

/// The number that the digits of `s` write in base ten; an underscore counts
/// for nothing.
pub open spec fn digits_value(s: Seq<char>) -> nat
    decreases s.len(),
{
    if s.len() == 0 {
        0
    } else if s.last() == '_' {
        digits_value(s.drop_last())
    } else {
        10 * digits_value(s.drop_last()) + digit_value(s.last())
    }
}

/// A digit, then digits and underscores.
pub open spec fn is_digits(s: Seq<char>) -> bool {
    &&& s.len() > 0
    &&& is_digit(s[0])
    &&& forall|i: int| 0 <= i < s.len() ==> is_digit(#[trigger] s[i]) || s[i] == '_'
}

/// Whether `s` starts with a sign.
pub open spec fn has_sign(s: Seq<char>) -> bool {
    s.len() > 0 && (s[0] == '-' || s[0] == '+')
}

/// The text of an integer in base ten: one optional sign, `-` or `+`, then
/// a digit, then digits and underscores.
pub open spec fn is_decimal(s: Seq<char>) -> bool {
    if has_sign(s) {
        is_digits(s.skip(1))
    } else {
        is_digits(s)
    }
}

/// The magnitude that a decimal text writes.
pub open spec fn decimal_magnitude(s: Seq<char>) -> nat {
    if has_sign(s) {
        digits_value(s.skip(1))
    } else {
        digits_value(s)
    }
}

/// The integer that a decimal text writes.
pub open spec fn decimal_value(s: Seq<char>) -> int {
    signed(s.len() > 0 && s[0] == '-', decimal_magnitude(s))
}

/// The digits of `n` in base ten, without leading zeros; `0` for zero.
pub open spec fn decimal_digits(n: nat) -> Seq<char>
    decreases n,
{
    if n < 10 {
        seq![digit_char(n)]
    } else {
        decimal_digits(n / 10).push(digit_char(n % 10))
    }
}

/// The text of `v` in base ten, with a `-` in front where `v` is below zero.
pub open spec fn decimal_text(v: int) -> Seq<char> {
    if v < 0 {
        seq!['-'] + decimal_digits(abs(v))
    } else {
        decimal_digits(abs(v))
    }
}

/// Whether every character of `s` is a decimal digit.
pub open spec fn all_digits(s: Seq<char>) -> bool {
    forall|i: int| 0 <= i < s.len() ==> is_digit(#[trigger] s[i])
}

/// The digit of a value below ten is a digit with that value.
pub proof fn lemma_digit_char(d: nat)
    requires
        d < 10,
    ensures
        is_digit(digit_char(d)),
        digit_value(digit_char(d)) == d,
        digit_char(d) != '_',
        digit_char(d) != '.',
        digit_char(d) != '-',
        digit_char(d) != '+',
        d == 0 <==> digit_char(d) == '0',
{
}

/// The digits of a number are digits, at least one, and write the number.
pub proof fn lemma_decimal_digits(n: nat)
    ensures
        decimal_digits(n).len() > 0,
        all_digits(decimal_digits(n)),
        digits_value(decimal_digits(n)) == n,
    decreases n,
{
    if n < 10 {
        lemma_digit_char(n);
        let s = decimal_digits(n);
        assert(s.drop_last().len() == 0);
        assert(digits_value(s.drop_last()) == 0);
    } else {
        lemma_decimal_digits(n / 10);
        lemma_digit_char(n % 10);
        let front = decimal_digits(n / 10);
        let s = decimal_digits(n);
        assert(s.drop_last() =~= front);
    }
}

/// Digits with no sign in front are a decimal text for the number they
/// write.
pub proof fn lemma_digits_are_decimal(s: Seq<char>)
    requires
        s.len() > 0,
        all_digits(s),
    ensures
        is_decimal(s),
        decimal_value(s) == digits_value(s),
{
    assert(is_digit(s[0]));
}

/// The text of a number reads back as that number.
pub proof fn lemma_decimal_text_value(v: int)
    ensures
        is_decimal(decimal_text(v)),
        decimal_value(decimal_text(v)) == v,
{
    let digits = decimal_digits(abs(v));
    lemma_decimal_digits(abs(v));
    if v < 0 {
        let text = decimal_text(v);
        assert(text.skip(1) =~= digits);
        assert(text[0] == '-');
        assert(is_digit(digits[0]));
    } else {
        lemma_digits_are_decimal(digits);
    }
}

/// Digits behind a text move the number of the text up by as many places.
pub proof fn lemma_digits_value_concat(a: Seq<char>, b: Seq<char>)
    requires
        all_digits(b),
    ensures
        digits_value(a + b) == digits_value(a) * pow(10, b.len()) + digits_value(b),
    decreases b.len(),
{
    reveal(pow);
    if b.len() == 0 {
        assert(a + b =~= a);
    } else {
        let front = b.drop_last();
        lemma_digits_value_concat(a, front);
        assert((a + b).drop_last() =~= a + front);
        assert((a + b).last() == b.last());
        assert(is_digit(b.last()));
        let x = digits_value(a);
        let p = pow(10, front.len());
        assert(10 * (x * p) == x * (10 * p)) by (nonlinear_arith);
    }
}

} // verus!
