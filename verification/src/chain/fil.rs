//! Amounts as text.
//!
//! Amounts are counted in attoFIL; one FIL is ten to the eighteenth of them.
//! The text of an amount is a decimal number of FIL, followed by the unit.

use crate::chain::bigint::{abs, truncated_div, truncated_rem, BigInt};
use crate::chain::decimal::{
    all_digits, decimal_digits, decimal_text, decimal_value, digit_char, digits_value,
    is_decimal, is_digit, lemma_decimal_digits, lemma_digit_char, lemma_digits_are_decimal,
    lemma_digits_value_concat,
};
use crate::text::{
    chars_of, eq_ignore_ascii_case, is_space, lemma_prefix_len, lemma_suffix_len,
    lemma_suffix_len_bounds, lower, prefix_len, suffix_len, trim, trimmed,
};
use vstd::arithmetic::div_mod::lemma_fundamental_div_mod;
use vstd::arithmetic::power::pow;
use vstd::prelude::*;
use vstd::string::*;

verus! {

/// AttoFIL in one FIL.
pub const FILECOIN_PRECISION: u64 = 1_000_000_000_000_000_000;

/// Decimal places of a FIL.
pub const PRECISION_DIGITS: usize = 18;

/// Why a text is not an amount.
#[derive(Debug, Clone, Copy, PartialEq, Eq, Structural)]
pub enum AmountFormatError {
    /// The unit is none of FIL, attoFIL and aFIL.
    UnknownUnit,
    /// A decimal point in an amount of attoFIL.
    FractionalAttoFil,
    /// The number is no decimal number.
    MalformedNumber,
}

/// Whether `c` may stand in the number of an amount.
pub open spec fn is_number_char(c: char) -> bool {
    is_digit(c) || c == '.' || c == '-'
}

/// How many characters at the front of `s` belong to the number.
pub open spec fn number_len(s: Seq<char>) -> nat {
    prefix_len(s, |c: char| is_number_char(c))
}

/// The number at the front of `s`.
pub open spec fn number_part(s: Seq<char>) -> Seq<char> {
    s.take(number_len(s) as int)
}

/// The unit behind the number, without the white space around it.
pub open spec fn unit_part(s: Seq<char>) -> Seq<char> {
    trimmed(s.skip(number_len(s) as int))
}

/// Whether a unit counts attoFIL, for the units that are known: none and
/// `FIL` count FIL, `attoFIL` and `aFIL` count attoFIL, in any case of the
/// letters.
pub open spec fn unit_is_atto(unit: Seq<char>) -> Option<bool> {
    let u = lower(unit);
    if u.len() == 0 || u == "fil"@ {
        Some(false)
    } else if u == "attofil"@ || u == "afil"@ {
        Some(true)
    } else {
        None
    }
}

/// Where the first decimal point of `s` stands; the length of `s` where it
/// has none.
pub open spec fn dot_index(s: Seq<char>) -> nat {
    prefix_len(s, |c: char| c != '.')
}

/// Whether `s` has a decimal point.
pub open spec fn has_dot(s: Seq<char>) -> bool {
    dot_index(s) < s.len()
}

/// Whether `s` has exactly one decimal point.
pub open spec fn has_one_dot(s: Seq<char>) -> bool {
    has_dot(s) && !has_dot(s.skip(dot_index(s) as int + 1))
}

/// `n` zeros.
pub open spec fn zeros(n: nat) -> Seq<char> {
    Seq::new(n, |i: int| '0')
}

/// The first `width` characters of `s`, filled up with zeros at the end
/// where `s` is shorter.
pub open spec fn pad_or_cut(s: Seq<char>, width: nat) -> Seq<char> {
    if s.len() >= width {
        s.take(width as int)
    } else {
        s + zeros((width - s.len()) as nat)
    }
}

/// The digits of a number with one decimal point, moved eighteen places:
/// what stands before the point, then the first eighteen places behind it.
pub open spec fn scaled_text(s: Seq<char>) -> Seq<char> {
    let d = dot_index(s) as int;
    s.take(d) + pad_or_cut(s.skip(d + 1), PRECISION_DIGITS as nat)
}

/// The attoFIL that a number with a decimal point stands for.
pub open spec fn parse_decimal_spec(s: Seq<char>, is_attofil: bool) -> Result<
    int,
    AmountFormatError,
> {
    if !has_one_dot(s) {
        Err(AmountFormatError::MalformedNumber)
    } else if is_attofil {
        Err(AmountFormatError::FractionalAttoFil)
    } else if !is_decimal(scaled_text(s)) {
        Err(AmountFormatError::MalformedNumber)
    } else {
        Ok(decimal_value(scaled_text(s)))
    }
}

/// The attoFIL that the text of an amount stands for.
pub open spec fn parse_fil_spec(s: Seq<char>) -> Result<int, AmountFormatError> {
    let t = trimmed(s);
    let number = number_part(t);
    match unit_is_atto(unit_part(t)) {
        None => Err(AmountFormatError::UnknownUnit),
        Some(is_attofil) => if has_dot(number) {
            parse_decimal_spec(number, is_attofil)
        } else if !is_decimal(number) {
            Err(AmountFormatError::MalformedNumber)
        } else if is_attofil {
            Ok(decimal_value(number))
        } else {
            Ok(decimal_value(number) * FILECOIN_PRECISION)
        },
    }
}

/// The last `width` digits of `n` in base ten, with zeros in front where `n`
/// has fewer.
pub open spec fn fixed_digits(n: nat, width: nat) -> Seq<char>
    decreases width,
{
    if width == 0 {
        Seq::empty()
    } else {
        fixed_digits(n / 10, (width - 1) as nat).push(digit_char(n % 10))
    }
}

/// The digits of a number below ten to the `width`, with zeros in front to
/// make `width` of them, are its last `width` digits.
pub proof fn lemma_decimal_digits_fixed(n: nat, width: nat)
    requires
        width > 0,
        n < pow(10, width),
    ensures
        decimal_digits(n).len() <= width,
        zeros((width - decimal_digits(n).len()) as nat) + decimal_digits(n) == fixed_digits(
            n,
            width,
        ),
    decreases width,
{
    reveal(pow);
    if n < 10 {
        lemma_fixed_digits_zero((width - 1) as nat);
        assert(n / 10 == 0);
        assert(zeros((width - 1) as nat) + decimal_digits(n) =~= zeros((width - 1) as nat).push(
            digit_char(n),
        ));
    } else {
        assert(width > 1) by {
            assert(pow(10, 1) == 10) by {
                reveal_with_fuel(pow, 2);
            }
        }
        lemma_decimal_digits_fixed(n / 10, (width - 1) as nat);
        let front = decimal_digits(n / 10);
        assert(zeros((width - decimal_digits(n).len()) as nat) + decimal_digits(n) =~= (zeros(
            ((width - 1) - front.len()) as nat,
        ) + front).push(digit_char(n % 10)));
    }
}

/// Ten to the eighteenth is the count of attoFIL in a FIL.
pub proof fn lemma_precision()
    ensures
        pow(10, PRECISION_DIGITS as nat) == FILECOIN_PRECISION,
{
    reveal(pow);
    assert(pow(10, 0) == 1);
    assert(pow(10, 3) == 1000) by {
        reveal_with_fuel(pow, 4);
    }
    assert(pow(10, 6) == 1000 * pow(10, 3)) by {
        reveal_with_fuel(pow, 4);
    }
    assert(pow(10, 9) == 1000 * pow(10, 6)) by {
        reveal_with_fuel(pow, 4);
    }
    assert(pow(10, 12) == 1000 * pow(10, 9)) by {
        reveal_with_fuel(pow, 4);
    }
    assert(pow(10, 15) == 1000 * pow(10, 12)) by {
        reveal_with_fuel(pow, 4);
    }
    assert(pow(10, 18) == 1000 * pow(10, 15)) by {
        reveal_with_fuel(pow, 4);
    }
}

/// The last digits of zero are zeros.
pub proof fn lemma_fixed_digits_zero(width: nat)
    ensures
        fixed_digits(0, width) == zeros(width),
    decreases width,
{
    if width > 0 {
        lemma_fixed_digits_zero((width - 1) as nat);
        assert(fixed_digits(0, width) =~= zeros(width));
    } else {
        assert(fixed_digits(0, width) =~= zeros(width));
    }
}

/// `s` without the zeros at its end.
pub open spec fn without_trailing_zeros(s: Seq<char>) -> Seq<char> {
    s.take(s.len() - suffix_len(s, |c: char| c == '0'))
}

/// The text of an amount of attoFIL: the whole FIL, rounded toward zero;
/// then, where the rest is not zero, a decimal point and the eighteen digits
/// of the rest without the zeros at their end; then the unit.
pub open spec fn fil_text(attofil: int) -> Seq<char> {
    let whole = truncated_div(attofil, FILECOIN_PRECISION as int);
    let rest = abs(truncated_rem(attofil, FILECOIN_PRECISION as int));
    if rest == 0 {
        decimal_text(whole) + " FIL"@
    } else {
        decimal_text(whole) + seq!['.'] + without_trailing_zeros(
            fixed_digits(rest, PRECISION_DIGITS as nat),
        ) + " FIL"@
    }
}

/// The last `width` digits of a number are `width` digits; they write the
/// number where it is below ten to the `width`.
pub proof fn lemma_fixed_digits(n: nat, width: nat)
    ensures
        fixed_digits(n, width).len() == width,
        all_digits(fixed_digits(n, width)),
        n < pow(10, width) ==> digits_value(fixed_digits(n, width)) == n,
    decreases width,
{
    reveal(pow);
    if width > 0 {
        lemma_fixed_digits(n / 10, (width - 1) as nat);
        lemma_digit_char(n % 10);
        let front = fixed_digits(n / 10, (width - 1) as nat);
        let s = fixed_digits(n, width);
        assert(s.drop_last() =~= front);
        if n < pow(10, width) {
            assert(n / 10 < pow(10, (width - 1) as nat));
        }
    }
}

/// Filling up with zeros what was left after the zeros at the end were
/// taken away gives the digits back.
pub proof fn lemma_pad_restores(s: Seq<char>)
    ensures
        without_trailing_zeros(s).len() <= s.len(),
        pad_or_cut(without_trailing_zeros(s), s.len()) == s,
        without_trailing_zeros(s).len() > 0 ==> without_trailing_zeros(s).last() != '0',
{
    let p = |c: char| c == '0';
    lemma_suffix_len_bounds(s, p);
    let k = suffix_len(s, p);
    let front = without_trailing_zeros(s);
    if k == 0 {
        assert(front =~= s);
        assert(s.take(s.len() as int) =~= s);
    } else {
        assert forall|j: int| 0 <= j < s.len() implies (front + zeros(k))[j] == s[j] by {
            if j >= front.len() {
                assert(p(s[j]));
            }
        }
        assert(front + zeros(k) =~= s);
    }
    if front.len() > 0 {
        assert(!p(s[s.len() - k - 1]));
        assert(front.last() == s[s.len() - k - 1]);
    }
}

/// Formatting an amount that is not below zero and parsing the text gives
/// the amount back.
pub proof fn lemma_parse_format(attofil: int)
    requires
        attofil >= 0,
    ensures
        parse_fil_spec(fil_text(attofil)) == Ok::<int, AmountFormatError>(attofil),
{
    let precision = FILECOIN_PRECISION as int;
    let whole = (attofil / precision) as nat;
    let rest = (attofil % precision) as nat;
    assert(truncated_div(attofil, precision) == whole);
    assert(abs(truncated_rem(attofil, precision)) == rest);
    assert(attofil == whole * precision + rest) by {
        lemma_fundamental_div_mod(attofil, precision);
        assert(precision * (attofil / precision) == (attofil / precision) * precision)
            by (nonlinear_arith);
    }
    let whole_text = decimal_digits(whole);
    assert(decimal_text(whole as int) == whole_text);
    lemma_decimal_digits(whole);
    lemma_precision();
    let places = fixed_digits(rest, PRECISION_DIGITS as nat);
    lemma_fixed_digits(rest, PRECISION_DIGITS as nat);
    let fraction = without_trailing_zeros(places);
    lemma_pad_restores(places);
    let unit = " FIL"@;
    reveal_strlit(" FIL");
    reveal_strlit("fil");
    reveal_strlit("attofil");
    reveal_strlit("afil");
    let number = if rest == 0 {
        whole_text
    } else {
        whole_text + seq!['.'] + fraction
    };
    let text = fil_text(attofil);
    assert(text =~= number + unit);
    assert forall|j: int| 0 <= j < fraction.len() implies is_digit(#[trigger] fraction[j]) by {
        assert(fraction[j] == places[j]);
    }
    assert forall|j: int| 0 <= j < number.len() implies is_number_char(#[trigger] number[j]) by {
        if j < whole_text.len() {
            assert(is_digit(whole_text[j]));
        } else if j > whole_text.len() {
            assert(number[j] == fraction[j - whole_text.len() - 1]);
        }
    }
    let space = |c: char| is_space(c);
    // The text starts with a digit and ends with a letter: nothing to trim.
    assert(text[0] == whole_text[0]);
    assert(is_digit(whole_text[0]));
    lemma_prefix_len(text, space, 0);
    assert(text.skip(0) =~= text);
    assert(text.last() == 'L');
    lemma_suffix_len(text, space, 0);
    assert(text.take(text.len() as int) =~= text);
    assert(trimmed(text) == text);
    // The number ends where the space before the unit stands.
    let number_chars = |c: char| is_number_char(c);
    assert forall|j: int| 0 <= j < number.len() implies number_chars(#[trigger] text[j]) by {
        assert(text[j] == number[j]);
    }
    assert(text[number.len() as int] == ' ');
    lemma_prefix_len(text, number_chars, number.len());
    assert(number_part(text) =~= number);
    let tail = text.skip(number.len() as int);
    assert(tail =~= unit);
    // The unit is FIL.
    lemma_prefix_len(unit, space, 1);
    let letters = unit.skip(1);
    assert(letters.last() == 'L');
    lemma_suffix_len(letters, space, 0);
    assert(trimmed(unit) =~= letters);
    assert(lower(letters) =~= "fil"@);
    assert(unit_is_atto(letters) == Some(false));
    let no_dot = |c: char| c != '.';
    if rest == 0 {
        assert forall|j: int| 0 <= j < number.len() implies no_dot(#[trigger] number[j]) by {
            assert(is_digit(whole_text[j]));
        }
        lemma_prefix_len(number, no_dot, number.len());
        lemma_digits_are_decimal(number);
    } else {
        let d = whole_text.len();
        assert forall|j: int| 0 <= j < d implies no_dot(#[trigger] number[j]) by {
            assert(is_digit(whole_text[j]));
        }
        assert(number[d as int] == '.');
        lemma_prefix_len(number, no_dot, d);
        assert(number.take(d as int) =~= whole_text);
        assert(number.skip(d as int + 1) =~= fraction);
        assert forall|j: int| 0 <= j < fraction.len() implies no_dot(#[trigger] fraction[j]) by {
            assert(is_digit(fraction[j]));
        }
        lemma_prefix_len(fraction, no_dot, fraction.len());
        assert(has_one_dot(number));
        assert(pad_or_cut(fraction, PRECISION_DIGITS as nat) == places);
        let scaled = whole_text + places;
        assert(scaled_text(number) == scaled);
        assert forall|j: int| 0 <= j < scaled.len() implies is_digit(#[trigger] scaled[j]) by {
            if j < d {
                assert(is_digit(whole_text[j]));
            } else {
                assert(is_digit(places[j - d]));
            }
        }
        lemma_digits_are_decimal(scaled);
        lemma_digits_value_concat(whole_text, places);
    }
}

/// Whether `c` may stand in the number of an amount.
fn number_char(c: char) -> (r: bool)
    ensures
        r == is_number_char(c),
{
    ('0' <= c && c <= '9') || c == '.' || c == '-'
}

/// Cuts `s` into the number at its front and the unit behind it; the unit
/// comes without the white space around it.
pub fn split_number_unit(s: &str) -> (r: (&str, &str))
    ensures
        r.0@ == number_part(s@),
        r.1@ == unit_part(s@),
{
    let v = chars_of(s);
    let n = v.len();
    let mut idx: usize = 0;
    while idx < n && number_char(v[idx])
        invariant
            v@ == s@,
            n == v@.len(),
            idx <= n,
            forall|j: int| 0 <= j < idx ==> is_number_char(#[trigger] v@[j]),
        decreases n - idx,
    {
        idx = idx + 1;
    }
    proof {
        lemma_prefix_len(s@, |c: char| is_number_char(c), idx as nat);
        assert(s@.subrange(0, idx as int) =~= s@.take(idx as int));
        assert(s@.subrange(idx as int, n as int) =~= s@.skip(idx as int));
    }
    (s.substring_char(0, idx), trim(s.substring_char(idx, n)))
}

/// Whether a unit counts attoFIL, for the units that are known.
fn unit_kind(unit: &str) -> (r: Option<bool>)
    ensures
        r == unit_is_atto(unit@),
{
    proof {
        reveal_strlit("fil");
        reveal_strlit("attofil");
        reveal_strlit("afil");
        assert(lower("fil"@) =~= "fil"@);
        assert(lower("attofil"@) =~= "attofil"@);
        assert(lower("afil"@) =~= "afil"@);
    }
    if unit.unicode_len() == 0 || eq_ignore_ascii_case(unit, "fil") {
        Some(false)
    } else if eq_ignore_ascii_case(unit, "attofil") || eq_ignore_ascii_case(unit, "afil") {
        Some(true)
    } else {
        None
    }
}

/// Where the first decimal point stands in `v` from `from` on; the length
/// of `v` where there is none.
fn find_dot(v: &Vec<char>, from: usize) -> (d: usize)
    requires
        from <= v@.len(),
    ensures
        from <= d <= v@.len(),
        d - from == dot_index(v@.skip(from as int)),
{
    let n = v.len();
    let mut d: usize = from;
    while d < n && v[d] != '.'
        invariant
            n == v@.len(),
            from <= d <= n,
            forall|j: int| from <= j < d ==> #[trigger] v@[j] != '.',
        decreases n - d,
    {
        d = d + 1;
    }
    proof {
        let rest = v@.skip(from as int);
        let p = |c: char| c != '.';
        assert forall|j: int| 0 <= j < d - from implies p(#[trigger] rest[j]) by {
            assert(rest[j] == v@[j + from]);
        }
        lemma_prefix_len(rest, p, (d - from) as nat);
    }
    d
}

/// Appends `count` zeros.
fn push_zeros(text: &mut String, count: usize)
    ensures
        final(text)@ == old(text)@ + zeros(count as nat),
{
    proof {
        reveal_strlit("0");
    }
    let mut k: usize = 0;
    assert(text@ =~= old(text)@ + zeros(0));
    while k < count
        invariant
            k <= count,
            "0"@ == seq!['0'],
            text@ == old(text)@ + zeros(k as nat),
        decreases count - k,
    {
        text.append("0");
        k = k + 1;
        assert(text@ =~= old(text)@ + zeros(k as nat));
    }
}

/// The attoFIL that a number of FIL with a decimal point stands for: the
/// digits before the point and the first eighteen behind it are read as one
/// number. An amount of attoFIL may not have a decimal point.
pub fn parse_decimal(s: &str, is_attofil: bool) -> (r: Result<BigInt, AmountFormatError>)
    ensures
        match r {
            Ok(v) => parse_decimal_spec(s@, is_attofil) == Ok::<int, AmountFormatError>(v@),
            Err(e) => parse_decimal_spec(s@, is_attofil) == Err::<int, AmountFormatError>(e),
        },
{
    let v = chars_of(s);
    let n = v.len();
    let d = find_dot(&v, 0);
    assert(v@.skip(0) =~= v@);
    if d >= n {
        return Err(AmountFormatError::MalformedNumber);
    }
    let second = find_dot(&v, d + 1);
    if second < n {
        return Err(AmountFormatError::MalformedNumber);
    }
    if is_attofil {
        return Err(AmountFormatError::FractionalAttoFil);
    }
    let combined = scale(s, d, n);
    match BigInt::parse(combined.as_str()) {
        Some(value) => Ok(value),
        None => Err(AmountFormatError::MalformedNumber),
    }
}

/// The digits of `s`, which has `n` characters and its decimal point at
/// `d`, moved eighteen places.
fn scale(s: &str, d: usize, n: usize) -> (combined: String)
    requires
        n == s@.len(),
        d < n,
        d == dot_index(s@),
    ensures
        combined@ == scaled_text(s@),
{
    let places = n - d - 1;
    let mut combined = String::from_str(s.substring_char(0, d));
    assert(s@.subrange(0, d as int) =~= s@.take(d as int));
    if places >= PRECISION_DIGITS {
        combined.append(s.substring_char(d + 1, d + 1 + PRECISION_DIGITS));
        assert(s@.subrange(d + 1, d + 1 + PRECISION_DIGITS) =~= s@.skip(d + 1).take(
            PRECISION_DIGITS as int,
        ));
    } else {
        combined.append(s.substring_char(d + 1, n));
        assert(s@.subrange(d + 1, n as int) =~= s@.skip(d + 1));
        push_zeros(&mut combined, PRECISION_DIGITS - places);
    }
    combined
}

/// The attoFIL that the text of an amount stands for. The number may be
/// followed by a unit: `FIL`, which is also meant where there is none, or
/// `attoFIL` or `aFIL`.
pub fn parse_fil(s: &str) -> (r: Result<BigInt, AmountFormatError>)
    ensures
        match r {
            Ok(v) => parse_fil_spec(s@) == Ok::<int, AmountFormatError>(v@),
            Err(e) => parse_fil_spec(s@) == Err::<int, AmountFormatError>(e),
        },
{
    let s = trim(s);
    let (num_str, unit) = split_number_unit(s);
    let is_attofil = match unit_kind(unit) {
        Some(is_attofil) => is_attofil,
        None => {
            return Err(AmountFormatError::UnknownUnit);
        },
    };
    let digits = chars_of(num_str);
    let d = find_dot(&digits, 0);
    assert(digits@.skip(0) =~= digits@);
    if d < digits.len() {
        return parse_decimal(num_str, is_attofil);
    }
    let value = match BigInt::parse(num_str) {
        Some(value) => value,
        None => {
            return Err(AmountFormatError::MalformedNumber);
        },
    };
    if is_attofil {
        Ok(value)
    } else {
        Ok(value.product(&BigInt::from_u64(FILECOIN_PRECISION)))
    }
}

/// The text of an amount of attoFIL, in FIL. The sign shows in the whole
/// part only. The text of an amount that is not below zero reads back as
/// that amount.
pub fn format_fil(attofil: &BigInt) -> (text: String)
    ensures
        text@ == fil_text(attofil@),
        attofil@ >= 0 ==> parse_fil_spec(text@) == Ok::<int, AmountFormatError>(attofil@),
{
    proof {
        if attofil@ >= 0 {
            lemma_parse_format(attofil@);
        }
    }
    let precision = BigInt::from_u64(FILECOIN_PRECISION);
    let int_part = attofil.quotient(&precision);
    let dec_part = attofil.remainder(&precision).abs();
    let mut text = int_part.to_string();
    proof {
        reveal_strlit(" FIL");
        reveal_strlit(".");
    }
    if dec_part.is_zero() {
        text.append(" FIL");
        assert(text@ =~= fil_text(attofil@));
        return text;
    }
    let digits = dec_part.to_string();
    proof {
        lemma_precision();
        lemma_decimal_digits_fixed(dec_part@ as nat, PRECISION_DIGITS as nat);
    }
    let len = digits.as_str().unicode_len();
    let mut dec_str = String::new();
    push_zeros(&mut dec_str, PRECISION_DIGITS - len);
    assert(dec_str@ =~= zeros((PRECISION_DIGITS - len) as nat));
    dec_str.append(digits.as_str());
    assert(dec_str@ == fixed_digits(dec_part@ as nat, PRECISION_DIGITS as nat));
    let v = chars_of(dec_str.as_str());
    let mut end: usize = v.len();
    while end > 0 && v[end - 1] == '0'
        invariant
            end <= v@.len(),
            forall|j: int| end <= j < v@.len() ==> #[trigger] v@[j] == '0',
        decreases end,
    {
        end = end - 1;
    }
    proof {
        lemma_suffix_len(v@, |c: char| c == '0', (v@.len() - end) as nat);
    }
    text.append(".");
    text.append(dec_str.as_str().substring_char(0, end));
    text.append(" FIL");
    assert(text@ =~= fil_text(attofil@));
    text
}

} // verus!
