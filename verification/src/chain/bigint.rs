//! Signed integers of any size, held as a sign and the bytes of the
//! magnitude, which is the form that the message encoding writes.
//!
//! Arithmetic and the decimal text are computed by `num_bigint`; the values
//! pass to it and back as sign and big-endian bytes.

use crate::chain::bytes::{
    be_bytes, be_nat, is_minimal, lemma_be_bytes_value, lemma_minimal_be, lemma_minimal_positive,
    lemma_minimal_unique, lemma_strip_zeros, minimal_be, strip_zeros, write_be,
};
use crate::chain::decimal::{
    decimal_magnitude, decimal_text, decimal_value, is_decimal, lemma_decimal_text_value,
};
use vstd::arithmetic::power::pow;
use vstd::prelude::*;
use vstd::std_specs::cmp::PartialEqSpecImpl;

verus! {

/// The integer with the given sign and magnitude.
pub open spec fn signed(negative: bool, magnitude: nat) -> int {
    if negative {
        -(magnitude as int)
    } else {
        magnitude as int
    }
}

/// The magnitude of `v`.
pub open spec fn abs(v: int) -> nat {
    if v < 0 {
        (-v) as nat
    } else {
        v as nat
    }
}

/// A signed integer of any size. The default is zero.
#[derive(Debug)]
pub struct BigInt {
    negative: bool,
    magnitude: Vec<u8>,
}

impl View for BigInt {
    type V = int;

    closed spec fn view(&self) -> int {
        signed(self.negative, be_nat(self.magnitude@))
    }
}

/// Parses `s` with `num_bigint::BigInt::from_str` and takes the result apart
/// with `to_bytes_be`. Taken on trust: a text is accepted exactly when it is
/// one optional sign, `-` or `+`, then a digit, then digits and underscores;
/// the bytes returned write the magnitude, most significant first, and the
/// flag is set where the value is below zero.
#[verifier::external_body]
fn decimal_to_bytes(s: &str) -> (r: Option<(bool, Vec<u8>)>)
    ensures
        r is Some <==> is_decimal(s@),
        r matches Some((negative, magnitude)) ==> be_nat(magnitude@) == decimal_magnitude(s@)
            && negative == (decimal_value(s@) < 0),
{
    match s.parse::<num_bigint::BigInt>() {
        Ok(value) => {
            let (sign, bytes) = value.to_bytes_be();
            Some((sign == num_bigint::Sign::Minus, bytes))
        },
        Err(_) => None,
    }
}

/// Builds a `num_bigint::BigInt` with `from_bytes_be` and formats it with
/// its `Display`. Taken on trust: the text is the number in base ten without
/// leading zeros, with a `-` in front where it is below zero.
#[verifier::external_body]
fn bytes_to_decimal(negative: bool, magnitude: &[u8]) -> (text: String)
    ensures
        text@ == decimal_text(signed(negative, be_nat(magnitude@))),
{
    let sign = if negative { num_bigint::Sign::Minus } else { num_bigint::Sign::Plus };
    num_bigint::BigInt::from_bytes_be(sign, magnitude).to_string()
}

/// Multiplies with `num_bigint`'s `*`. Taken on trust: the bytes returned
/// write the product of the magnitudes, and the flag is set where the
/// product is not zero and the signs differ.
#[verifier::external_body]
fn multiply_bytes(a_negative: bool, a: &[u8], b_negative: bool, b: &[u8]) -> (r: (bool, Vec<u8>))
    ensures
        be_nat(r.1@) == be_nat(a@) * be_nat(b@),
        r.0 == (a_negative != b_negative && be_nat(a@) * be_nat(b@) != 0),
{
    let a_sign = if a_negative { num_bigint::Sign::Minus } else { num_bigint::Sign::Plus };
    let b_sign = if b_negative { num_bigint::Sign::Minus } else { num_bigint::Sign::Plus };
    let x = num_bigint::BigInt::from_bytes_be(a_sign, a);
    let y = num_bigint::BigInt::from_bytes_be(b_sign, b);
    let (sign, bytes) = (x * y).to_bytes_be();
    (sign == num_bigint::Sign::Minus, bytes)
}

/// Divides with `num_bigint`'s `/`, which rounds toward zero and panics on a
/// zero divisor. Taken on trust: the bytes returned write the quotient of
/// the magnitudes, and the flag is set where the quotient is not zero and
/// the signs differ.
#[verifier::external_body]
fn divide_bytes(a_negative: bool, a: &[u8], b_negative: bool, b: &[u8]) -> (r: (bool, Vec<u8>))
    requires
        be_nat(b@) != 0,
    ensures
        be_nat(r.1@) == be_nat(a@) / be_nat(b@),
        r.0 == (a_negative != b_negative && be_nat(a@) / be_nat(b@) != 0),
{
    let a_sign = if a_negative { num_bigint::Sign::Minus } else { num_bigint::Sign::Plus };
    let b_sign = if b_negative { num_bigint::Sign::Minus } else { num_bigint::Sign::Plus };
    let x = num_bigint::BigInt::from_bytes_be(a_sign, a);
    let y = num_bigint::BigInt::from_bytes_be(b_sign, b);
    let (sign, bytes) = (x / y).to_bytes_be();
    (sign == num_bigint::Sign::Minus, bytes)
}

/// Takes the remainder with `num_bigint`'s `%`, which has the sign of the
/// dividend and panics on a zero divisor. Taken on trust: the bytes returned
/// write the remainder of the magnitudes, and the flag is set where the
/// remainder is not zero and the dividend is below zero.
#[verifier::external_body]
fn remainder_bytes(a_negative: bool, a: &[u8], b_negative: bool, b: &[u8]) -> (r: (bool, Vec<u8>))
    requires
        be_nat(b@) != 0,
    ensures
        be_nat(r.1@) == be_nat(a@) % be_nat(b@),
        r.0 == (a_negative && be_nat(a@) % be_nat(b@) != 0),
{
    let a_sign = if a_negative { num_bigint::Sign::Minus } else { num_bigint::Sign::Plus };
    let b_sign = if b_negative { num_bigint::Sign::Minus } else { num_bigint::Sign::Plus };
    let x = num_bigint::BigInt::from_bytes_be(a_sign, a);
    let y = num_bigint::BigInt::from_bytes_be(b_sign, b);
    let (sign, bytes) = (x % y).to_bytes_be();
    (sign == num_bigint::Sign::Minus, bytes)
}

/// Division that rounds toward zero.
pub open spec fn truncated_div(a: int, b: int) -> int {
    signed((a < 0) != (b < 0), abs(a) / abs(b))
}

/// The remainder of division that rounds toward zero; it has the sign of `a`.
pub open spec fn truncated_rem(a: int, b: int) -> int {
    signed(a < 0, abs(a) % abs(b))
}

impl BigInt {
    #[verifier::type_invariant]
    spec fn canonical(self) -> bool {
        &&& is_minimal(self.magnitude@)
        &&& self.magnitude@.len() == 0 ==> !self.negative
    }

    /// The integer with the given sign and magnitude, the magnitude written
    /// most significant byte first. Zero bytes in front are dropped.
    pub fn from_sign_magnitude(negative: bool, bytes: Vec<u8>) -> (r: Self)
        ensures
            r@ == signed(negative, be_nat(bytes@)),
    {
        let mut bytes = bytes;
        let ghost given = bytes@;
        let mut k: usize = 0;
        assert(given.skip(0) =~= given);
        while k < bytes.len() && bytes[k] == 0
            invariant
                k <= bytes.len(),
                bytes@ == given,
                strip_zeros(given) == strip_zeros(given.skip(k as int)),
            decreases bytes.len() - k,
        {
            assert(given.skip(k as int).skip(1) =~= given.skip(k as int + 1));
            k = k + 1;
        }
        let magnitude = bytes.split_off(k);
        proof {
            assert(magnitude@ =~= given.skip(k as int));
            assert(strip_zeros(magnitude@) == magnitude@);
            lemma_strip_zeros(given);
            if magnitude@.len() > 0 {
                lemma_minimal_positive(magnitude@);
            }
        }
        let negative = negative && magnitude.len() > 0;
        BigInt { negative, magnitude }
    }

    /// The integer `v`.
    pub fn from_u64(v: u64) -> (r: Self)
        ensures
            r@ == v,
    {
        let mut bytes: Vec<u8> = Vec::new();
        write_be(&mut bytes, v, 8);
        proof {
            assert(pow(256, 8) == 0x1_0000_0000_0000_0000) by {
                reveal_with_fuel(pow, 9);
            }
            lemma_be_bytes_value(v as nat, 8);
            assert(bytes@ =~= be_bytes(v as nat, 8));
        }
        BigInt::from_sign_magnitude(false, bytes)
    }

    /// The integer `v`.
    pub fn from_i64(v: i64) -> (r: Self)
        ensures
            r@ == v,
    {
        if v >= 0 {
            BigInt::from_u64(v as u64)
        } else {
            let magnitude: u64 = (-(v + 1)) as u64 + 1;
            let mut bytes: Vec<u8> = Vec::new();
            write_be(&mut bytes, magnitude, 8);
            proof {
                assert(pow(256, 8) == 0x1_0000_0000_0000_0000) by {
                    reveal_with_fuel(pow, 9);
                }
                lemma_be_bytes_value(magnitude as nat, 8);
                assert(bytes@ =~= be_bytes(magnitude as nat, 8));
            }
            BigInt::from_sign_magnitude(true, bytes)
        }
    }

    /// Zero.
    pub fn zero() -> (r: Self)
        ensures
            r@ == 0,
    {
        BigInt { negative: false, magnitude: Vec::new() }
    }

    /// The integer that `s` writes in base ten, or `None` where `s` is no
    /// decimal text.
    pub fn parse(s: &str) -> (r: Option<Self>)
        ensures
            r is Some <==> is_decimal(s@),
            r matches Some(v) ==> v@ == decimal_value(s@),
    {
        match decimal_to_bytes(s) {
            Some((negative, bytes)) => Some(BigInt::from_sign_magnitude(negative, bytes)),
            None => None,
        }
    }

    /// The integer that `s` writes in base ten; zero where `s` is no decimal
    /// text.
    pub fn from_str(s: &str) -> (r: Self)
        ensures
            r@ == (if is_decimal(s@) { decimal_value(s@) } else { 0 }),
    {
        match BigInt::parse(s) {
            Some(v) => v,
            None => BigInt::zero(),
        }
    }

    /// The text of the integer in base ten. Reading it gives the integer
    /// back.
    pub fn to_string(&self) -> (text: String)
        ensures
            text@ == decimal_text(self@),
            is_decimal(text@),
            decimal_value(text@) == self@,
    {
        proof {
            lemma_decimal_text_value(self@);
        }
        bytes_to_decimal(self.negative, self.magnitude.as_slice())
    }

    /// Whether the integer is below zero.
    pub fn is_negative(&self) -> (r: bool)
        ensures
            r == (self@ < 0),
    {
        proof {
            use_type_invariant(self);
            if self.magnitude@.len() > 0 {
                lemma_minimal_positive(self.magnitude@);
            }
        }
        self.negative
    }

    /// Whether the integer is zero.
    pub fn is_zero(&self) -> (r: bool)
        ensures
            r == (self@ == 0),
    {
        proof {
            use_type_invariant(self);
            if self.magnitude@.len() > 0 {
                lemma_minimal_positive(self.magnitude@);
            }
        }
        self.magnitude.len() == 0
    }

    /// The shortest bytes that write the magnitude, most significant first;
    /// none for zero.
    pub fn magnitude(&self) -> (bytes: &Vec<u8>)
        ensures
            bytes@ == minimal_be(abs(self@)),
            be_nat(bytes@) == abs(self@),
            is_minimal(bytes@),
    {
        proof {
            use_type_invariant(self);
            lemma_minimal_unique(self.magnitude@);
            lemma_minimal_be(abs(self@));
        }
        &self.magnitude
    }

    /// The magnitude of the integer.
    pub fn abs(&self) -> (r: Self)
        ensures
            r@ == abs(self@),
    {
        proof {
            use_type_invariant(self);
        }
        BigInt { negative: false, magnitude: self.magnitude.clone() }
    }

    /// The product of two integers.
    pub fn product(&self, other: &Self) -> (r: Self)
        ensures
            r@ == self@ * other@,
    {
        let (negative, bytes) = multiply_bytes(
            self.negative,
            self.magnitude.as_slice(),
            other.negative,
            other.magnitude.as_slice(),
        );
        proof {
            let a = be_nat(self.magnitude@) as int;
            let b = be_nat(other.magnitude@) as int;
            assert((-a) * b == -(a * b)) by (nonlinear_arith);
            assert(a * (-b) == -(a * b)) by (nonlinear_arith);
            assert((-a) * (-b) == a * b) by (nonlinear_arith);
        }
        BigInt::from_sign_magnitude(negative, bytes)
    }

    /// The quotient of two integers, rounded toward zero.
    pub fn quotient(&self, divisor: &Self) -> (r: Self)
        requires
            divisor@ != 0,
        ensures
            r@ == truncated_div(self@, divisor@),
    {
        let (negative, bytes) = divide_bytes(
            self.negative,
            self.magnitude.as_slice(),
            divisor.negative,
            divisor.magnitude.as_slice(),
        );
        proof {
            use_type_invariant(self);
            use_type_invariant(divisor);
            if self.magnitude@.len() > 0 {
                lemma_minimal_positive(self.magnitude@);
            }
        }
        BigInt::from_sign_magnitude(negative, bytes)
    }

    /// The remainder of division that rounds toward zero.
    pub fn remainder(&self, divisor: &Self) -> (r: Self)
        requires
            divisor@ != 0,
        ensures
            r@ == truncated_rem(self@, divisor@),
    {
        let (negative, bytes) = remainder_bytes(
            self.negative,
            self.magnitude.as_slice(),
            divisor.negative,
            divisor.magnitude.as_slice(),
        );
        proof {
            use_type_invariant(self);
            use_type_invariant(divisor);
            if self.magnitude@.len() > 0 {
                lemma_minimal_positive(self.magnitude@);
            }
        }
        BigInt::from_sign_magnitude(negative, bytes)
    }
}

impl Default for BigInt {
    fn default() -> (r: Self)
        ensures
            r@ == 0,
    {
        BigInt::zero()
    }
}

impl Clone for BigInt {
    fn clone(&self) -> (r: Self)
        ensures
            r@ == self@,
    {
        proof {
            use_type_invariant(self);
        }
        BigInt { negative: self.negative, magnitude: self.magnitude.clone() }
    }
}

impl PartialEq for BigInt {
    fn eq(&self, other: &Self) -> (r: bool) {
        proof {
            use_type_invariant(self);
            use_type_invariant(other);
            lemma_minimal_unique(self.magnitude@);
            lemma_minimal_unique(other.magnitude@);
            if self.magnitude@.len() > 0 {
                lemma_minimal_positive(self.magnitude@);
            }
            if other.magnitude@.len() > 0 {
                lemma_minimal_positive(other.magnitude@);
            }
        }
        let same_bytes = self.magnitude == other.magnitude;
        assert(same_bytes == (self.magnitude@ =~= other.magnitude@));
        self.negative == other.negative && same_bytes
    }
}

impl PartialEqSpecImpl for BigInt {
    open spec fn obeys_eq_spec() -> bool {
        true
    }

    open spec fn eq_spec(&self, other: &Self) -> bool {
        self@ == other@
    }
}

impl Eq for BigInt {

}

} // verus!
