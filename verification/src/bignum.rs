//! Whole numbers without an upper limit, as the `num_bigint` crate holds
//! and computes them.

use vstd::prelude::*;
use vstd::arithmetic::power::pow;
use crate::text::{decimal_value, is_digits};

verus! {

/// `num_bigint::BigUint`: a whole number of any size, not below zero.
#[verifier::external_type_specification]
#[verifier::external_body]
pub struct ExBigUint(num_bigint::BigUint);

/// The number that a big number holds.
pub uninterp spec fn big_value(n: num_bigint::BigUint) -> nat;

/// How many digits a number has in decimal.
pub open spec fn decimal_digits(n: nat) -> nat
    decreases n,
{
    if n < 10 {
        1
    } else {
        1 + decimal_digits(n / 10)
    }
}

/// `num_bigint::BigUint::parse_bytes` in base ten, on a text of one or more
/// of the digits `0` to `9`: the number that the text writes.
#[verifier::external_body]
pub(crate) fn big_parse(digits: &str) -> (n: num_bigint::BigUint)
    requires
        is_digits(digits@),
    ensures
        big_value(n) == decimal_value(digits@),
{
    num_bigint::BigUint::parse_bytes(digits.as_bytes(), 10).unwrap()
}

/// `num_bigint::BigUint::from` a 64-bit number: the same number.
#[verifier::external_body]
pub(crate) fn big_from(v: u64) -> (n: num_bigint::BigUint)
    ensures
        big_value(n) == v,
{
    num_bigint::BigUint::from(v)
}

/// `num_traits::ToPrimitive::to_u64` of a big number: the number where it
/// fits in 64 bits.
#[verifier::external_body]
pub(crate) fn big_to_u64(n: &num_bigint::BigUint) -> (v: Option<u64>)
    ensures
        v is Some <==> big_value(*n) <= u64::MAX,
        v matches Some(x) ==> x == big_value(*n),
{
    num_traits::ToPrimitive::to_u64(n)
}

/// The sum of two big numbers, by `+` of `num_bigint::BigUint`.
#[verifier::external_body]
pub(crate) fn big_add(a: &num_bigint::BigUint, b: &num_bigint::BigUint) -> (n:
    num_bigint::BigUint)
    ensures
        big_value(n) == big_value(*a) + big_value(*b),
{
    a + b
}

/// The product of two big numbers, by `*` of `num_bigint::BigUint`.
#[verifier::external_body]
pub(crate) fn big_mul(a: &num_bigint::BigUint, b: &num_bigint::BigUint) -> (n:
    num_bigint::BigUint)
    ensures
        big_value(n) == big_value(*a) * big_value(*b),
{
    a * b
}

/// The quotient of two big numbers, rounded down, by `/` of
/// `num_bigint::BigUint`, which panics on a divisor of zero.
#[verifier::external_body]
pub(crate) fn big_div(a: &num_bigint::BigUint, b: &num_bigint::BigUint) -> (n:
    num_bigint::BigUint)
    requires
        big_value(*b) > 0,
    ensures
        big_value(n) == big_value(*a) / big_value(*b),
{
    a / b
}

/// `num_bigint::BigUint::pow` of ten: ten to the power of `exponent`.
#[verifier::external_body]
pub(crate) fn big_pow10(exponent: u32) -> (n: num_bigint::BigUint)
    ensures
        big_value(n) == pow(10, exponent as nat),
{
    num_bigint::BigUint::from(10u32).pow(exponent)
}

/// The length of what `to_string` gives for a big number: the number of
/// its decimal digits.
#[verifier::external_body]
pub(crate) fn big_digits(n: &num_bigint::BigUint) -> (count: usize)
    ensures
        count == decimal_digits(big_value(*n)),
{
    n.to_string().len()
}

} // verus!
