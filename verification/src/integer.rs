//! Arbitrary-precision integers.
//!
//! The numbers are `num_bigint::BigInt` values. Verus does not look inside
//! them: each operation used by the evaluator is declared here with what the
//! `num-bigint` crate documents of it, stated over the mathematical integer
//! that a value stands for.

use crate::text::signed_decimal;
use num_bigint::BigInt;
use vstd::arithmetic::power2::pow2;
use vstd::prelude::*;

verus! {

/// `num_bigint::BigInt`, whose inside the verifier does not see.
#[verifier::external_type_specification]
#[verifier::external_body]
pub struct ExBigInt(BigInt);

/// The mathematical integer that a `BigInt` holds.
pub uninterp spec fn int_value(n: BigInt) -> int;

/// The quotient of `a` by a non-zero `b`, rounded toward zero.
pub open spec fn truncated_quotient(a: int, b: int) -> int {
    let q = (if a < 0 { -a } else { a }) / (if b < 0 { -b } else { b });
    if (a < 0) == (b < 0) {
        q
    } else {
        -q
    }
}

/// `BigInt::from` on an `i64`: the result holds the same integer.
#[verifier::external_body]
pub(crate) fn from_i64(n: i64) -> (r: BigInt)
    ensures
        int_value(r) == n,
{
    BigInt::from(n)
}

/// `BigInt::clone`: the copy holds the same integer.
#[verifier::external_body]
pub(crate) fn duplicate(a: &BigInt) -> (r: BigInt)
    ensures
        int_value(r) == int_value(*a),
{
    a.clone()
}

/// `&BigInt + &BigInt`: the sum.
#[verifier::external_body]
pub(crate) fn sum(a: &BigInt, b: &BigInt) -> (r: BigInt)
    ensures
        int_value(r) == int_value(*a) + int_value(*b),
{
    a + b
}

/// `&BigInt - &BigInt`: the difference.
#[verifier::external_body]
pub(crate) fn difference(a: &BigInt, b: &BigInt) -> (r: BigInt)
    ensures
        int_value(r) == int_value(*a) - int_value(*b),
{
    a - b
}

/// `&BigInt * &BigInt`: the product.
#[verifier::external_body]
pub(crate) fn product(a: &BigInt, b: &BigInt) -> (r: BigInt)
    ensures
        int_value(r) == int_value(*a) * int_value(*b),
{
    a * b
}

/// `BigInt::checked_div`: nothing for a zero divisor, else the quotient
/// rounded toward zero.
#[verifier::external_body]
pub(crate) fn quotient(a: &BigInt, b: &BigInt) -> (r: Option<BigInt>)
    ensures
        int_value(*b) == 0 ==> r is None,
        int_value(*b) != 0 ==> r is Some && int_value(r->0) == truncated_quotient(
            int_value(*a),
            int_value(*b),
        ),
{
    a.checked_div(b)
}

/// `&BigInt << u32`: the value times two to the power of `n`.
#[verifier::external_body]
pub(crate) fn shift_left(a: &BigInt, n: u32) -> (r: BigInt)
    ensures
        int_value(r) == int_value(*a) * pow2(n as nat),
{
    a << n
}

/// `&BigInt >> u32`: the value divided by two to the power of `n`, rounded
/// toward negative infinity.
#[verifier::external_body]
pub(crate) fn shift_right(a: &BigInt, n: u32) -> (r: BigInt)
    ensures
        int_value(r) == int_value(*a) / (pow2(n as nat) as int),
{
    a >> n
}

/// `BigInt::cmp`, as a number: -1 where `a` is less than `b`, 0 where they
/// are equal, 1 where `a` is greater.
#[verifier::external_body]
pub(crate) fn order(a: &BigInt, b: &BigInt) -> (r: i8)
    ensures
        int_value(*a) < int_value(*b) ==> r == -1,
        int_value(*a) == int_value(*b) ==> r == 0,
        int_value(*a) > int_value(*b) ==> r == 1,
{
    match a.cmp(b) {
        std::cmp::Ordering::Less => -1,
        std::cmp::Ordering::Equal => 0,
        std::cmp::Ordering::Greater => 1,
    }
}

/// `u32::try_from(&BigInt)`: the value where it fits in 32 unsigned bits,
/// nothing otherwise.
#[verifier::external_body]
pub(crate) fn to_u32(a: &BigInt) -> (r: Option<u32>)
    ensures
        0 <= int_value(*a) <= u32::MAX ==> r == Some(int_value(*a) as u32),
        !(0 <= int_value(*a) <= u32::MAX) ==> r is None,
{
    u32::try_from(a).ok()
}

/// `BigInt::to_string`: the decimal numeral, with a minus sign for a negative
/// value.
#[verifier::external_body]
pub(crate) fn to_decimal(a: &BigInt) -> (s: String)
    ensures
        s@ == signed_decimal(int_value(*a)),
{
    a.to_string()
}

} // verus!
