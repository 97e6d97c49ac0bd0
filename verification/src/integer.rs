//! Arbitrary-precision integers.
//!
//! Costs and integer literals are `num_bigint::BigInt` values. Verus cannot look
//! inside one, so this module names the mathematical integer that a `BigInt`
//! stands for and states, for each operation the library uses, what it does to
//! that integer. These statements are taken on trust from the `num-bigint`
//! crate; everything else in the library is proved from them.

use num_bigint::BigInt;
use vstd::prelude::*;

verus! {

/// Makes `num_bigint::BigInt` known as a type whose inside is not looked at.
#[verifier::external_type_specification]
#[verifier::external_body]
pub struct ExBigInt(num_bigint::BigInt);

/// The mathematical integer that a `BigInt` holds.
pub uninterp spec fn int_value(n: BigInt) -> int;

/// `<BigInt as From<u64>>::from`: the result holds exactly the given machine
/// integer.
#[verifier::external_body]
pub(crate) fn from_u64(n: u64) -> (r: BigInt)
    ensures
        int_value(r) == n,
{
    BigInt::from(n)
}

/// `<&BigInt as Add<&BigInt>>::add`: the result holds the sum of the two
/// integers, whatever their size and sign.
#[verifier::external_body]
pub(crate) fn sum(a: &BigInt, b: &BigInt) -> (r: BigInt)
    ensures
        int_value(r) == int_value(*a) + int_value(*b),
{
    a + b
}

/// `<&BigInt as Mul<&BigInt>>::mul`: the result holds the product of the two
/// integers, whatever their size and sign.
#[verifier::external_body]
pub(crate) fn product(a: &BigInt, b: &BigInt) -> (r: BigInt)
    ensures
        int_value(r) == int_value(*a) * int_value(*b),
{
    a * b
}

/// `<&BigInt as Neg>::neg`: the result holds the negated integer.
#[verifier::external_body]
pub(crate) fn negated(a: &BigInt) -> (r: BigInt)
    ensures
        int_value(r) == -int_value(*a),
{
    -a
}

/// `<BigInt as Clone>::clone`: the copy holds the same integer.
#[verifier::external_body]
pub(crate) fn duplicate(a: &BigInt) -> (r: BigInt)
    ensures
        int_value(r) == int_value(*a),
{
    a.clone()
}

/// `<BigInt as PartialEq>::eq`: true exactly when both hold the same integer.
#[verifier::external_body]
pub(crate) fn equal(a: &BigInt, b: &BigInt) -> (r: bool)
    ensures
        r == (int_value(*a) == int_value(*b)),
{
    a == b
}

/// `<BigInt as PartialOrd>::lt`: true exactly when the first integer is below
/// the second.
#[verifier::external_body]
pub(crate) fn below(a: &BigInt, b: &BigInt) -> (r: bool)
    ensures
        r == (int_value(*a) < int_value(*b)),
{
    a < b
}

} // verus!
