//! Trusted bindings to the arbitrary-precision signed integers of the `num`
//! crate. Each wrapper makes a single call and states, over `int_of`, the
//! integer arithmetic that the crate documents for that operation.

use vstd::prelude::*;

verus! {

#[verifier::external_type_specification]
#[verifier::external_body]
pub struct ExBigInt(num::BigInt);

/// The mathematical integer that a `num::BigInt` holds.
pub uninterp spec fn int_of(x: num::BigInt) -> int;

/// Relies on `<num::BigInt as From<i64>>::from`: the big integer holding `v`.
#[verifier::external_body]
pub(crate) fn bi_from_i64(v: i64) -> (r: num::BigInt)
    ensures
        int_of(r) == v as int,
{
    num::BigInt::from(v)
}

/// Relies on `<num::BigInt as Clone>::clone`: the copy holds the same integer.
#[verifier::external_body]
pub(crate) fn bi_clone(a: &num::BigInt) -> (r: num::BigInt)
    ensures
        int_of(r) == int_of(*a),
{
    a.clone()
}

/// Relies on `<&num::BigInt as Add>::add`: exact integer addition.
#[verifier::external_body]
pub(crate) fn bi_add(a: &num::BigInt, b: &num::BigInt) -> (r: num::BigInt)
    ensures
        int_of(r) == int_of(*a) + int_of(*b),
{
    a + b
}

/// Relies on `<&num::BigInt as Sub>::sub`: exact integer subtraction.
#[verifier::external_body]
pub(crate) fn bi_sub(a: &num::BigInt, b: &num::BigInt) -> (r: num::BigInt)
    ensures
        int_of(r) == int_of(*a) - int_of(*b),
{
    a - b
}

/// Relies on `<&num::BigInt as Mul>::mul`: exact integer multiplication.
#[verifier::external_body]
pub(crate) fn bi_mul(a: &num::BigInt, b: &num::BigInt) -> (r: num::BigInt)
    ensures
        int_of(r) == int_of(*a) * int_of(*b),
{
    a * b
}

/// Relies on `<&num::BigInt as Neg>::neg`: exact integer negation.
#[verifier::external_body]
pub(crate) fn bi_neg(a: &num::BigInt) -> (r: num::BigInt)
    ensures
        int_of(r) == -int_of(*a),
{
    -a
}

/// Relies on `<num::BigInt as PartialEq>::eq`: equality of the held integers.
#[verifier::external_body]
pub(crate) fn bi_eq(a: &num::BigInt, b: &num::BigInt) -> (r: bool)
    ensures
        r <==> int_of(*a) == int_of(*b),
{
    a == b
}

/// Relies on `<num::BigInt as PartialOrd>::lt`: order of the held integers.
#[verifier::external_body]
pub(crate) fn bi_lt(a: &num::BigInt, b: &num::BigInt) -> (r: bool)
    ensures
        r <==> int_of(*a) < int_of(*b),
{
    a < b
}

} // verus!
