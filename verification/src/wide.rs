//! Trusted boundary to the 256-bit unsigned integer `U256` of the
//! `primitive-types` crate.
//!
//! A `U256` is opaque to the verifier; its mathematical value is named by the
//! uninterpreted function [`u256_as_nat`]. Each wrapper below makes exactly
//! one call into the outside crate and states over `u256_as_nat` what that
//! call returns, as the crate's source shows.

use vstd::prelude::*;

use primitive_types::U256;

verus! {

#[verifier::external_type_specification]
#[verifier::external_body]
pub struct ExU256(U256);

/// The mathematical value held by a `U256`.
pub uninterp spec fn u256_as_nat(v: U256) -> nat;

/// One past the largest value a 256-bit unsigned integer can hold: 2^256.
pub open spec fn u256_limit() -> int {
    0x1_0000_0000_0000_0000_0000_0000_0000_0000_0000_0000_0000_0000_0000_0000_0000_0000int
}

/// Relies on `U256: From<u128>`: the two low 64-bit words are filled from the
/// argument and the high words are zero, so the value is carried over exactly.
#[verifier::external_body]
pub fn u256_from_u128(x: u128) -> (r: U256)
    ensures
        u256_as_nat(r) == x,
{
    U256::from(x)
}

/// Relies on `u128: TryFrom<U256>`: `Ok` with the two low words exactly when
/// the high words are zero, that is when the value fits in a `u128`.
#[verifier::external_body]
pub fn u256_to_u128(v: &U256) -> (r: Option<u128>)
    ensures
        u256_as_nat(*v) <= u128::MAX ==> r == Some(u256_as_nat(*v) as u128),
        u256_as_nat(*v) > u128::MAX ==> r is None,
{
    u128::try_from(*v).ok()
}

/// Relies on `U256: Copy`: the duplicate holds the same value.
#[verifier::external_body]
pub fn u256_dup(v: &U256) -> (r: U256)
    ensures
        u256_as_nat(r) == u256_as_nat(*v),
{
    *v
}

/// Relies on `U256::checked_add`: `None` exactly when the true sum does not
/// fit in 256 bits, the sum otherwise.
#[verifier::external_body]
pub fn u256_checked_add(a: &U256, b: &U256) -> (r: Option<U256>)
    ensures
        match r {
            Some(v) => u256_as_nat(*a) + u256_as_nat(*b) < u256_limit() && u256_as_nat(v)
                == u256_as_nat(*a) + u256_as_nat(*b),
            None => u256_as_nat(*a) + u256_as_nat(*b) >= u256_limit(),
        },
{
    a.checked_add(*b)
}

/// Relies on `U256::checked_sub`: `None` exactly when the subtrahend is
/// larger than the minuend, the difference otherwise.
#[verifier::external_body]
pub fn u256_checked_sub(a: &U256, b: &U256) -> (r: Option<U256>)
    ensures
        match r {
            Some(v) => u256_as_nat(*b) <= u256_as_nat(*a) && u256_as_nat(v) == u256_as_nat(*a)
                - u256_as_nat(*b),
            None => u256_as_nat(*b) > u256_as_nat(*a),
        },
{
    a.checked_sub(*b)
}

/// Relies on `U256::checked_mul`: `None` exactly when the true product does
/// not fit in 256 bits, the product otherwise.
#[verifier::external_body]
pub fn u256_checked_mul(a: &U256, b: &U256) -> (r: Option<U256>)
    ensures
        match r {
            Some(v) => u256_as_nat(*a) * u256_as_nat(*b) < u256_limit() && u256_as_nat(v)
                == u256_as_nat(*a) * u256_as_nat(*b),
            None => u256_as_nat(*a) * u256_as_nat(*b) >= u256_limit(),
        },
{
    a.checked_mul(*b)
}

/// Relies on `U256::checked_div`: `None` exactly when the divisor is zero,
/// the quotient rounded toward zero otherwise.
#[verifier::external_body]
pub fn u256_checked_div(a: &U256, b: &U256) -> (r: Option<U256>)
    ensures
        match r {
            Some(v) => u256_as_nat(*b) != 0 && u256_as_nat(v) == u256_as_nat(*a) / u256_as_nat(
                *b,
            ),
            None => u256_as_nat(*b) == 0,
        },
{
    a.checked_div(*b)
}

/// Relies on `Ord for U256`: the 64-bit words are compared from the most
/// significant down, which orders values numerically.
#[verifier::external_body]
pub fn u256_lt(a: &U256, b: &U256) -> (r: bool)
    ensures
        r == (u256_as_nat(*a) < u256_as_nat(*b)),
{
    a < b
}

/// Relies on `PartialEq for U256`: the words are equal exactly when the
/// values are.
#[verifier::external_body]
pub fn u256_eq(a: &U256, b: &U256) -> (r: bool)
    ensures
        r == (u256_as_nat(*a) == u256_as_nat(*b)),
{
    a == b
}

} // verus!
