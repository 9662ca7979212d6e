//! General properties of the arithmetic, stated over the model of
//! [`crate::model`] and proved once for all values.

use vstd::prelude::*;

use crate::model::{
    half_scale, prec_almost_eq, prec_div, prec_mul, prec_new, prec_to_imprecise,
    prec_unsigned_sub, scale,
};
use crate::wide::u256_limit;

verus! {

/// Round trip: converting a freshly built number back to a native integer
/// yields the original integer, for every `u128`.
pub proof fn lemma_new_to_imprecise_round_trip(x: u128)
    ensures
        prec_to_imprecise(prec_new(x)) == Some(x as int),
{
    assert((x as int) * 10_000_000_000 + 5_000_000_000
        < 0x1_0000_0000_0000_0000_0000_0000_0000_0000_0000_0000_0000_0000_0000_0000_0000_0000int)
        by (nonlinear_arith)
        requires
            x <= u128::MAX,
    ;
    vstd::arithmetic::div_mod::lemma_fundamental_div_mod_converse(
        prec_new(x) + half_scale(),
        scale(),
        x as int,
        half_scale(),
    );
}

/// The tolerance test is symmetric in its two operands.
pub proof fn lemma_almost_eq_symmetric(a: int, b: int, p: int)
    ensures
        prec_almost_eq(a, b, p) == prec_almost_eq(b, a, p),
{
}

/// The two orders of a non-failing subtraction give the same magnitude; the
/// sign flags differ exactly when the operands differ, and the magnitude is
/// zero when they are equal.
pub proof fn lemma_unsigned_sub_antisymmetric(a: int, b: int)
    ensures
        prec_unsigned_sub(a, b).0 == prec_unsigned_sub(b, a).0,
        a != b ==> prec_unsigned_sub(a, b).1 != prec_unsigned_sub(b, a).1,
        a == b ==> prec_unsigned_sub(a, b).0 == 0,
{
}

/// Division by a zero divisor fails, whatever the dividend.
pub proof fn lemma_div_by_zero_fails(a: int)
    ensures
        prec_div(a, 0) is None,
{
}

/// When the double-scale product overflows, multiplication still returns the
/// defined reduced-precision result: the larger operand truncated to integer
/// granularity, times the other operand, whenever that product fits.
pub proof fn lemma_mul_overflow_fallback(a: int, b: int)
    requires
        a >= b,
        a * b >= u256_limit(),
        (a / scale()) * b < u256_limit(),
    ensures
        prec_mul(a, b) == Some((a / scale()) * b),
{
}

} // verus!

