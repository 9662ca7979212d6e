//! The mathematical model of the fixed-point arithmetic.
//!
//! Every executable operation on [`crate::precise::PreciseNumber`] has a spec
//! function here that gives its result as a function of the operands' raw
//! values (the stored magnitudes, i.e. the true values multiplied by
//! [`scale`]). `None` stands for a failed checked operation. The approximation
//! routines are modelled by recursive spec functions over their bounded
//! iteration count.

use vstd::arithmetic::power::pow;
use vstd::prelude::*;

use crate::wide::u256_limit;

verus! {

/// The result of raising a raw 256-bit value to a small power by repeated
/// checked multiplication: the power itself when every intermediate product
/// fits in 256 bits, the base unchanged for exponents zero and one (the loop
/// runs no step there), `None` otherwise.
pub open spec fn u256_u8_power(a: int, b: u8) -> Option<int> {
    if a <= 1 || b <= 1 {
        Some(pow(a, if b == 0 { 1nat } else { b as nat }))
    } else if pow(a, b as nat) < u256_limit() {
        Some(pow(a, b as nat))
    } else {
        None
    }
}

/// The result of multiplying a raw 256-bit value by a small factor through
/// repeated checked addition: the product when it fits in 256 bits, the base
/// unchanged for factors zero and one, `None` otherwise.
pub open spec fn u256_u8_mul(a: int, b: u8) -> Option<int> {
    if b <= 1 {
        Some(a)
    } else if a * b < u256_limit() {
        Some(a * b)
    } else {
        None
    }
}

/// The raw representation of the value one: the scale factor 10^10.
pub open spec fn scale() -> int {
    10_000_000_000
}

/// Half a unit of scale, added before a truncating division to turn
/// round-toward-zero into round-to-nearest.
pub open spec fn half_scale() -> int {
    5_000_000_000
}

/// Raw threshold under which an approximation term or step ends the
/// iteration early.
pub open spec fn term_precision() -> int {
    100
}

/// Smallest raw base accepted by the fractional-exponent routines.
pub open spec fn min_base() -> int {
    1
}

/// Largest raw base accepted by the fractional-exponent routines: the true
/// value two, the edge of the convergence region of the series around one.
pub open spec fn max_base() -> int {
    20_000_000_000
}

/// The hard bound on the iteration count of both approximation loops.
pub open spec fn max_iterations() -> nat {
    100
}

/// Checked addition of raw values: fails on overflow past 256 bits.
pub open spec fn prec_add(a: int, b: int) -> Option<int> {
    if a + b < u256_limit() {
        Some(a + b)
    } else {
        None
    }
}

/// Checked subtraction of raw values: fails when the subtrahend is larger.
pub open spec fn prec_sub(a: int, b: int) -> Option<int> {
    if b <= a {
        Some(a - b)
    } else {
        None
    }
}

/// Non-failing subtraction: the magnitude of the difference, and whether the
/// true difference is negative.
pub open spec fn prec_unsigned_sub(a: int, b: int) -> (int, bool) {
    if b <= a {
        (a - b, false)
    } else {
        (b - a, true)
    }
}

/// Tolerance test: the magnitude of the difference is strictly below `p`.
pub open spec fn prec_almost_eq(a: int, b: int, p: int) -> bool {
    prec_unsigned_sub(a, b).0 < p
}

/// The raw value built from a native integer: the integer at scale.
pub open spec fn prec_new(x: u128) -> int {
    x * scale()
}

/// Conversion back to a native integer, rounded to nearest: fails if the
/// rounding correction overflows or the quotient does not fit in a `u128`.
pub open spec fn prec_to_imprecise(v: int) -> Option<int> {
    if v + half_scale() >= u256_limit() {
        None
    } else if (v + half_scale()) / scale() > u128::MAX {
        None
    } else {
        Some((v + half_scale()) / scale())
    }
}

/// The fractional part truncated away, the result still at scale.
pub open spec fn prec_floor(v: int) -> Option<int> {
    if (v / scale()) * scale() < u256_limit() {
        Some((v / scale()) * scale())
    } else {
        None
    }
}

/// Checked fixed-point multiplication. The primary path rounds the double-
/// scale product to nearest before dividing the scale back out. When that
/// product overflows, the fallback truncates the larger operand to integer
/// granularity first, trading precision for headroom.
pub open spec fn prec_mul(a: int, b: int) -> Option<int> {
    if a * b < u256_limit() {
        if a * b + half_scale() < u256_limit() {
            Some((a * b + half_scale()) / scale())
        } else {
            None
        }
    } else {
        if a >= b {
            if (a / scale()) * b < u256_limit() {
                Some((a / scale()) * b)
            } else {
                None
            }
        } else {
            if (b / scale()) * a < u256_limit() {
                Some((b / scale()) * a)
            } else {
                None
            }
        }
    }
}

/// Checked fixed-point division. Fails on a zero divisor. The primary path
/// scales the dividend up and rounds to nearest before dividing; when the
/// scaling overflows, the fallback divides first and scales the quotient up,
/// trading precision for headroom.
pub open spec fn prec_div(a: int, b: int) -> Option<int> {
    if b == 0 {
        None
    } else if a * scale() < u256_limit() {
        if a * scale() + half_scale() < u256_limit() {
            Some((a * scale() + half_scale()) / b)
        } else {
            None
        }
    } else {
        if a + half_scale() < u256_limit() {
            if ((a + half_scale()) / b) * scale() < u256_limit() {
                Some(((a + half_scale()) / b) * scale())
            } else {
                None
            }
        } else {
            None
        }
    }
}

/// One round of square-and-multiply: the running base is squared each step
/// and folded into the result on odd exponents, until the exponent is spent.
pub open spec fn prec_pow_loop(result: int, squared: int, e: nat) -> Option<int>
    decreases e,
{
    if e == 0 {
        Some(result)
    } else {
        match prec_mul(squared, squared) {
            None => None,
            Some(sq) => {
                if e % 2 == 1 {
                    match prec_mul(result, sq) {
                        None => None,
                        Some(r) => prec_pow_loop(r, sq, e / 2),
                    }
                } else {
                    prec_pow_loop(result, sq, e / 2)
                }
            },
        }
    }
}

/// Exact integer exponentiation by squaring. The result starts at one for an
/// even exponent and at the base for an odd one, since the exponent is halved
/// before the loop.
pub open spec fn prec_pow(base: int, e: nat) -> Option<int> {
    prec_pow_loop(if e % 2 == 0 { scale() } else { base }, base, e / 2)
}

/// One step of the Taylor expansion of `x^n` around one, at 1-based index
/// `k`: the term is multiplied by `(n + 1 - k)` and by `(x - 1)` and divided
/// by `k`; a term below [`term_precision`] ends the series, and otherwise it
/// is added to or subtracted from the running sum per the accumulated sign.
pub open spec fn prec_pow_approx_loop(
    x_minus_a: int,
    x_minus_a_negative: bool,
    exponent_plus_one: int,
    guess: int,
    term: int,
    negative: bool,
    k: nat,
    max: nat,
) -> Option<int>
    decreases max - k,
{
    if k >= max {
        Some(guess)
    } else {
        let (current, current_negative) = prec_unsigned_sub(exponent_plus_one, k * scale());
        match prec_mul(term, current) {
            None => None,
            Some(t1) => match prec_mul(t1, x_minus_a) {
                None => None,
                Some(t2) => match prec_div(t2, k * scale()) {
                    None => None,
                    Some(t3) => {
                        if t3 < term_precision() {
                            Some(guess)
                        } else {
                            let flipped = (negative != x_minus_a_negative) != current_negative;
                            if flipped {
                                match prec_sub(guess, t3) {
                                    None => None,
                                    Some(g) => prec_pow_approx_loop(
                                        x_minus_a,
                                        x_minus_a_negative,
                                        exponent_plus_one,
                                        g,
                                        t3,
                                        flipped,
                                        k + 1,
                                        max,
                                    ),
                                }
                            } else {
                                match prec_add(guess, t3) {
                                    None => None,
                                    Some(g) => prec_pow_approx_loop(
                                        x_minus_a,
                                        x_minus_a_negative,
                                        exponent_plus_one,
                                        g,
                                        t3,
                                        flipped,
                                        k + 1,
                                        max,
                                    ),
                                }
                            }
                        }
                    },
                },
            },
        }
    }
}

/// The Taylor-series approximation of `x^e` for a fractional raw exponent
/// `e`: one exactly for a zero exponent, otherwise the series around one run
/// for at most `max - 1` terms.
pub open spec fn prec_pow_approx(x: int, e: int, max: nat) -> Option<int> {
    if e == 0 {
        Some(scale())
    } else {
        match prec_add(e, scale()) {
            None => None,
            Some(e1) => {
                let (x_minus_a, x_minus_a_negative) = prec_unsigned_sub(x, scale());
                prec_pow_approx_loop(x_minus_a, x_minus_a_negative, e1, scale(), scale(), false, 1, max)
            },
        }
    }
}

/// Exponentiation by an arbitrary non-negative rational exponent: the exact
/// power for the integer part of the exponent, the Taylor approximation for
/// its fractional remainder, combined by fixed-point multiplication.
pub open spec fn prec_pow_fraction(x: int, e: int) -> Option<int> {
    match prec_floor(e) {
        None => None,
        Some(whole_scaled) => match prec_to_imprecise(whole_scaled) {
            None => None,
            Some(w) => match prec_pow(x, w as nat) {
                None => None,
                Some(whole_pow) => {
                    let (remainder, _) = prec_unsigned_sub(e, whole_scaled);
                    if remainder == 0 {
                        Some(whole_pow)
                    } else {
                        match prec_pow_approx(x, remainder, max_iterations()) {
                            None => None,
                            Some(remainder_pow) => prec_mul(whole_pow, remainder_pow),
                        }
                    }
                },
            },
        },
    }
}

/// One Newton step for the nth root of `a`: the next guess is
/// `((root - 1) * guess + a / guess^(root - 1)) / root`, with the division
/// term taken as zero when the power overflows; two successive guesses within
/// [`term_precision`] of each other end the iteration.
pub open spec fn prec_newton_loop(
    a: int,
    root: int,
    root_minus_one: int,
    root_minus_one_whole: nat,
    guess: int,
    i: nat,
) -> Option<int>
    decreases max_iterations() - i,
{
    if i >= max_iterations() {
        Some(guess)
    } else {
        match prec_mul(root_minus_one, guess) {
            None => None,
            Some(first_term) => {
                let second_term = match prec_pow(guess, root_minus_one_whole) {
                    Some(num) => prec_div(a, num),
                    None => Some(0),
                };
                match second_term {
                    None => None,
                    Some(st) => match prec_add(first_term, st) {
                        None => None,
                        Some(sum) => match prec_div(sum, root) {
                            None => None,
                            Some(next) => {
                                if prec_almost_eq(guess, next, term_precision()) {
                                    Some(next)
                                } else {
                                    prec_newton_loop(
                                        a,
                                        root,
                                        root_minus_one,
                                        root_minus_one_whole,
                                        next,
                                        i + 1,
                                    )
                                }
                            },
                        },
                    },
                }
            },
        }
    }
}

/// Newton's-method approximation of the `root`th root of `a` from an initial
/// guess: fails on a zero root, on a root below one, or when a checked step
/// fails.
pub open spec fn prec_newton(a: int, root: int, guess: int) -> Option<int> {
    if root == 0 {
        None
    } else {
        match prec_sub(root, scale()) {
            None => None,
            Some(root_minus_one) => match prec_to_imprecise(root_minus_one) {
                None => None,
                Some(w) => prec_newton_loop(a, root, root_minus_one, w as nat, guess, 0),
            },
        }
    }
}

} // verus!
