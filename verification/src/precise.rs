//! The fixed-point number type and its checked arithmetic.
//!
//! [`PreciseNumber`] wraps one 256-bit unsigned magnitude that stands for the
//! true value multiplied by [`ONE`]. Every operation is checked and returns a
//! fresh value or `None`; nothing is mutated in place. The contract of each
//! operation states its result through the spec functions of [`crate::model`].

use vstd::arithmetic::power::pow;
use vstd::prelude::*;

use primitive_types::U256;

use crate::model::{
    max_base, min_base, prec_add, prec_almost_eq, prec_div, prec_floor, prec_mul, prec_new,
    prec_newton, prec_newton_loop, prec_pow, prec_pow_approx, prec_pow_approx_loop, prec_pow_loop,
    prec_pow_fraction, prec_sub, prec_to_imprecise, prec_unsigned_sub, scale, term_precision,
    u256_u8_mul, u256_u8_power,
};
use crate::wide::{
    u256_as_nat, u256_checked_add, u256_checked_div, u256_checked_mul, u256_checked_sub, u256_dup,
    u256_eq, u256_from_u128, u256_limit, u256_lt, u256_to_u128,
};

verus! {

/// The raw representation of the number one: the scale factor 10^10.
pub const ONE: u128 = 10_000_000_000;

/// The raw value of a `U256`, as a mathematical integer.
pub open spec fn u256_val(v: U256) -> int {
    u256_as_nat(v) as int
}

/// The raw values of an optional `U256` result.
pub open spec fn opt_u256_val(r: Option<U256>) -> Option<int> {
    match r {
        Some(v) => Some(u256_val(v)),
        None => None,
    }
}

/// The raw values of an optional `PreciseNumber` result.
pub open spec fn opt_val(r: Option<PreciseNumber>) -> Option<int> {
    match r {
        Some(p) => Some(p.val()),
        None => None,
    }
}

/// Raises `base` to the power `b` by `b - 1` checked multiplications;
/// `None` exactly when an intermediate product overflows 256 bits. For a
/// zero exponent the result is `base` itself, as the loop runs no step.
pub fn checked_u8_power(base: &U256, b: u8) -> (r: Option<U256>)
    ensures
        opt_u256_val(r) == u256_u8_power(u256_val(*base), b),
{
    let ghost a = u256_val(*base);
    let mut result = u256_dup(base);
    let mut i: u8 = 1;
    proof {
        vstd::arithmetic::power::lemma_pow1(a);
    }
    while i < b
        invariant
            1 <= i,
            b >= 1 ==> i <= b,
            b == 0 ==> i == 1,
            a == u256_val(*base),
            u256_as_nat(result) == pow(a, i as nat),
            i >= 2 ==> pow(a, i as nat) < u256_limit(),
        decreases b - i,
    {
        proof {
            vstd::arithmetic::power::lemma_pow1(a);
            vstd::arithmetic::power::lemma_pow_adds(a, i as nat, 1nat);
            assert(pow(a, (i + 1) as nat) == pow(a, i as nat) * a);
        }
        match u256_checked_mul(&result, base) {
            Some(next) => {
                result = next;
            },
            None => {
                proof {
                    lemma_u8_power_overflow(a, i, b);
                }
                return None;
            },
        }
        i = i + 1;
    }
    proof {
        if b >= 2 {
            assert(u256_u8_power(a, b) == Some(pow(a, b as nat)));
        }
    }
    Some(result)
}

/// An intermediate overflow at step `i` means the full power overflows too,
/// since powers of a base of at least two only grow with the exponent.
proof fn lemma_u8_power_overflow(a: int, i: u8, b: u8)
    requires
        a >= 0,
        1 <= i < b,
        pow(a, (i + 1) as nat) >= u256_limit(),
    ensures
        u256_u8_power(a, b) is None,
{
    if a == 0 {
        vstd::arithmetic::power::lemma0_pow((i + 1) as nat);
        assert(false);
    } else if a == 1 {
        vstd::arithmetic::power::lemma1_pow((i + 1) as nat);
        assert(false);
    } else {
        vstd::arithmetic::power::lemma_pow_increases(a as nat, (i + 1) as nat, b as nat);
        assert(pow(a, b as nat) >= pow(a, (i + 1) as nat));
    }
}

/// Multiplies `base` by `b` through `b - 1` checked additions; `None` exactly
/// when the true product overflows 256 bits. For a zero multiplier the result
/// is `base` itself, as the loop runs no step.
pub fn checked_u8_mul(base: &U256, b: u8) -> (r: Option<U256>)
    ensures
        opt_u256_val(r) == u256_u8_mul(u256_val(*base), b),
{
    let ghost a = u256_val(*base);
    let mut result = u256_dup(base);
    let mut i: u8 = 1;
    while i < b
        invariant
            1 <= i,
            b >= 1 ==> i <= b,
            b == 0 ==> i == 1,
            a == u256_val(*base),
            u256_as_nat(result) == a * i,
            i >= 2 ==> a * i < u256_limit(),
        decreases b - i,
    {
        proof {
            assert(a * i + a == a * (i + 1)) by (nonlinear_arith);
        }
        match u256_checked_add(&result, base) {
            Some(next) => {
                result = next;
            },
            None => {
                proof {
                    assert(a * (i + 1) <= a * b) by (nonlinear_arith)
                        requires
                            a >= 0,
                            i + 1 <= b,
                    ;
                }
                return None;
            },
        }
        i = i + 1;
    }
    proof {
        assert(a * 1 == a) by (nonlinear_arith);
    }
    Some(result)
}

/// Whether two raw values differ by at most one unit; the `Option` is always
/// `Some`, kept for compatibility with the checked operations around it.
pub fn almost_equal(a: &U256, b: &U256) -> (r: Option<bool>)
    ensures
        r == Some(prec_unsigned_sub(u256_val(*a), u256_val(*b)).0 <= 1),
{
    let one_raw = u256_from_u128(1);
    if u256_lt(b, a) {
        match u256_checked_sub(a, b) {
            Some(d) => Some(!u256_lt(&one_raw, &d)),
            None => {
                proof {
                    assert(false);
                }
                None
            },
        }
    } else {
        match u256_checked_sub(b, a) {
            Some(d) => Some(!u256_lt(&one_raw, &d)),
            None => {
                proof {
                    assert(false);
                }
                None
            },
        }
    }
}

/// A fixed-point decimal: one non-negative 256-bit magnitude holding the
/// true value multiplied by [`ONE`].
pub struct PreciseNumber {
    /// The raw magnitude, the true value at scale.
    pub value: U256,
}

/// The raw one as a `U256`.
fn one() -> (r: U256)
    ensures
        u256_val(r) == scale(),
{
    u256_from_u128(ONE)
}

/// The raw zero as a `U256`.
fn zero() -> (r: U256)
    ensures
        u256_val(r) == 0,
{
    u256_from_u128(0)
}

impl PreciseNumber {
    /// The hard bound on the iteration count of the approximation loops.
    pub const MAX_APPROXIMATION_ITERATIONS: u128 = 100;

    /// The raw value this number holds: its true value at scale.
    pub open spec fn val(&self) -> int {
        u256_val(self.value)
    }

    /// Half a scale unit, added before a truncating division to round to
    /// nearest instead of down.
    fn rounding_correction() -> (r: U256)
        ensures
            u256_val(r) == crate::model::half_scale(),
    {
        u256_from_u128(ONE / 2)
    }

    /// The raw threshold under which an approximation term or step ends the
    /// iteration early.
    fn precision() -> (r: U256)
        ensures
            u256_val(r) == term_precision(),
    {
        u256_from_u128(100)
    }

    /// The smallest raw base the fractional-exponent routines accept.
    fn min_pow_base() -> (r: U256)
        ensures
            u256_val(r) == min_base(),
    {
        u256_from_u128(1)
    }

    /// The largest raw base the fractional-exponent routines accept: the
    /// true value two, the edge of the series' convergence region.
    fn max_pow_base() -> (r: U256)
        ensures
            u256_val(r) == max_base(),
    {
        u256_from_u128(2 * ONE)
    }

    /// Builds the fixed-point representation of a native integer; succeeds
    /// for every `u128`, since the scaled value always fits in 256 bits.
    pub fn new(value: u128) -> (r: Option<Self>)
        ensures
            opt_val(r) == Some(prec_new(value)),
    {
        proof {
            assert((value as int) * 10_000_000_000
                < 0x1_0000_0000_0000_0000_0000_0000_0000_0000_0000_0000_0000_0000_0000_0000_0000_0000int)
                by (nonlinear_arith)
                requires
                    value <= u128::MAX,
            ;
        }
        let one_raw = one();
        let wide = u256_from_u128(value);
        match u256_checked_mul(&wide, &one_raw) {
            Some(value) => Some(PreciseNumber { value }),
            None => {
                proof {
                    assert(false);
                }
                None
            },
        }
    }

    /// Converts back to a native integer, rounded to nearest; `None` when
    /// the rounding correction overflows or the result does not fit.
    pub fn to_imprecise(&self) -> (r: Option<u128>)
        ensures
            match r {
                Some(x) => prec_to_imprecise(self.val()) == Some(x as int),
                None => prec_to_imprecise(self.val()) is None,
            },
    {
        let correction = Self::rounding_correction();
        let one_raw = one();
        match u256_checked_add(&self.value, &correction) {
            None => None,
            Some(sum) => match u256_checked_div(&sum, &one_raw) {
                Some(q) => u256_to_u128(&q),
                None => {
                    proof {
                        assert(false);
                    }
                    None
                },
            },
        }
    }

    /// Whether this number and `rhs` differ by strictly less than the given
    /// raw tolerance.
    pub fn almost_eq(&self, rhs: &Self, precision: U256) -> (r: bool)
        ensures
            r == prec_almost_eq(self.val(), rhs.val(), u256_val(precision)),
    {
        let (difference, _) = self.unsigned_sub(rhs);
        u256_lt(&difference.value, &precision)
    }

    /// Truncates the fractional part away, keeping the scale.
    pub fn floor(&self) -> (r: Option<Self>)
        ensures
            opt_val(r) == prec_floor(self.val()),
    {
        let one_raw = one();
        match u256_checked_div(&self.value, &one_raw) {
            Some(q) => match u256_checked_mul(&q, &one_raw) {
                Some(value) => Some(PreciseNumber { value }),
                None => None,
            },
            None => {
                proof {
                    assert(false);
                }
                None
            },
        }
    }

    /// Checked fixed-point division; `None` on a zero divisor and on
    /// overflow. When scaling the dividend up would overflow, a fallback
    /// divides first and scales the quotient, trading precision for headroom.
    pub fn checked_div(&self, rhs: &Self) -> (r: Option<Self>)
        ensures
            opt_val(r) == prec_div(self.val(), rhs.val()),
            rhs.val() == 0 ==> r is None,
    {
        let zero_raw = zero();
        if u256_eq(&rhs.value, &zero_raw) {
            return None;
        }
        let one_raw = one();
        let correction = Self::rounding_correction();
        match u256_checked_mul(&self.value, &one_raw) {
            Some(v) => match u256_checked_add(&v, &correction) {
                None => None,
                Some(s) => match u256_checked_div(&s, &rhs.value) {
                    Some(value) => Some(PreciseNumber { value }),
                    None => {
                        proof {
                            assert(false);
                        }
                        None
                    },
                },
            },
            None => match u256_checked_add(&self.value, &correction) {
                None => None,
                Some(s) => match u256_checked_div(&s, &rhs.value) {
                    Some(q) => match u256_checked_mul(&q, &one_raw) {
                        Some(value) => Some(PreciseNumber { value }),
                        None => None,
                    },
                    None => {
                        proof {
                            assert(false);
                        }
                        None
                    },
                },
            },
        }
    }

    /// Checked fixed-point multiplication; `None` only when even the
    /// fallback overflows. The fallback truncates the larger operand to
    /// integer granularity before multiplying, trading precision for
    /// headroom.
    pub fn checked_mul(&self, rhs: &Self) -> (r: Option<Self>)
        ensures
            opt_val(r) == prec_mul(self.val(), rhs.val()),
    {
        let one_raw = one();
        let correction = Self::rounding_correction();
        match u256_checked_mul(&self.value, &rhs.value) {
            Some(v) => match u256_checked_add(&v, &correction) {
                None => None,
                Some(s) => match u256_checked_div(&s, &one_raw) {
                    Some(value) => Some(PreciseNumber { value }),
                    None => {
                        proof {
                            assert(false);
                        }
                        None
                    },
                },
            },
            None => {
                let swapped = u256_lt(&self.value, &rhs.value);
                let (hi, lo) = if swapped {
                    (&rhs.value, &self.value)
                } else {
                    (&self.value, &rhs.value)
                };
                match u256_checked_div(hi, &one_raw) {
                    Some(q) => match u256_checked_mul(&q, lo) {
                        Some(value) => Some(PreciseNumber { value }),
                        None => None,
                    },
                    None => {
                        proof {
                            assert(false);
                        }
                        None
                    },
                }
            },
        }
    }

    /// Checked addition of two fixed-point values.
    pub fn checked_add(&self, rhs: &Self) -> (r: Option<Self>)
        ensures
            opt_val(r) == prec_add(self.val(), rhs.val()),
    {
        match u256_checked_add(&self.value, &rhs.value) {
            Some(value) => Some(PreciseNumber { value }),
            None => None,
        }
    }

    /// Checked subtraction; `None` when the subtrahend is larger, since no
    /// negative value is representable.
    pub fn checked_sub(&self, rhs: &Self) -> (r: Option<Self>)
        ensures
            opt_val(r) == prec_sub(self.val(), rhs.val()),
    {
        match u256_checked_sub(&self.value, &rhs.value) {
            Some(value) => Some(PreciseNumber { value }),
            None => None,
        }
    }

    /// Subtraction that cannot fail: the magnitude of the difference, and
    /// whether the true difference is negative.
    pub fn unsigned_sub(&self, rhs: &Self) -> (r: (Self, bool))
        ensures
            r.0.val() == prec_unsigned_sub(self.val(), rhs.val()).0,
            r.1 == prec_unsigned_sub(self.val(), rhs.val()).1,
    {
        match u256_checked_sub(&self.value, &rhs.value) {
            Some(value) => (PreciseNumber { value }, false),
            None => match u256_checked_sub(&rhs.value, &self.value) {
                Some(value) => (PreciseNumber { value }, true),
                None => {
                    proof {
                        assert(false);
                    }
                    (PreciseNumber { value: zero() }, true)
                },
            },
        }
    }

    /// Exact exponentiation by squaring for a non-negative integer exponent:
    /// the running base is squared each round and folded into the result on
    /// odd exponents. Exponents zero and one give one and the number itself
    /// exactly; `None` when an intermediate multiplication overflows.
    pub fn checked_pow(&self, exponent: u128) -> (r: Option<Self>)
        ensures
            opt_val(r) == prec_pow(self.val(), exponent as nat),
            exponent == 0 ==> opt_val(r) == Some(scale()),
            exponent == 1 ==> opt_val(r) == Some(self.val()),
    {
        let value = if exponent % 2 == 0 {
            one()
        } else {
            u256_dup(&self.value)
        };
        let mut result = PreciseNumber { value };
        let mut squared_base = PreciseNumber { value: u256_dup(&self.value) };
        let mut current_exponent: u128 = exponent / 2;
        while current_exponent != 0
            invariant
                prec_pow_loop(result.val(), squared_base.val(), current_exponent as nat)
                    == prec_pow(self.val(), exponent as nat),
            decreases current_exponent,
        {
            let squared = match squared_base.checked_mul(&squared_base) {
                Some(p) => p,
                None => {
                    return None;
                },
            };
            squared_base = squared;
            if current_exponent % 2 != 0 {
                let pushed = match result.checked_mul(&squared_base) {
                    Some(p) => p,
                    None => {
                        return None;
                    },
                };
                result = pushed;
            }
            current_exponent = current_exponent / 2;
        }
        Some(result)
    }

    /// Approximates `self^exponent` for a fractional exponent by the Taylor
    /// series of `x^n` around one: the term at 1-based step `k` is refined by
    /// the factor `(x - 1) * (n + 1 - k) / k`, for fewer than `max_iterations`
    /// steps or until a term falls under the `precision` threshold. The base
    /// must lie in the convergence region of the series, between
    /// `min_pow_base` and `max_pow_base`.
    pub fn checked_pow_approximation(&self, exponent: &Self, max_iterations: u128) -> (r: Option<
        Self,
    >)
        requires
            min_base() <= self.val() <= max_base(),
        ensures
            opt_val(r) == prec_pow_approx(self.val(), exponent.val(), max_iterations as nat),
            exponent.val() == 0 ==> opt_val(r) == Some(scale()),
    {
        let one_pn = match Self::new(1) {
            Some(p) => p,
            None => {
                proof {
                    assert(false);
                }
                return None;
            },
        };
        let zero_raw = zero();
        if u256_eq(&exponent.value, &zero_raw) {
            return Some(one_pn);
        }
        let mut precise_guess = PreciseNumber { value: u256_dup(&one_pn.value) };
        let mut term = PreciseNumber { value: u256_dup(&precise_guess.value) };
        let (x_minus_a, x_minus_a_negative) = self.unsigned_sub(&precise_guess);
        let exponent_plus_one = match exponent.checked_add(&one_pn) {
            Some(p) => p,
            None => {
                return None;
            },
        };
        let mut negative = false;
        let mut k: u128 = 1;
        while k < max_iterations
            invariant
                1 <= k,
                prec_pow_approx_loop(
                    x_minus_a.val(),
                    x_minus_a_negative,
                    exponent_plus_one.val(),
                    precise_guess.val(),
                    term.val(),
                    negative,
                    k as nat,
                    max_iterations as nat,
                ) == prec_pow_approx(self.val(), exponent.val(), max_iterations as nat),
            decreases max_iterations - k,
        {
            let k_pn = match Self::new(k) {
                Some(p) => p,
                None => {
                    proof {
                        assert(false);
                    }
                    return None;
                },
            };
            let (current_exponent, current_exponent_negative) = exponent_plus_one.unsigned_sub(
                &k_pn,
            );
            let t1 = match term.checked_mul(&current_exponent) {
                Some(p) => p,
                None => {
                    return None;
                },
            };
            let t2 = match t1.checked_mul(&x_minus_a) {
                Some(p) => p,
                None => {
                    return None;
                },
            };
            term = match t2.checked_div(&k_pn) {
                Some(p) => p,
                None => {
                    return None;
                },
            };
            let precision_raw = Self::precision();
            if u256_lt(&term.value, &precision_raw) {
                return Some(precise_guess);
            }
            if x_minus_a_negative {
                negative = !negative;
            }
            if current_exponent_negative {
                negative = !negative;
            }
            if negative {
                precise_guess = match precise_guess.checked_sub(&term) {
                    Some(p) => p,
                    None => {
                        return None;
                    },
                };
            } else {
                precise_guess = match precise_guess.checked_add(&term) {
                    Some(p) => p,
                    None => {
                        return None;
                    },
                };
            }
            k = k + 1;
        }
        Some(precise_guess)
    }

    /// Raises this number to an arbitrary non-negative rational exponent: the
    /// exact power of the exponent's integer part, times the Taylor
    /// approximation for its fractional remainder. The base must lie in the
    /// convergence region of the series, between `min_pow_base` and
    /// `max_pow_base`.
    pub fn checked_pow_fraction(&self, exponent: &Self) -> (r: Option<Self>)
        requires
            min_base() <= self.val() <= max_base(),
        ensures
            opt_val(r) == prec_pow_fraction(self.val(), exponent.val()),
    {
        let whole_exponent = match exponent.floor() {
            Some(p) => p,
            None => {
                return None;
            },
        };
        let whole = match whole_exponent.to_imprecise() {
            Some(w) => w,
            None => {
                return None;
            },
        };
        let precise_whole = match self.checked_pow(whole) {
            Some(p) => p,
            None => {
                return None;
            },
        };
        let (remainder_exponent, negative) = exponent.unsigned_sub(&whole_exponent);
        proof {
            lemma_floor_at_most(exponent.val());
        }
        assert(!negative);
        let zero_raw = zero();
        if u256_eq(&remainder_exponent.value, &zero_raw) {
            return Some(precise_whole);
        }
        let precise_remainder = match self.checked_pow_approximation(
            &remainder_exponent,
            Self::MAX_APPROXIMATION_ITERATIONS,
        ) {
            Some(p) => p,
            None => {
                return None;
            },
        };
        precise_whole.checked_mul(&precise_remainder)
    }

    /// Approximates the `root`th root of this number by Newton's method from
    /// the given initial guess: each step refines the guess to
    /// `((root - 1) * guess + self / guess^(root - 1)) / root`, for at most
    /// `MAX_APPROXIMATION_ITERATIONS` steps or until two successive guesses
    /// lie within the `precision` threshold. A step whose power overflows
    /// takes its division term as zero instead of failing the computation.
    pub fn newtonian_root_approximation(&self, root: &Self, guess: Self) -> (r: Option<Self>)
        ensures
            opt_val(r) == prec_newton(self.val(), root.val(), guess.val()),
    {
        let zero_raw = zero();
        if u256_eq(&root.value, &zero_raw) {
            return None;
        }
        let one_pn = match Self::new(1) {
            Some(p) => p,
            None => {
                proof {
                    assert(false);
                }
                return None;
            },
        };
        let root_minus_one = match root.checked_sub(&one_pn) {
            Some(p) => p,
            None => {
                return None;
            },
        };
        let root_minus_one_whole = match root_minus_one.to_imprecise() {
            Some(w) => w,
            None => {
                return None;
            },
        };
        let mut current_guess = PreciseNumber { value: u256_dup(&guess.value) };
        let mut i: u128 = 0;
        while i < Self::MAX_APPROXIMATION_ITERATIONS
            invariant
                prec_newton_loop(
                    self.val(),
                    root.val(),
                    root_minus_one.val(),
                    root_minus_one_whole as nat,
                    current_guess.val(),
                    i as nat,
                ) == prec_newton(self.val(), root.val(), guess.val()),
            decreases Self::MAX_APPROXIMATION_ITERATIONS - i,
        {
            let first_term = match root_minus_one.checked_mul(&current_guess) {
                Some(p) => p,
                None => {
                    return None;
                },
            };
            let second_term = match current_guess.checked_pow(root_minus_one_whole) {
                Some(num) => match self.checked_div(&num) {
                    Some(p) => p,
                    None => {
                        return None;
                    },
                },
                None => match Self::new(0) {
                    Some(p) => p,
                    None => {
                        proof {
                            assert(false);
                        }
                        return None;
                    },
                },
            };
            let sum = match first_term.checked_add(&second_term) {
                Some(p) => p,
                None => {
                    return None;
                },
            };
            let next_guess = match sum.checked_div(root) {
                Some(p) => p,
                None => {
                    return None;
                },
            };
            let precision_raw = Self::precision();
            let done = current_guess.almost_eq(&next_guess, precision_raw);
            current_guess = next_guess;
            if done {
                return Some(current_guess);
            }
            i = i + 1;
        }
        Some(current_guess)
    }
}

/// Flooring a non-negative value to a multiple of the scale never exceeds it.
proof fn lemma_floor_at_most(e: int)
    requires
        e >= 0,
    ensures
        (e / scale()) * scale() <= e,
{
    vstd::arithmetic::div_mod::lemma_fundamental_div_mod(e, scale());
    vstd::arithmetic::div_mod::lemma_mod_bound(e, scale());
}

} // verus!
