//! Deterministic fixed-point arithmetic with checked operations and
//! approximate exponentiation over rational exponents, built on a 256-bit
//! unsigned integer.
//!
//! The core type is [`precise::PreciseNumber`], a non-negative fixed-point
//! number scaled by `10^10`. Every arithmetic operation is checked: overflow,
//! underflow and division by zero are reported as an absent result instead of
//! wrapping or panicking. On top of the checked arithmetic sit an exact
//! integer exponentiation, a Taylor-series approximation for fractional
//! exponents, and a Newton's-method nth-root approximation, each with a hard
//! bound on its iteration count.

pub mod laws;
pub mod model;
pub mod precise;
pub mod wide;
