//! Numerical values as IEEE-754 binary64 bit patterns.
//!
//! A value `v: f64` is stored as `v.to_bits()`. For finite values the numeric
//! order of `f64` is the order of [`order_key`]: the sign-magnitude encoding
//! mapped onto the integers, where both zeros have key zero.
use vstd::prelude::*;

verus! {

/// The sign bit of a binary64 bit pattern.
pub const SIGN_BIT: u64 = 0x8000_0000_0000_0000;

/// The exponent field of a binary64 bit pattern.
pub const EXPONENT_MASK: u64 = 0x7ff0_0000_0000_0000;

/// A bit pattern denotes a finite number unless its exponent field is all ones
/// (infinities and NaNs).
pub open spec fn finite_value(bits: u64) -> bool {
    bits & EXPONENT_MASK != EXPONENT_MASK
}

/// Integer whose order is the numeric order of finite values; `-0.0` and
/// `+0.0` share the key zero.
pub open spec fn order_key(bits: u64) -> int {
    if bits >= SIGN_BIT {
        -((bits - SIGN_BIT) as int)
    } else {
        bits as int
    }
}

/// Canonical join key of a finite value: both zeros map to `+0.0`.
pub open spec fn canonical_bits(bits: u64) -> u64 {
    if bits == SIGN_BIT {
        0
    } else {
        bits
    }
}

/// Returns whether the value is neither infinite nor NaN.
pub fn is_finite_value(bits: u64) -> (finite: bool)
    ensures
        finite == finite_value(bits),
{
    bits & EXPONENT_MASK != EXPONENT_MASK
}

/// Numeric `a <= b` on finite values.
pub fn value_le(a: u64, b: u64) -> (le: bool)
    ensures
        le == (order_key(a) <= order_key(b)),
{
    if a < SIGN_BIT {
        if b < SIGN_BIT {
            a <= b
        } else {
            a == 0 && b == SIGN_BIT
        }
    } else if b < SIGN_BIT {
        true
    } else {
        a >= b
    }
}

/// Numeric `a < b` on finite values.
pub fn value_lt(a: u64, b: u64) -> (lt: bool)
    ensures
        lt == (order_key(a) < order_key(b)),
{
    !value_le(b, a)
}

/// Numeric `a == b` on finite values (`-0.0 == +0.0`).
pub fn value_eq(a: u64, b: u64) -> (eq: bool)
    ensures
        eq == (order_key(a) == order_key(b)),
{
    value_le(a, b) && value_le(b, a)
}

/// The canonical join key of a value, or `None` when it is not finite.
pub fn canonical_join_value(bits: u64) -> (key: Option<u64>)
    ensures
        key == (if finite_value(bits) { Some(canonical_bits(bits)) } else { None::<u64> }),
{
    if is_finite_value(bits) {
        if bits == SIGN_BIT {
            Some(0)
        } else {
            Some(bits)
        }
    } else {
        None
    }
}

/// Two finite values have the same canonical key exactly when they are
/// numerically equal.
pub proof fn lemma_canonical_bits_is_numeric_equality(a: u64, b: u64)
    ensures
        (canonical_bits(a) == canonical_bits(b)) == (order_key(a) == order_key(b)),
{
}

} // verus!
