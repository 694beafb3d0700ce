//! Real numbers as binary64 floating-point numbers, each given by its 64
//! bits: the sign bit first, the bits of the magnitude after it.
//!
//! Two numbers compare as their keys do; a pattern that stands for no
//! number compares with nothing.

use vstd::prelude::*;

verus! {

/// The bits of a binary64 number.
pub type RealBits = u64;

/// The sign bit.
pub const SIGN_BIT: u64 = 0x8000_0000_0000_0000;

/// The magnitude of infinity; a larger magnitude stands for no number.
pub const INFINITY_BITS: u64 = 0x7FF0_0000_0000_0000;

/// The bits of the number 180.
pub const BITS_180: u64 = 0x4066_8000_0000_0000;

/// The bits of the number -180.
pub const BITS_MINUS_180: u64 = 0xC066_8000_0000_0000;

/// The magnitude of a number: its bits without the sign bit.
pub open spec fn magnitude(bits: u64) -> int {
    if bits < SIGN_BIT {
        bits as int
    } else {
        bits - SIGN_BIT
    }
}

/// The bits stand for no number.
pub open spec fn is_nan_spec(bits: u64) -> bool {
    magnitude(bits) > INFINITY_BITS
}

/// The key of a number: its magnitude for a clear sign bit, minus its
/// magnitude for a set one.
pub open spec fn order_key_spec(bits: u64) -> int {
    if bits < SIGN_BIT {
        magnitude(bits)
    } else {
        -magnitude(bits)
    }
}

/// `a < b` as numbers.
pub open spec fn real_lt(a: u64, b: u64) -> bool {
    !is_nan_spec(a) && !is_nan_spec(b) && order_key_spec(a) < order_key_spec(b)
}

/// `a <= b` as numbers.
pub open spec fn real_le(a: u64, b: u64) -> bool {
    !is_nan_spec(a) && !is_nan_spec(b) && order_key_spec(a) <= order_key_spec(b)
}

/// Whether the bits stand for no number.
pub fn is_nan(bits: u64) -> (nan: bool)
    ensures
        nan == is_nan_spec(bits),
{
    if bits < SIGN_BIT {
        bits > INFINITY_BITS
    } else {
        bits - SIGN_BIT > INFINITY_BITS
    }
}

/// The key of a number.
pub fn order_key(bits: u64) -> (key: i64)
    ensures
        key == order_key_spec(bits),
{
    if bits < SIGN_BIT {
        bits as i64
    } else {
        -((bits - SIGN_BIT) as i64)
    }
}

/// Whether `a < b` as numbers.
pub fn lt(a: u64, b: u64) -> (less: bool)
    ensures
        less == real_lt(a, b),
{
    !is_nan(a) && !is_nan(b) && order_key(a) < order_key(b)
}

/// Whether `a <= b` as numbers.
pub fn le(a: u64, b: u64) -> (at_most: bool)
    ensures
        at_most == real_le(a, b),
{
    !is_nan(a) && !is_nan(b) && order_key(a) <= order_key(b)
}

} // verus!
