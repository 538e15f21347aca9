//! Rules on measured numbers, which travel as IEEE 754 bit patterns.

use vstd::prelude::*;

verus! {

/// The bit pattern of positive infinity in 32 bits: what lies at or above it,
/// sign aside, is no finite number.
pub const INFINITY_32: u32 = 0x7f80_0000;

/// The bit pattern of minus zero in 32 bits.
pub const MINUS_ZERO_32: u32 = 0x8000_0000;

/// The bit pattern of one hundred in 32 bits.
pub const HUNDRED_32: u32 = 0x42c8_0000;

/// The bit pattern of positive infinity in 64 bits.
pub const INFINITY_64: u64 = 0x7ff0_0000_0000_0000;

/// The bit pattern of minus zero in 64 bits.
pub const MINUS_ZERO_64: u64 = 0x8000_0000_0000_0000;

/// True when the pattern stands for a finite number.
pub open spec fn finite_32(bits: u32) -> bool {
    bits % MINUS_ZERO_32 < INFINITY_32
}

/// True when the pattern stands for a finite number.
pub open spec fn finite_64(bits: u64) -> bool {
    bits % MINUS_ZERO_64 < INFINITY_64
}

/// A percentage: between zero and one hundred, zero for what is not finite.
/// Patterns of positive numbers are ordered as the numbers are.
pub open spec fn percent(bits: u32) -> u32 {
    if !finite_32(bits) || bits > MINUS_ZERO_32 {
        0
    } else if HUNDRED_32 < bits < MINUS_ZERO_32 {
        HUNDRED_32
    } else {
        bits
    }
}

/// At least zero, and zero for what is not finite.
pub open spec fn nonnegative_32(bits: u32) -> u32 {
    if !finite_32(bits) || bits >= MINUS_ZERO_32 {
        0
    } else {
        bits
    }
}

/// At least zero, and zero for what is not finite.
pub open spec fn nonnegative_64(bits: u64) -> u64 {
    if !finite_64(bits) || bits >= MINUS_ZERO_64 {
        0
    } else {
        bits
    }
}

/// A number only if it is finite.
pub open spec fn finite_only(bits: Option<u32>) -> Option<u32> {
    match bits {
        Some(value) if finite_32(value) => Some(value),
        _ => None,
    }
}

/// Bounds a percentage.
pub fn bounded_percent(bits: u32) -> (r: u32)
    ensures
        r == percent(bits),
{
    if bits % MINUS_ZERO_32 >= INFINITY_32 || bits > MINUS_ZERO_32 {
        0
    } else if HUNDRED_32 < bits && bits < MINUS_ZERO_32 {
        HUNDRED_32
    } else {
        bits
    }
}

/// Bounds a percentage, if there is one.
pub fn bounded_percent_option(bits: Option<u32>) -> (r: Option<u32>)
    ensures
        r == match bits {
            Some(value) => Some(percent(value)),
            None => None,
        },
{
    match bits {
        Some(value) => Some(bounded_percent(value)),
        None => None,
    }
}

/// Bounds a number from below by zero.
pub fn bounded_nonnegative(bits: u64) -> (r: u64)
    ensures
        r == nonnegative_64(bits),
{
    if bits % MINUS_ZERO_64 >= INFINITY_64 || bits >= MINUS_ZERO_64 {
        0
    } else {
        bits
    }
}

/// Bounds a load from below by zero.
pub fn bounded_load(bits: u32) -> (r: u32)
    ensures
        r == nonnegative_32(bits),
{
    if bits % MINUS_ZERO_32 >= INFINITY_32 || bits >= MINUS_ZERO_32 {
        0
    } else {
        bits
    }
}

/// Drops a number that is not finite.
pub fn finite_or_none(bits: Option<u32>) -> (r: Option<u32>)
    ensures
        r == finite_only(bits),
{
    match bits {
        Some(value) => {
            if value % MINUS_ZERO_32 < INFINITY_32 {
                Some(value)
            } else {
                None
            }
        },
        None => None,
    }
}

/// A bounded percentage is finite and lies between zero and one hundred, and
/// bounding it again changes nothing.
pub proof fn lemma_percent(bits: u32)
    ensures
        finite_32(percent(bits)),
        percent(bits) <= HUNDRED_32 || percent(bits) == MINUS_ZERO_32,
        percent(percent(bits)) == percent(bits),
{
}

/// A percentage that is one is kept, one above a hundred becomes a hundred, and
/// what is below zero or no number becomes zero.
pub proof fn lemma_percentages(bits: u32)
    ensures
        bits <= 0x42c8_0000 ==> percent(bits) == bits,
        0x42c8_0000 < bits < 0x7f80_0000 ==> percent(bits) == 0x42c8_0000,
        0x7f80_0000 <= bits < 0x8000_0000 ==> percent(bits) == 0,
        bits > 0x8000_0000 ==> percent(bits) == 0,
        percent(bits) <= 0x42c8_0000 || bits == 0x8000_0000,
        percent(percent(bits)) == percent(bits),
{
}

/// A finite number that is not below zero is kept; anything else becomes zero, or
/// nothing where there may be nothing.
pub proof fn lemma_finite_numbers_are_kept(bits: u32, long: u64)
    ensures
        bits < 0x7f80_0000 ==> nonnegative_32(bits) == bits,
        bits >= 0x7f80_0000 ==> nonnegative_32(bits) == 0,
        long < 0x7ff0_0000_0000_0000 ==> nonnegative_64(long) == long,
        long >= 0x7ff0_0000_0000_0000 ==> nonnegative_64(long) == 0,
        finite_only(None) is None,
        bits < 0x7f80_0000 || 0x8000_0000 <= bits < 0xff80_0000 ==> finite_only(Some(bits))
            == Some(bits),
        0x7f80_0000 <= bits < 0x8000_0000 || bits >= 0xff80_0000 ==> finite_only(Some(bits))
            is None,
{
}

} // verus!
