//! Single-precision values as their IEEE-754 bit patterns.
//!
//! A pattern is a sign bit, eight exponent bits and twenty-three fraction bits,
//! from the high end. Finite values of one sign are ordered as their patterns are.

use vstd::prelude::*;

verus! {

/// The exponent bits.
pub open spec fn exponent(bits: u32) -> int {
    bits as int / 0x80_0000 % 0x100
}

/// The pattern without its sign bit: that of the absolute value.
pub open spec fn magnitude_of(bits: u32) -> int {
    bits as int % 0x8000_0000
}

/// Neither infinite nor "not a number": the exponent bits are not all set.
pub open spec fn finite(bits: u32) -> bool {
    exponent(bits) != 0xff
}

/// Positive or negative zero.
pub open spec fn zero(bits: u32) -> bool {
    magnitude_of(bits) == 0
}

/// Whether the value is finite.
pub fn is_finite(bits: u32) -> (yes: bool)
    ensures
        yes == finite(bits),
{
    bits / 0x80_0000 % 0x100 != 0xff
}

/// Whether the value equals zero.
pub fn is_zero(bits: u32) -> (yes: bool)
    ensures
        yes == zero(bits),
{
    bits % 0x8000_0000 == 0
}

/// The pattern of the absolute value.
pub fn magnitude(bits: u32) -> (size: u32)
    ensures
        size == magnitude_of(bits),
{
    bits % 0x8000_0000
}

/// A pattern is finite exactly where its magnitude lies below that of infinity.
pub proof fn finite_below_infinity(bits: u32)
    ensures
        finite(bits) <==> magnitude_of(bits) < 0x7f80_0000,
{
}

} // verus!
