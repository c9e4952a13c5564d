//! IEEE 754 single-precision values carried as their 32-bit patterns.
//!
//! The pipeline never computes with these values; it stores, inspects and
//! serializes them. Classifying a value (finite, NaN, positive) needs only
//! its bit fields, so those checks are exact integer logic.

use vstd::prelude::*;

verus! {

/// Bit pattern of the single-precision value 1.0.
pub const F32_ONE_BITS: u32 = 0x3F80_0000;

/// Bit pattern of the single-precision value 2.0.
pub const F32_TWO_BITS: u32 = 0x4000_0000;

/// Bit pattern of the single-precision value 10.0.
pub const F32_TEN_BITS: u32 = 0x4120_0000;

/// The value is finite: its exponent field is not all ones
/// (neither an infinity nor a NaN).
pub open spec fn f32_bits_finite(b: u32) -> bool {
    b & 0x7F80_0000u32 != 0x7F80_0000u32
}

/// The value is a NaN: exponent field all ones and a nonzero mantissa.
pub open spec fn f32_bits_nan(b: u32) -> bool {
    b & 0x7F80_0000u32 == 0x7F80_0000u32 && b & 0x007F_FFFFu32 != 0u32
}

/// The value compares strictly greater than zero under IEEE ordering:
/// sign bit clear, not a zero, and not a NaN. Positive infinity qualifies.
pub open spec fn f32_bits_gt_zero(b: u32) -> bool {
    &&& b & 0x8000_0000u32 == 0u32
    &&& b != 0u32
    &&& !f32_bits_nan(b)
}

/// Whether the value with bit pattern `b` is finite.
pub fn is_finite_bits(b: u32) -> (r: bool)
    ensures
        r == f32_bits_finite(b),
{
    b & 0x7F80_0000 != 0x7F80_0000
}

/// Whether the value with bit pattern `b` is strictly greater than zero.
pub fn is_gt_zero_bits(b: u32) -> (r: bool)
    ensures
        r == f32_bits_gt_zero(b),
{
    b & 0x8000_0000 == 0 && b != 0 && !(b & 0x7F80_0000 == 0x7F80_0000 && b & 0x007F_FFFF != 0)
}

} // verus!
