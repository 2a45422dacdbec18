//! Half-precision encoding of single-precision bit patterns.

use vstd::prelude::*;
use crate::fixed::Fx;
use crate::single::to_single;

verus! {

/// The half-precision pattern for a single-precision pattern, by its three
/// parts: the sign bit, the eight exponent bits and the 23 fraction bits.
///
/// An exponent field of 112 or less (a magnitude below 2^-14, zero and the
/// subnormals among them) gives zero without a sign. One of 143 or more (a
/// magnitude of 2^16 or more, infinities and NaNs among them) gives the
/// infinity of the same sign. Anything between keeps the sign, has the
/// exponent moved from the bias 127 to the bias 15 and keeps the ten leading
/// fraction bits; the other thirteen are dropped.
pub open spec fn half_bits(bits: u32) -> u16 {
    let sign = bits as int / 0x8000_0000;
    let exponent = (bits as int / 0x80_0000) % 0x100;
    let fraction = bits as int % 0x80_0000;
    if exponent <= 112 {
        0u16
    } else if exponent >= 143 {
        (sign * 0x8000 + 0x7C00) as u16
    } else {
        (sign * 0x8000 + (exponent - 112) * 0x400 + fraction / 0x2000) as u16
    }
}

/// Converts the bit pattern of a single-precision number to the bit pattern
/// of a half-precision number, rounding toward zero.
pub fn f32_to_f16(bits: u32) -> (half: u16)
    ensures
        half == half_bits(bits),
{
    let sign: u32 = (bits >> 16) & 0x8000;
    let exponent: u32 = (bits >> 23) & 0xFF;
    let fraction: u32 = bits & 0x007F_FFFF;
    assert(sign == (bits / 0x8000_0000) * 0x8000) by (bit_vector)
        requires
            sign == (bits >> 16) & 0x8000,
    ;
    assert(exponent == (bits / 0x80_0000) % 0x100) by (bit_vector)
        requires
            exponent == (bits >> 23) & 0xFF,
    ;
    assert(fraction == bits % 0x80_0000) by (bit_vector)
        requires
            fraction == bits & 0x007F_FFFF,
    ;
    if exponent <= 112 {
        0u16
    } else if exponent >= 143 {
        assert(sign | 0x7C00 == sign + 0x7C00) by (bit_vector)
            requires
                sign == 0 || sign == 0x8000,
        ;
        (sign | 0x7C00) as u16
    } else {
        let moved: u32 = exponent - 112;
        assert((sign | (moved << 10) | (fraction >> 13)) == sign + moved * 0x400 + fraction
            / 0x2000) by (bit_vector)
            requires
                sign == 0 || sign == 0x8000,
                moved < 31,
                fraction < 0x80_0000,
        ;
        (sign | (moved << 10) | (fraction >> 13)) as u16
    }
}

/// The half-precision bit pattern for a fixed-point number, rounded toward
/// zero: the number is brought to single precision first and to half
/// precision from there.
pub fn fx_to_f16(x: Fx) -> (half: u16)
    ensures
        half == half_bits(to_single(x)),
{
    f32_to_f16(x.to_f32_bits())
}

} // verus!
