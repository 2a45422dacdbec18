//! Fixed-point numbers to and from single-precision bit patterns.
//!
//! A pattern is taken apart into its sign bit, its eight exponent bits and
//! its 23 fraction bits, and put together from them, with integer arithmetic
//! alone.

use vstd::prelude::*;
use vstd::arithmetic::div_mod::{
    lemma_div_denominator, lemma_fundamental_div_mod, lemma_mod_bound,
};
use vstd::arithmetic::power2::{
    lemma2_to64, lemma2_to64_rest, lemma_pow2_adds, lemma_pow2_pos, lemma_pow2_strictly_increases,
    lemma_pow2_unfold, pow2,
};
use vstd::bits::{lemma_u64_shl_is_mul, lemma_u64_shr_is_div};
use crate::fixed::{Fx, magnitude, magnitude_of, sat, saturate, signed};

verus! {

/// Whether the sign bit of a pattern is set.
pub open spec fn sign_field(bits: u32) -> bool {
    bits >= 0x8000_0000
}

/// The eight exponent bits of a pattern.
pub open spec fn exponent_field(bits: u32) -> int {
    (bits as int / 0x80_0000) % 0x100
}

/// The 23 fraction bits of a pattern.
pub open spec fn fraction_field(bits: u32) -> int {
    bits as int % 0x80_0000
}

/// `m` times two to the power `shift`, rounded toward zero; `m` is not
/// negative.
pub open spec fn scaled(m: int, shift: int) -> int {
    if shift >= 0 {
        m * pow2(shift as nat)
    } else {
        m / (pow2((-shift) as nat) as int)
    }
}

/// The significand of a pattern: the fraction bits, with the hidden one in
/// front unless the number is subnormal.
pub open spec fn significand(bits: u32) -> int {
    if exponent_field(bits) == 0 {
        fraction_field(bits)
    } else {
        0x80_0000 + fraction_field(bits)
    }
}

/// The power of two by which the significand of a pattern is multiplied to
/// give the raw fixed-point value: the magnitude is
/// `significand * 2^(exponent - 150)`, and the raw value is `2^32` times that.
pub open spec fn raw_shift(bits: u32) -> int {
    if exponent_field(bits) == 0 {
        -117
    } else {
        exponent_field(bits) - 118
    }
}

/// The fixed-point number nearest to the single-precision number with the
/// given pattern, rounded toward zero: a NaN gives zero, and whatever lies
/// outside the range, the infinities among it, saturates.
pub open spec fn from_single(bits: u32) -> Fx {
    if exponent_field(bits) == 0xFF && fraction_field(bits) != 0 {
        Fx::zero()
    } else {
        Fx { raw: sat(signed(sign_field(bits), scaled(significand(bits), raw_shift(bits)))) }
    }
}

/// The position of the leading one bit of a positive integer.
pub open spec fn top_bit(m: int) -> nat
    decreases m,
{
    if m <= 1 {
        0
    } else {
        1 + top_bit(m / 2)
    }
}

/// The pattern of the single-precision number nearest to a fixed-point
/// number, rounded toward zero. Zero gives the pattern zero. For any other
/// number, whose magnitude `m` has its leading bit at position `e`, the
/// exponent field is `e + 95` and the fraction holds the 23 bits after the
/// leading one.
pub open spec fn to_single(x: Fx) -> u32 {
    if x.raw == 0 {
        0u32
    } else {
        let m = magnitude(x.raw as int);
        let e = top_bit(m);
        let sign: int = if x.raw < 0 {
            0x8000_0000
        } else {
            0
        };
        (sign + (e + 95) * 0x80_0000 + (scaled(m, 23 - e) - 0x80_0000)) as u32
    }
}

proof fn lemma_quotient_between(m: int, d: int, lo: int, hi: int)
    requires
        d > 0,
        lo * d <= m < hi * d,
    ensures
        lo <= m / d < hi,
{
    lemma_fundamental_div_mod(m, d);
    lemma_mod_bound(m, d);
    let q = m / d;
    let r = m % d;
    assert(lo <= q < hi) by (nonlinear_arith)
        requires
            m == d * q + r,
            0 <= r < d,
            lo * d <= m < hi * d,
    ;
}

/// The leading bit of `m` is at position `e` exactly when `m` lies between
/// `2^e` and `2^(e+1)`.
pub proof fn lemma_top_bit_bounds(m: int)
    requires
        m >= 1,
    ensures
        pow2(top_bit(m)) <= m < 2 * pow2(top_bit(m)),
    decreases m,
{
    if m <= 1 {
        lemma2_to64();
    } else {
        lemma_top_bit_bounds(m / 2);
        lemma_pow2_unfold(top_bit(m));
    }
}

impl Fx {
    /// The fixed-point number for a single-precision bit pattern.
    pub fn from_f32_bits(bits: u32) -> (r: Fx)
        ensures
            r == from_single(bits),
    {
        let exponent: u32 = (bits >> 23) & 0xFF;
        let fraction: u32 = bits & 0x007F_FFFF;
        let negative: bool = bits >= 0x8000_0000;
        assert(exponent == (bits / 0x80_0000) % 0x100) by (bit_vector)
            requires
                exponent == (bits >> 23) & 0xFF,
        ;
        assert(fraction == bits % 0x80_0000) by (bit_vector)
            requires
                fraction == bits & 0x007F_FFFF,
        ;
        if exponent == 0xFF && fraction != 0 {
            return Fx::zero();
        }
        let m: u64 = if exponent == 0 {
            fraction as u64
        } else {
            (0x80_0000 + fraction) as u64
        };
        proof {
            lemma2_to64();
            lemma2_to64_rest();
        }
        if exponent >= 118 {
            let shift: u32 = exponent - 118;
            proof {
                lemma_pow2_pos(shift as nat);
            }
            if shift >= 40 {
                proof {
                    if shift > 40 {
                        lemma_pow2_strictly_increases(40, shift as nat);
                    }
                    let p = pow2(shift as nat) as int;
                    assert(m * p >= 0x8000_0000_0000_0000) by (nonlinear_arith)
                        requires
                            m >= 0x80_0000,
                            p >= 0x100_0000_0000,
                    ;
                }
                if negative {
                    Fx { raw: i64::MIN }
                } else {
                    Fx { raw: i64::MAX }
                }
            } else {
                proof {
                    if shift < 39 {
                        lemma_pow2_strictly_increases(shift as nat, 39);
                    }
                    let p = pow2(shift as nat) as int;
                    assert(m * p < 0x8000_0000_0000_0000) by (nonlinear_arith)
                        requires
                            0 <= m < 0x100_0000,
                            0 < p <= 0x80_0000_0000,
                    ;
                    lemma_u64_shl_is_mul(m, shift as u64);
                }
                let mag: u64 = m << (shift as u64);
                Fx { raw: saturate(negative, mag as u128) }
            }
        } else {
            let shift: u32 = if exponent == 0 {
                117
            } else {
                118 - exponent
            };
            if shift >= 24 {
                proof {
                    if shift > 24 {
                        lemma_pow2_strictly_increases(24, shift as nat);
                    }
                    lemma_quotient_between(m as int, pow2(shift as nat) as int, 0, 1);
                }
                Fx::zero()
            } else {
                proof {
                    lemma_u64_shr_is_div(m, shift as u64);
                }
                let mag: u64 = m >> (shift as u64);
                Fx { raw: saturate(negative, mag as u128) }
            }
        }
    }

    /// The single-precision bit pattern for this number.
    pub fn to_f32_bits(self) -> (bits: u32)
        ensures
            bits == to_single(self),
    {
        if self.raw == 0 {
            return 0;
        }
        let m: u64 = magnitude_of(self.raw) as u64;
        let mut e: u32 = 0;
        let mut t: u64 = m;
        proof {
            lemma2_to64();
            lemma2_to64_rest();
        }
        while t > 1
            invariant
                1 <= m <= 0x8000_0000_0000_0000,
                1 <= t,
                e <= 63,
                t as int == m as int / (pow2(e as nat) as int),
                e + top_bit(t as int) == top_bit(m as int),
            decreases t,
        {
            proof {
                let p = pow2(e as nat) as int;
                lemma_pow2_pos(e as nat);
                lemma_pow2_unfold((e + 1) as nat);
                lemma_div_denominator(m as int, p, 2);
                if e == 63 {
                    lemma2_to64_rest();
                    lemma_quotient_between(m as int, p, 0, 2);
                }
            }
            t = t / 2;
            e = e + 1;
        }
        proof {
            lemma_top_bit_bounds(m as int);
            lemma2_to64();
        }
        let ghost p = pow2(e as nat) as int;
        let kept: u64 = if e >= 23 {
            let shift: u32 = e - 23;
            proof {
                lemma_u64_shr_is_div(m, shift as u64);
                lemma_pow2_adds(shift as nat, 23);
                lemma_pow2_pos(shift as nat);
                let d = pow2(shift as nat) as int;
                assert(0x80_0000 * d == d * 0x80_0000 && 0x100_0000 * d == 2 * (d * 0x80_0000))
                    by (nonlinear_arith);
                lemma_quotient_between(m as int, d, 0x80_0000, 0x100_0000);
                assert(scaled(m as int, 23 - e) == m as int / d) by {
                    if e == 23 {
                        assert(d == 1);
                        assert(scaled(m as int, 0) == m * 1);
                    } else {
                        assert((-(23 - e)) as nat == shift as nat);
                    }
                }
            }
            m >> (shift as u64)
        } else {
            let shift: u32 = 23 - e;
            proof {
                lemma_pow2_adds(e as nat, shift as nat);
                lemma_pow2_pos(shift as nat);
                let d = pow2(shift as nat) as int;
                assert(p * d <= m * d && m * d < (2 * p) * d && (2 * p) * d == 2 * (p * d))
                    by (nonlinear_arith)
                    requires
                        p <= m < 2 * p,
                        d > 0,
                ;
                lemma_u64_shl_is_mul(m, shift as u64);
                assert(scaled(m as int, 23 - e) == m * d);
            }
            m << (shift as u64)
        };
        let sign: u32 = if self.raw < 0 {
            0x8000_0000
        } else {
            0
        };
        sign + (e + 95) * 0x80_0000 + ((kept as u32) - 0x80_0000)
    }
}

} // verus!
