//! Signed fixed-point numbers with 32 fractional bits.
//!
//! A value is stored as an `i64` holding the number multiplied by 2^32. Every
//! operation rounds toward zero and saturates at the ends of the `i64` range,
//! so no operation can overflow or fail.

use vstd::prelude::*;

verus! {

/// The raw representation of the number one.
pub const ONE_RAW: i64 = 0x1_0000_0000;

/// A fixed-point number; the value it stands for is `raw / 2^32`.
#[derive(Clone, Copy, Debug, PartialEq, Eq, Structural)]
pub struct Fx {
    pub raw: i64,
}

/// The absolute value of an integer.
pub open spec fn magnitude(v: int) -> int {
    if v < 0 {
        -v
    } else {
        v
    }
}

/// A magnitude with its sign put back.
pub open spec fn signed(negative: bool, mag: int) -> int {
    if negative {
        -mag
    } else {
        mag
    }
}

/// The nearest `i64` to an integer.
pub open spec fn sat(v: int) -> i64 {
    if v < i64::MIN {
        i64::MIN
    } else if v > i64::MAX {
        i64::MAX
    } else {
        v as i64
    }
}

/// The quotient of two integers, rounded toward zero.
pub open spec fn quotient_toward_zero(a: int, b: int) -> int
    recommends
        b != 0,
{
    if b == 0 {
        0
    } else {
        signed((a < 0) != (b < 0), magnitude(a) / magnitude(b))
    }
}

pub(crate) fn magnitude_of(v: i64) -> (m: u128)
    ensures
        m == magnitude(v as int),
        m <= 0x8000_0000_0000_0000,
{
    if v < 0 {
        (-(v as i128)) as u128
    } else {
        v as u128
    }
}

pub(crate) fn saturate(negative: bool, mag: u128) -> (r: i64)
    ensures
        r == sat(signed(negative, mag as int)),
{
    if negative {
        if mag >= 0x8000_0000_0000_0000 {
            i64::MIN
        } else {
            -(mag as i64)
        }
    } else {
        if mag > 0x7FFF_FFFF_FFFF_FFFF {
            i64::MAX
        } else {
            mag as i64
        }
    }
}

fn saturate_wide(v: i128) -> (r: i64)
    ensures
        r == sat(v as int),
{
    if v < -0x8000_0000_0000_0000 {
        i64::MIN
    } else if v > 0x7FFF_FFFF_FFFF_FFFF {
        i64::MAX
    } else {
        v as i64
    }
}

impl Fx {
    pub open spec fn spec_zero() -> Fx {
        Fx { raw: 0 }
    }

    pub open spec fn spec_one() -> Fx {
        Fx { raw: ONE_RAW }
    }

    pub open spec fn spec_from_int(i: int) -> Fx {
        Fx { raw: sat(i * ONE_RAW) }
    }

    pub open spec fn spec_plus(self, rhs: Fx) -> Fx {
        Fx { raw: sat(self.raw + rhs.raw) }
    }

    pub open spec fn spec_minus(self, rhs: Fx) -> Fx {
        Fx { raw: sat(self.raw - rhs.raw) }
    }

    pub open spec fn spec_negated(self) -> Fx {
        Fx { raw: sat(-self.raw) }
    }

    /// The product: the magnitudes are multiplied exactly, the bits below the
    /// resolution are dropped, the sign is put back and the result saturates.
    pub open spec fn spec_times(self, rhs: Fx) -> Fx {
        Fx {
            raw: sat(
                signed(
                    (self.raw < 0) != (rhs.raw < 0),
                    magnitude(self.raw as int) * magnitude(rhs.raw as int) / (ONE_RAW as int),
                ),
            ),
        }
    }

    /// The quotient, rounded toward zero and saturated.
    pub open spec fn spec_over(self, rhs: Fx) -> Fx
        recommends
            rhs.raw != 0,
    {
        Fx {
            raw: sat(
                signed(
                    (self.raw < 0) != (rhs.raw < 0),
                    magnitude(self.raw as int) * (ONE_RAW as int) / magnitude(rhs.raw as int),
                ),
            ),
        }
    }

    pub open spec fn spec_halved(self) -> Fx {
        Fx { raw: quotient_toward_zero(self.raw as int, 2) as i64 }
    }

    pub open spec fn spec_quartered(self) -> Fx {
        Fx { raw: quotient_toward_zero(self.raw as int, 4) as i64 }
    }

    pub open spec fn spec_clamped(self, lo: Fx, hi: Fx) -> Fx {
        if self.raw < lo.raw {
            lo
        } else if self.raw > hi.raw {
            hi
        } else {
            self
        }
    }

    #[verifier::when_used_as_spec(spec_zero)]
    pub fn zero() -> (r: Fx)
        ensures
            r == Fx::spec_zero(),
    {
        Fx { raw: 0 }
    }

    #[verifier::when_used_as_spec(spec_one)]
    pub fn one() -> (r: Fx)
        ensures
            r == Fx::spec_one(),
    {
        Fx { raw: ONE_RAW }
    }

    /// The fixed-point number with the given raw representation.
    pub fn from_raw(raw: i64) -> (r: Fx)
        ensures
            r.raw == raw,
    {
        Fx { raw }
    }

    /// The whole number `i`, saturated where it lies outside the range.
    pub fn from_int(i: i64) -> (r: Fx)
        ensures
            r == Fx::spec_from_int(i as int),
    {
        let wide: i128 = (i as i128) * 0x1_0000_0000;
        Fx { raw: saturate_wide(wide) }
    }

    #[verifier::when_used_as_spec(spec_plus)]
    pub fn plus(self, rhs: Fx) -> (r: Fx)
        ensures
            r == self.spec_plus(rhs),
    {
        Fx { raw: saturate_wide(self.raw as i128 + rhs.raw as i128) }
    }

    #[verifier::when_used_as_spec(spec_minus)]
    pub fn minus(self, rhs: Fx) -> (r: Fx)
        ensures
            r == self.spec_minus(rhs),
    {
        Fx { raw: saturate_wide(self.raw as i128 - rhs.raw as i128) }
    }

    #[verifier::when_used_as_spec(spec_negated)]
    pub fn negated(self) -> (r: Fx)
        ensures
            r == self.spec_negated(),
    {
        Fx { raw: saturate_wide(-(self.raw as i128)) }
    }

    #[verifier::when_used_as_spec(spec_times)]
    pub fn times(self, rhs: Fx) -> (r: Fx)
        ensures
            r == self.spec_times(rhs),
    {
        let negative: bool = (self.raw < 0) != (rhs.raw < 0);
        let a: u128 = magnitude_of(self.raw);
        let b: u128 = magnitude_of(rhs.raw);
        assert(a * b <= 0x8000_0000_0000_0000 * 0x8000_0000_0000_0000) by (nonlinear_arith)
            requires
                a <= 0x8000_0000_0000_0000,
                b <= 0x8000_0000_0000_0000,
        ;
        let product: u128 = a * b;
        let kept: u128 = product / 0x1_0000_0000;
        Fx { raw: saturate(negative, kept) }
    }

    /// Division; the divisor must not be zero.
    #[verifier::when_used_as_spec(spec_over)]
    pub fn over(self, rhs: Fx) -> (r: Fx)
        requires
            rhs.raw != 0,
        ensures
            r == self.spec_over(rhs),
    {
        let negative: bool = (self.raw < 0) != (rhs.raw < 0);
        let a: u128 = magnitude_of(self.raw);
        let b: u128 = magnitude_of(rhs.raw);
        let scaled: u128 = a * 0x1_0000_0000;
        let kept: u128 = scaled / b;
        Fx { raw: saturate(negative, kept) }
    }

    #[verifier::when_used_as_spec(spec_halved)]
    pub fn halved(self) -> (r: Fx)
        ensures
            r == self.spec_halved(),
    {
        let m: u128 = magnitude_of(self.raw) / 2;
        Fx { raw: saturate(self.raw < 0, m) }
    }

    #[verifier::when_used_as_spec(spec_quartered)]
    pub fn quartered(self) -> (r: Fx)
        ensures
            r == self.spec_quartered(),
    {
        let m: u128 = magnitude_of(self.raw) / 4;
        Fx { raw: saturate(self.raw < 0, m) }
    }

    /// The value limited to the interval from `lo` to `hi`.
    #[verifier::when_used_as_spec(spec_clamped)]
    pub fn clamped(self, lo: Fx, hi: Fx) -> (r: Fx)
        ensures
            r == self.spec_clamped(lo, hi),
    {
        if self.raw < lo.raw {
            lo
        } else if self.raw > hi.raw {
            hi
        } else {
            self
        }
    }
}

/// Every value of `f` has a magnitude of at most `m`.
pub open spec fn bounded(f: Seq<Fx>, m: int) -> bool {
    forall|i: int| 0 <= i < f.len() ==> magnitude((#[trigger] f[i]).raw as int) <= m
}

/// The magnitude of a sum is at most the sum of the magnitudes.
pub proof fn lemma_plus_magnitude(a: Fx, b: Fx)
    ensures
        magnitude(a.plus(b).raw as int) <= magnitude(a.raw as int) + magnitude(b.raw as int),
{
}

/// A product with a weight between zero and one keeps the sign, does not
/// saturate and rounds toward zero: with `S` for the raw one,
/// `|a * w| * S <= |a| * w`.
pub proof fn lemma_times_weight(a: Fx, w: Fx)
    requires
        0 <= w.raw <= ONE_RAW,
    ensures
        magnitude(a.times(w).raw as int) * ONE_RAW <= magnitude(a.raw as int) * w.raw,
        magnitude(a.times(w).raw as int) <= magnitude(a.raw as int),
        a.raw >= 0 ==> a.times(w).raw >= 0,
        a.raw <= 0 ==> a.times(w).raw <= 0,
{
    let s = ONE_RAW as int;
    let m = magnitude(a.raw as int);
    let ww = w.raw as int;
    let p = m * ww;
    let q = p / s;
    assert(0 <= p <= m * s) by (nonlinear_arith)
        requires
            p == m * ww,
            0 <= ww <= s,
            0 <= m,
    ;
    vstd::arithmetic::div_mod::lemma_fundamental_div_mod(p, s);
    vstd::arithmetic::div_mod::lemma_mod_pos_bound(p, s);
    assert(0 <= q <= m && q * s <= p) by (nonlinear_arith)
        requires
            p == s * q + p % s,
            0 <= p % s < s,
            0 <= p <= m * s,
            s > 0,
    ;
    assert(magnitude(w.raw as int) == ww);
}

/// Zero is neutral for addition and subtraction, and a number minus itself
/// is zero.
pub proof fn lemma_zero_is_neutral(a: Fx)
    ensures
        a.plus(Fx::zero()) == a,
        Fx::zero().plus(a) == a,
        a.minus(Fx::zero()) == a,
        a.minus(a) == Fx::zero(),
{
}

/// A product with zero is zero.
pub proof fn lemma_times_zero(a: Fx)
    ensures
        a.times(Fx::zero()) == Fx::zero(),
        Fx::zero().times(a) == Fx::zero(),
{
    assert(magnitude(a.raw as int) * 0 == 0);
    assert(0 * magnitude(a.raw as int) == 0);
}

/// One is neutral for multiplication: no rounding takes place.
pub proof fn lemma_times_one(a: Fx)
    ensures
        a.times(Fx::one()) == a,
        Fx::one().times(a) == a,
{
    let m = magnitude(a.raw as int);
    let s = ONE_RAW as int;
    assert(m * s / s == m && s * m / s == m) by (nonlinear_arith)
        requires
            s == 0x1_0000_0000,
            m >= 0,
    ;
}

/// Scaling by a factor in (0, 1] never saturates, never grows the magnitude,
/// and is off from the exact product by less than one unit of the last place.
pub proof fn lemma_times_fraction(a: Fx, d: Fx)
    requires
        0 < d.raw <= ONE_RAW,
    ensures
        magnitude(a.times(d).raw * ONE_RAW - a.raw * d.raw) < ONE_RAW,
        magnitude(a.times(d).raw as int) <= magnitude(a.raw as int),
{
    let s = ONE_RAW as int;
    let m = magnitude(a.raw as int);
    let dd = d.raw as int;
    let p = m * dd;
    let q = p / s;
    assert(0 <= p <= m * s) by (nonlinear_arith)
        requires
            p == m * dd,
            0 < dd <= s,
            0 <= m,
    ;
    vstd::arithmetic::div_mod::lemma_fundamental_div_mod(p, s);
    vstd::arithmetic::div_mod::lemma_mod_pos_bound(p, s);
    assert(0 <= q <= m) by (nonlinear_arith)
        requires
            p == s * q + p % s,
            0 <= p % s < s,
            0 <= p <= m * s,
            s > 0,
    ;
    assert(magnitude(d.raw as int) == dd);
    assert(a.times(d).raw == signed(a.raw < 0, q));
    assert(a.raw * dd == signed(a.raw < 0, p)) by (nonlinear_arith)
        requires
            p == m * dd,
            m == magnitude(a.raw as int),
    ;
    assert(signed(a.raw < 0, q) * s == signed(a.raw < 0, q * s)) by (nonlinear_arith);
    assert(q * s == s * q) by (nonlinear_arith);
}

/// Half and a quarter of zero are zero.
pub proof fn lemma_fractions_of_zero()
    ensures
        Fx::zero().halved() == Fx::zero(),
        Fx::zero().quartered() == Fx::zero(),
{
}

/// A whole number from zero up to 2^31 - 1 is represented exactly.
pub proof fn lemma_from_int_exact(i: int)
    requires
        0 <= i < 0x8000_0000,
    ensures
        Fx::spec_from_int(i).raw == i * ONE_RAW,
        (Fx::spec_from_int(i).raw as int) / (ONE_RAW as int) == i,
        (Fx::spec_from_int(i).raw as int) % (ONE_RAW as int) == 0,
{
    let s = ONE_RAW as int;
    assert(0 <= i * s <= 0x7FFF_FFFF * 0x1_0000_0000) by (nonlinear_arith)
        requires
            0 <= i < 0x8000_0000,
            s == 0x1_0000_0000,
    ;
    vstd::arithmetic::div_mod::lemma_fundamental_div_mod_converse(i * s, s, i, 0);
}

} // verus!
