//! Pointer-driven forcing: a round splat of some amount is added to a field
//! around the pointer.

use vstd::prelude::*;
use vstd::arithmetic::div_mod::lemma_div_is_ordered;
use crate::fixed::{Fx, ONE_RAW, lemma_times_zero, lemma_zero_is_neutral, magnitude};
use crate::grid::{Grid, lemma_coords_of_index};

verus! {

/// The squared distance between the cell `(x, y)` and the point `(cx, cy)`.
pub open spec fn distance_squared(x: int, y: int, cx: Fx, cy: Fx) -> Fx {
    let dx = Fx::spec_from_int(x).minus(cx);
    let dy = Fx::spec_from_int(y).minus(cy);
    dx.times(dx).plus(dy.times(dy))
}

/// The weight of a cell whose squared distance from the pointer is `d2`, for
/// a splat of the given radius: `1 - d2 / (r*r + 1)` inside the disc and on
/// its rim, zero outside.
pub open spec fn falloff(d2: Fx, radius: Fx) -> Fx {
    let r2 = radius.times(radius);
    if d2.raw > r2.raw {
        Fx::zero()
    } else {
        Fx::one().minus(d2.over(r2.plus(Fx::one())))
    }
}

/// The value of the cell with row-major index `i` after a splat of `amount`
/// centred at `(cx, cy)`.
pub open spec fn splat_cell(
    f: Seq<Fx>,
    n: nat,
    cx: Fx,
    cy: Fx,
    radius: Fx,
    amount: Fx,
    i: int,
) -> Fx {
    let d2 = distance_squared(i % (n as int), i / (n as int), cx, cy);
    f[i].plus(amount.times(falloff(d2, radius)))
}

/// The field `f` after a splat of `amount` centred at `(cx, cy)`.
pub open spec fn splatted(f: Seq<Fx>, n: nat, cx: Fx, cy: Fx, radius: Fx, amount: Fx) -> Seq<Fx> {
    Seq::new(f.len(), |i: int| splat_cell(f, n, cx, cy, radius, amount, i))
}

/// The density of the initial blob at a cell whose squared distance from the
/// centre is `d2`: `1 - d2 / (r*r)` inside the disc, zero outside; a blob of
/// radius zero is empty.
pub open spec fn blob_value(d2: Fx, radius: Fx) -> Fx {
    let r2 = radius.times(radius);
    if r2.raw == 0 {
        Fx::zero()
    } else {
        let value = Fx::one().minus(d2.over(r2));
        if value.raw < 0 {
            Fx::zero()
        } else {
            value
        }
    }
}

/// The field of side `n` that holds a blob of the given radius around the
/// point `(cx, cy)`.
pub open spec fn blob(n: nat, cx: Fx, cy: Fx, radius: Fx) -> Seq<Fx> {
    Seq::new(
        n * n,
        |i: int| blob_value(distance_squared(i % (n as int), i / (n as int), cx, cy), radius),
    )
}

/// The weight of a cell whose squared distance from the pointer is `d2`.
pub fn weight(d2: Fx, radius: Fx) -> (w: Fx)
    ensures
        w == falloff(d2, radius),
{
    let r2: Fx = radius.times(radius);
    if d2.raw > r2.raw {
        Fx::zero()
    } else {
        let divisor: Fx = r2.plus(Fx::one());
        Fx::one().minus(d2.over(divisor))
    }
}

/// Writes to `out` the field with a splat of `amount` added around the point
/// `(cx, cy)`.
pub fn splat(field: &Grid<Fx>, cx: Fx, cy: Fx, radius: Fx, amount: Fx, out: &mut Grid<Fx>)
    requires
        field.wf(),
        old(out).wf(),
        old(out).spec_side() == field.spec_side(),
    ensures
        final(out).wf(),
        final(out).spec_side() == field.spec_side(),
        final(out)@ == splatted(field@, field.spec_side(), cx, cy, radius, amount),
{
    let n: usize = field.side();
    let total: usize = field.len();
    let mut i: usize = 0;
    while i < total
        invariant
            i <= total,
            total == field@.len(),
            n == field.spec_side(),
            field.wf(),
            out.wf(),
            out.spec_side() == n,
            forall|j: int|
                0 <= j < i ==> out@[j] == splat_cell(field@, n as nat, cx, cy, radius, amount, j),
        decreases total - i,
    {
        proof {
            lemma_coords_of_index(n as nat, i as int);
        }
        let dx: Fx = Fx::from_int((i % n) as i64).minus(cx);
        let dy: Fx = Fx::from_int((i / n) as i64).minus(cy);
        let d2: Fx = dx.times(dx).plus(dy.times(dy));
        let added: Fx = amount.times(weight(d2, radius));
        out.set_index(i, field.get_index(i).plus(added));
        i += 1;
    }
    assert(out@ =~= splatted(field@, n as nat, cx, cy, radius, amount));
}

/// Writes to `out` a blob of the given radius around the point `(cx, cy)`.
pub fn fill_blob(cx: Fx, cy: Fx, radius: Fx, out: &mut Grid<Fx>)
    requires
        old(out).wf(),
    ensures
        final(out).wf(),
        final(out).spec_side() == old(out).spec_side(),
        final(out)@ == blob(old(out).spec_side(), cx, cy, radius),
{
    let n: usize = out.side();
    let total: usize = out.len();
    let r2: Fx = radius.times(radius);
    let mut i: usize = 0;
    while i < total
        invariant
            i <= total,
            total == n * n,
            n == old(out).spec_side(),
            out.wf(),
            out.spec_side() == n,
            r2 == radius.times(radius),
            forall|j: int|
                0 <= j < i ==> out@[j] == blob_value(
                    distance_squared(j % (n as int), j / (n as int), cx, cy),
                    radius,
                ),
        decreases total - i,
    {
        proof {
            lemma_coords_of_index(n as nat, i as int);
        }
        let dx: Fx = Fx::from_int((i % n) as i64).minus(cx);
        let dy: Fx = Fx::from_int((i / n) as i64).minus(cy);
        let d2: Fx = dx.times(dx).plus(dy.times(dy));
        let mut value: Fx = Fx::zero();
        if r2.raw != 0 {
            let inside: Fx = Fx::one().minus(d2.over(r2));
            if inside.raw >= 0 {
                value = inside;
            }
        }
        out.set_index(i, value);
        i += 1;
    }
    assert(out@ =~= blob(n as nat, cx, cy, radius));
}

/// A squared distance is never negative.
pub proof fn lemma_distance_squared_sign(x: int, y: int, cx: Fx, cy: Fx)
    ensures
        distance_squared(x, y, cx, cy).raw >= 0,
{
    let dx = Fx::spec_from_int(x).minus(cx);
    let dy = Fx::spec_from_int(y).minus(cy);
    assert(magnitude(dx.raw as int) * magnitude(dx.raw as int) >= 0) by (nonlinear_arith);
    assert(magnitude(dy.raw as int) * magnitude(dy.raw as int) >= 0) by (nonlinear_arith);
}

proof fn lemma_falloff_inside(d2: Fx, radius: Fx)
    requires
        0 <= d2.raw <= radius.times(radius).raw,
    ensures
        falloff(d2, radius).raw == ONE_RAW - (d2.raw as int) * (ONE_RAW as int) / (radius.times(
            radius,
        ).plus(Fx::one()).raw as int),
        0 < radius.times(radius).plus(Fx::one()).raw,
        0 <= (d2.raw as int) * (ONE_RAW as int) / (radius.times(radius).plus(Fx::one()).raw as int)
            <= ONE_RAW,
{
    let s = ONE_RAW as int;
    let r2 = radius.times(radius);
    let divisor = r2.plus(Fx::one()).raw as int;
    let d = d2.raw as int;
    assert(divisor >= s && divisor >= d);
    let q = d * s / divisor;
    assert(0 <= d * s <= s * divisor) by (nonlinear_arith)
        requires
            0 <= d <= divisor,
            s > 0,
    ;
    lemma_div_is_ordered(0, d * s, divisor);
    lemma_div_is_ordered(d * s, s * divisor, divisor);
    vstd::arithmetic::div_mod::lemma_div_multiples_vanish(s, divisor);
    assert(divisor * s == s * divisor) by (nonlinear_arith);
    assert(0int / divisor == 0);
}

/// The weight is one at the centre of the splat, zero beyond its radius, and
/// between zero and one everywhere.
pub proof fn lemma_falloff_profile(d2: Fx, radius: Fx)
    requires
        d2.raw >= 0,
    ensures
        0 <= falloff(d2, radius).raw <= ONE_RAW,
        d2.raw == 0 ==> falloff(d2, radius) == Fx::one(),
        d2.raw > radius.times(radius).raw ==> falloff(d2, radius) == Fx::zero(),
{
    if d2.raw <= radius.times(radius).raw {
        lemma_falloff_inside(d2, radius);
        if d2.raw == 0 {
            assert(0 * (ONE_RAW as int) == 0);
        }
    }
}

/// The weight never grows with the distance.
pub proof fn lemma_falloff_decreases(near: Fx, far: Fx, radius: Fx)
    requires
        0 <= near.raw <= far.raw,
    ensures
        falloff(near, radius).raw >= falloff(far, radius).raw,
{
    lemma_falloff_profile(near, radius);
    if far.raw <= radius.times(radius).raw {
        lemma_falloff_inside(near, radius);
        lemma_falloff_inside(far, radius);
        let s = ONE_RAW as int;
        let divisor = radius.times(radius).plus(Fx::one()).raw as int;
        assert(near.raw * s <= far.raw * s) by (nonlinear_arith)
            requires
                near.raw <= far.raw,
                s > 0,
        ;
        lemma_div_is_ordered(near.raw * s, far.raw * s, divisor);
    }
}

/// The blob is one at its centre, zero from its radius on, and between zero
/// and one everywhere.
pub proof fn lemma_blob_profile(d2: Fx, radius: Fx)
    requires
        d2.raw >= 0,
    ensures
        0 <= blob_value(d2, radius).raw <= ONE_RAW,
        d2.raw == 0 && radius.times(radius).raw != 0 ==> blob_value(d2, radius) == Fx::one(),
        d2.raw >= radius.times(radius).raw ==> blob_value(d2, radius) == Fx::zero(),
{
    let s = ONE_RAW as int;
    let r2 = radius.times(radius).raw as int;
    let d = d2.raw as int;
    assert(magnitude(radius.raw as int) * magnitude(radius.raw as int) >= 0) by (nonlinear_arith);
    if r2 != 0 {
        assert(d * s >= 0) by (nonlinear_arith)
            requires
                d >= 0,
                s > 0,
        ;
        lemma_div_is_ordered(0, d * s, r2);
        assert(0int / r2 == 0);
        assert(r2 * s == s * r2) by (nonlinear_arith);
        vstd::arithmetic::div_mod::lemma_div_multiples_vanish(s, r2);
        if d >= r2 {
            assert(r2 * s <= d * s) by (nonlinear_arith)
                requires
                    r2 <= d,
                    s > 0,
            ;
            lemma_div_is_ordered(r2 * s, d * s, r2);
        }
        if d == 0 {
            assert(0 * s == 0);
        }
    }
}

/// A splat leaves every cell beyond its radius as it was.
pub proof fn lemma_splat_reaches_no_further(
    f: Seq<Fx>,
    n: nat,
    cx: Fx,
    cy: Fx,
    radius: Fx,
    amount: Fx,
    i: int,
)
    requires
        0 <= i < f.len(),
        distance_squared(i % (n as int), i / (n as int), cx, cy).raw > radius.times(radius).raw,
    ensures
        splatted(f, n, cx, cy, radius, amount)[i] == f[i],
{
    lemma_times_zero(amount);
    lemma_zero_is_neutral(f[i]);
}

} // verus!
