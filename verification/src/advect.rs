//! Semi-Lagrangian transport: every cell takes the value found where the flow
//! came from one time step ago.

use vstd::prelude::*;
use crate::fixed::{
    Fx, ONE_RAW, bounded, lemma_from_int_exact, lemma_plus_magnitude, lemma_times_one,
    lemma_times_weight, lemma_times_zero, lemma_zero_is_neutral, magnitude,
};
use crate::grid::{
    Grid, cell_index, clamp_coord, is_field, lemma_coords_of_index, lemma_index_in_range, lookup,
    zero_field,
};

verus! {

/// The whole part of a non-negative fixed-point number.
pub open spec fn whole_part(p: Fx) -> int {
    (p.raw as int) / (ONE_RAW as int)
}

/// What a non-negative fixed-point number has beyond its whole part.
pub open spec fn fraction_part(p: Fx) -> Fx {
    Fx { raw: ((p.raw as int) % (ONE_RAW as int)) as i64 }
}

/// A position limited to the span between the first and the last cell centre.
pub open spec fn clamp_position(n: nat, p: Fx) -> Fx {
    p.clamped(Fx::zero(), Fx::spec_from_int(n - 1))
}

/// The field at the position `(px, py)`: the position is clamped to the grid,
/// and the four cells around it are blended with the weights
/// `(1-fx)(1-fy)`, `fx(1-fy)`, `(1-fx)fy` and `fx*fy`, where `(fx, fy)` is the
/// offset of the position within its cell.
pub open spec fn bilinear(f: Seq<Fx>, n: nat, px: Fx, py: Fx) -> Fx {
    let cx = clamp_position(n, px);
    let cy = clamp_position(n, py);
    let x0 = whole_part(cx);
    let y0 = whole_part(cy);
    let fx = fraction_part(cx);
    let fy = fraction_part(cy);
    let gx = Fx::one().minus(fx);
    let gy = Fx::one().minus(fy);
    lookup(f, n, x0, y0).times(gx.times(gy)).plus(lookup(f, n, x0 + 1, y0).times(fx.times(gy))).plus(
        lookup(f, n, x0, y0 + 1).times(gx.times(fy)),
    ).plus(lookup(f, n, x0 + 1, y0 + 1).times(fx.times(fy)))
}

/// Where the content of coordinate `c` was one step ago, along one axis.
pub open spec fn departure(c: int, velocity: Fx, dt: Fx) -> Fx {
    Fx::spec_from_int(c).minus(dt.times(velocity))
}

/// The transported value of the cell with row-major index `i`.
pub open spec fn advect_cell(f: Seq<Fx>, u: Seq<Fx>, v: Seq<Fx>, n: nat, dt: Fx, i: int) -> Fx {
    bilinear(f, n, departure(i % (n as int), u[i], dt), departure(i / (n as int), v[i], dt))
}

/// The field `f` transported for one step `dt` by the velocity `(u, v)`.
pub open spec fn advected(f: Seq<Fx>, u: Seq<Fx>, v: Seq<Fx>, n: nat, dt: Fx) -> Seq<Fx> {
    Seq::new(f.len(), |i: int| advect_cell(f, u, v, n, dt, i))
}

/// Samples the field at the position `(px, py)`. Any position is accepted:
/// one outside the grid is moved to the nearest point of it first.
pub fn sample(field: &Grid<Fx>, px: Fx, py: Fx) -> (r: Fx)
    requires
        field.wf(),
    ensures
        r == bilinear(field@, field.spec_side(), px, py),
{
    let n: usize = field.side();
    let last: Fx = Fx::from_int((n - 1) as i64);
    let cx: Fx = px.clamped(Fx::zero(), last);
    let cy: Fx = py.clamped(Fx::zero(), last);
    let rx: u64 = cx.raw as u64;
    let ry: u64 = cy.raw as u64;
    let x0: i64 = (rx / 0x1_0000_0000) as i64;
    let y0: i64 = (ry / 0x1_0000_0000) as i64;
    let fx: Fx = Fx::from_raw((rx % 0x1_0000_0000) as i64);
    let fy: Fx = Fx::from_raw((ry % 0x1_0000_0000) as i64);
    let gx: Fx = Fx::one().minus(fx);
    let gy: Fx = Fx::one().minus(fy);
    let f00: Fx = field.get_clamped(x0, y0);
    let f10: Fx = field.get_clamped(x0 + 1, y0);
    let f01: Fx = field.get_clamped(x0, y0 + 1);
    let f11: Fx = field.get_clamped(x0 + 1, y0 + 1);
    f00.times(gx.times(gy)).plus(f10.times(fx.times(gy))).plus(f01.times(gx.times(fy))).plus(
        f11.times(fx.times(fy)),
    )
}

/// Transports `field` for one step `dt` by the velocity `(u, v)` and writes
/// the result to `out`. No cell of `out` is read.
pub fn advect(field: &Grid<Fx>, u: &Grid<Fx>, v: &Grid<Fx>, dt: Fx, out: &mut Grid<Fx>)
    requires
        field.wf(),
        u.wf(),
        v.wf(),
        old(out).wf(),
        u.spec_side() == field.spec_side(),
        v.spec_side() == field.spec_side(),
        old(out).spec_side() == field.spec_side(),
    ensures
        final(out).wf(),
        final(out).spec_side() == field.spec_side(),
        final(out)@ == advected(field@, u@, v@, field.spec_side(), dt),
{
    let n: usize = field.side();
    let total: usize = field.len();
    let mut i: usize = 0;
    while i < total
        invariant
            i <= total,
            total == n * n,
            n == field.spec_side(),
            field.wf(),
            u.wf(),
            v.wf(),
            out.wf(),
            u.spec_side() == n,
            v.spec_side() == n,
            out.spec_side() == n,
            forall|j: int| 0 <= j < i ==> out@[j] == advect_cell(field@, u@, v@, n as nat, dt, j),
        decreases total - i,
    {
        proof {
            lemma_coords_of_index(n as nat, i as int);
        }
        let x: usize = i % n;
        let y: usize = i / n;
        let px: Fx = Fx::from_int(x as i64).minus(dt.times(u.get_index(i)));
        let py: Fx = Fx::from_int(y as i64).minus(dt.times(v.get_index(i)));
        let value: Fx = sample(field, px, py);
        out.set_index(i, value);
        i += 1;
    }
    assert(out@ =~= advected(field@, u@, v@, n as nat, dt));
}

/// Sampling clamps: a position outside the grid gives what the nearest point
/// of the grid gives, and the cell that the sample starts from lies in the
/// grid.
pub proof fn lemma_sample_is_clamped(f: Seq<Fx>, n: nat, px: Fx, py: Fx)
    requires
        is_field(f, n),
    ensures
        bilinear(f, n, px, py) == bilinear(f, n, clamp_position(n, px), clamp_position(n, py)),
        0 <= whole_part(clamp_position(n, px)) <= n - 1,
        0 <= whole_part(clamp_position(n, py)) <= n - 1,
        px.raw <= 0 ==> clamp_position(n, px) == Fx::zero(),
        px.raw >= Fx::spec_from_int(n - 1).raw ==> clamp_position(n, px) == Fx::spec_from_int(
            n - 1,
        ),
        py.raw <= 0 ==> clamp_position(n, py) == Fx::zero(),
        py.raw >= Fx::spec_from_int(n - 1).raw ==> clamp_position(n, py) == Fx::spec_from_int(
            n - 1,
        ),
{
    lemma_from_int_exact(n - 1);
    let s = ONE_RAW as int;
    let hi = (n - 1) * s;
    let cx = clamp_position(n, px).raw as int;
    let cy = clamp_position(n, py).raw as int;
    assert(0 <= cx <= hi && 0 <= cy <= hi);
    assert(0 <= cx / s <= n - 1) by (nonlinear_arith)
        requires
            0 <= cx <= (n - 1) * s,
            s == 0x1_0000_0000,
    ;
    assert(0 <= cy / s <= n - 1) by (nonlinear_arith)
        requires
            0 <= cy <= (n - 1) * s,
            s == 0x1_0000_0000,
    ;
}

/// A sample is never larger in magnitude than the largest value of the
/// field: the four weights are not negative and add up to one at most.
pub proof fn lemma_sample_bounded(f: Seq<Fx>, n: nat, px: Fx, py: Fx, m: int)
    requires
        is_field(f, n),
        bounded(f, m),
    ensures
        magnitude(bilinear(f, n, px, py).raw as int) <= m,
{
    let s = ONE_RAW as int;
    lemma_sample_is_clamped(f, n, px, py);
    let cx = clamp_position(n, px);
    let cy = clamp_position(n, py);
    let x0 = whole_part(cx);
    let y0 = whole_part(cy);
    let fx = fraction_part(cx);
    let fy = fraction_part(cy);
    vstd::arithmetic::div_mod::lemma_mod_pos_bound(cx.raw as int, s);
    vstd::arithmetic::div_mod::lemma_mod_pos_bound(cy.raw as int, s);
    let gx = Fx::one().minus(fx);
    let gy = Fx::one().minus(fy);
    assert(gx.raw == s - fx.raw && gy.raw == s - fy.raw);
    let w00 = gx.times(gy);
    let w10 = fx.times(gy);
    let w01 = gx.times(fy);
    let w11 = fx.times(fy);
    lemma_times_weight(gx, gy);
    lemma_times_weight(fx, gy);
    lemma_times_weight(gx, fy);
    lemma_times_weight(fx, fy);
    let a = gx.raw as int;
    let b = fx.raw as int;
    let c = gy.raw as int;
    let d = fy.raw as int;
    assert(a * c + b * c + a * d + b * d == s * s) by (nonlinear_arith)
        requires
            a + b == s,
            c + d == s,
    ;
    let v00 = w00.raw as int;
    let v10 = w10.raw as int;
    let v01 = w01.raw as int;
    let v11 = w11.raw as int;
    let total = v00 + v10 + v01 + v11;
    assert(total * s == v00 * s + v10 * s + v01 * s + v11 * s) by (nonlinear_arith)
        requires
            total == v00 + v10 + v01 + v11,
    ;
    assert(total <= s) by (nonlinear_arith)
        requires
            total * s <= s * s,
            s > 0,
    ;
    lemma_index_in_range(n, clamp_coord(n, x0), clamp_coord(n, y0));
    lemma_index_in_range(n, clamp_coord(n, x0 + 1), clamp_coord(n, y0));
    lemma_index_in_range(n, clamp_coord(n, x0), clamp_coord(n, y0 + 1));
    lemma_index_in_range(n, clamp_coord(n, x0 + 1), clamp_coord(n, y0 + 1));
    let f00 = lookup(f, n, x0, y0);
    let f10 = lookup(f, n, x0 + 1, y0);
    let f01 = lookup(f, n, x0, y0 + 1);
    let f11 = lookup(f, n, x0 + 1, y0 + 1);
    lemma_times_weight(f00, w00);
    lemma_times_weight(f10, w10);
    lemma_times_weight(f01, w01);
    lemma_times_weight(f11, w11);
    let t00 = magnitude(f00.times(w00).raw as int);
    let t10 = magnitude(f10.times(w10).raw as int);
    let t01 = magnitude(f01.times(w01).raw as int);
    let t11 = magnitude(f11.times(w11).raw as int);
    let m00 = magnitude(f00.raw as int);
    let m10 = magnitude(f10.raw as int);
    let m01 = magnitude(f01.raw as int);
    let m11 = magnitude(f11.raw as int);
    assert(m00 * v00 <= m * v00 && m10 * v10 <= m * v10 && m01 * v01 <= m * v01 && m11 * v11 <= m
        * v11) by (nonlinear_arith)
        requires
            m00 <= m,
            m10 <= m,
            m01 <= m,
            m11 <= m,
            0 <= v00,
            0 <= v10,
            0 <= v01,
            0 <= v11,
    ;
    assert(m * total == m * v00 + m * v10 + m * v01 + m * v11) by (nonlinear_arith)
        requires
            total == v00 + v10 + v01 + v11,
    ;
    let sum = t00 + t10 + t01 + t11;
    assert(sum * s == t00 * s + t10 * s + t01 * s + t11 * s) by (nonlinear_arith)
        requires
            sum == t00 + t10 + t01 + t11,
    ;
    assert(m * total <= m * s) by (nonlinear_arith)
        requires
            total <= s,
            0 <= m,
    ;
    assert(sum <= m) by (nonlinear_arith)
        requires
            sum * s <= m * s,
            s > 0,
    ;
    let s1 = f00.times(w00).plus(f10.times(w10));
    let s2 = s1.plus(f01.times(w01));
    lemma_plus_magnitude(f00.times(w00), f10.times(w10));
    lemma_plus_magnitude(s1, f01.times(w01));
    lemma_plus_magnitude(s2, f11.times(w11));
}

/// Transport never raises the largest magnitude of a field, whatever the
/// velocity and the time step.
pub proof fn lemma_advect_bounded(f: Seq<Fx>, u: Seq<Fx>, v: Seq<Fx>, n: nat, dt: Fx, m: int)
    requires
        is_field(f, n),
        bounded(f, m),
    ensures
        bounded(advected(f, u, v, n, dt), m),
{
    assert forall|i: int| 0 <= i < f.len() implies magnitude(
        (#[trigger] advected(f, u, v, n, dt)[i]).raw as int,
    ) <= m by {
        lemma_sample_bounded(
            f,
            n,
            departure(i % (n as int), u[i], dt),
            departure(i / (n as int), v[i], dt),
            m,
        );
    }
}

/// Sampling exactly at the centre of a cell gives the value of that cell.
pub proof fn lemma_sample_at_cell(f: Seq<Fx>, n: nat, x: int, y: int)
    requires
        is_field(f, n),
        0 <= x < n,
        0 <= y < n,
    ensures
        bilinear(f, n, Fx::spec_from_int(x), Fx::spec_from_int(y)) == f[cell_index(n, x, y)],
{
    let s = ONE_RAW as int;
    lemma_from_int_exact(x);
    lemma_from_int_exact(y);
    lemma_from_int_exact(n - 1);
    assert(x * s <= (n - 1) * s && y * s <= (n - 1) * s) by (nonlinear_arith)
        requires
            0 <= x < n,
            0 <= y < n,
            s == 0x1_0000_0000,
    ;
    let px = Fx::spec_from_int(x);
    let py = Fx::spec_from_int(y);
    assert(clamp_position(n, px) == px);
    assert(clamp_position(n, py) == py);
    assert(whole_part(px) == x && whole_part(py) == y);
    assert(fraction_part(px) == Fx::zero() && fraction_part(py) == Fx::zero());
    lemma_zero_is_neutral(Fx::one());
    lemma_times_one(Fx::one());
    lemma_times_zero(Fx::one());
    lemma_times_zero(Fx::zero());
    let f00 = lookup(f, n, x, y);
    let f10 = lookup(f, n, x + 1, y);
    let f01 = lookup(f, n, x, y + 1);
    let f11 = lookup(f, n, x + 1, y + 1);
    lemma_times_one(f00);
    lemma_times_zero(f10);
    lemma_times_zero(f01);
    lemma_times_zero(f11);
    lemma_zero_is_neutral(f00);
}

/// A field transported through a fluid at rest stays as it is, whatever the
/// time step.
pub proof fn lemma_advect_through_still_fluid(f: Seq<Fx>, n: nat, dt: Fx)
    requires
        is_field(f, n),
    ensures
        advected(f, zero_field(n), zero_field(n), n, dt) == f,
{
    let z = zero_field(n);
    assert forall|i: int| 0 <= i < f.len() implies advect_cell(f, z, z, n, dt, i) == f[i] by {
        lemma_coords_of_index(n, i);
        let x = i % (n as int);
        let y = i / (n as int);
        lemma_times_zero(dt);
        lemma_zero_is_neutral(Fx::spec_from_int(x));
        lemma_zero_is_neutral(Fx::spec_from_int(y));
        lemma_sample_at_cell(f, n, x, y);
    }
    assert(advected(f, z, z, n, dt) =~= f);
}

} // verus!
