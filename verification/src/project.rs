//! Pressure projection: the part of a velocity field that makes it compress or
//! expand is found as the gradient of a pressure and taken away.

use vstd::prelude::*;
use crate::fixed::{Fx, lemma_fractions_of_zero, lemma_zero_is_neutral};
use crate::grid::{
    DoubleBuffered, Grid, clamp_coord, is_field, lemma_coords_of_index, lemma_index_in_range,
    lookup, uniform_field, zero_field,
};

verus! {

/// One of the two directions of the grid.
#[derive(Clone, Copy, Debug, PartialEq, Eq, Structural)]
pub enum Axis {
    X,
    Y,
}

/// The value of the next cell along `axis` minus that of the previous one,
/// seen from the cell with row-major index `i`. At an edge the missing
/// neighbour is the edge cell itself.
pub open spec fn difference(f: Seq<Fx>, n: nat, axis: Axis, i: int) -> Fx {
    let x = i % (n as int);
    let y = i / (n as int);
    match axis {
        Axis::X => lookup(f, n, x + 1, y).minus(lookup(f, n, x - 1, y)),
        Axis::Y => lookup(f, n, x, y + 1).minus(lookup(f, n, x, y - 1)),
    }
}

/// The divergence of the velocity `(u, v)` at one cell: half the sum of the
/// central differences of `u` along x and of `v` along y.
pub open spec fn divergence_cell(u: Seq<Fx>, v: Seq<Fx>, n: nat, i: int) -> Fx {
    difference(u, n, Axis::X, i).plus(difference(v, n, Axis::Y, i)).halved()
}

/// The divergence of the velocity `(u, v)` at every cell.
pub open spec fn divergence_of(u: Seq<Fx>, v: Seq<Fx>, n: nat) -> Seq<Fx> {
    Seq::new(u.len(), |i: int| divergence_cell(u, v, n, i))
}

/// One Jacobi update of the pressure at one cell: a quarter of the sum of the
/// four neighbours less the divergence.
pub open spec fn relax_cell(p: Seq<Fx>, div: Seq<Fx>, n: nat, i: int) -> Fx {
    let x = i % (n as int);
    let y = i / (n as int);
    lookup(p, n, x - 1, y).plus(lookup(p, n, x + 1, y)).plus(lookup(p, n, x, y - 1)).plus(
        lookup(p, n, x, y + 1),
    ).minus(div[i]).quartered()
}

/// One Jacobi sweep: every cell is updated from the previous iterate alone.
pub open spec fn relaxed(p: Seq<Fx>, div: Seq<Fx>, n: nat) -> Seq<Fx> {
    Seq::new(p.len(), |i: int| relax_cell(p, div, n, i))
}

/// The iterate after `k` Jacobi sweeps that start from `p`.
pub open spec fn relaxed_times(p: Seq<Fx>, div: Seq<Fx>, n: nat, k: nat) -> Seq<Fx>
    decreases k,
{
    if k == 0 {
        p
    } else {
        relaxed(relaxed_times(p, div, n, (k - 1) as nat), div, n)
    }
}

/// The pressure found for a divergence by `k` sweeps that start from zero.
pub open spec fn pressure_for(div: Seq<Fx>, n: nat, k: nat) -> Seq<Fx> {
    relaxed_times(zero_field(n), div, n, k)
}

/// One velocity component with the pressure gradient along its axis taken
/// away: each cell loses half the central difference of the pressure.
pub open spec fn without_gradient(w: Seq<Fx>, p: Seq<Fx>, n: nat, axis: Axis) -> Seq<Fx> {
    Seq::new(w.len(), |i: int| w[i].minus(difference(p, n, axis, i).halved()))
}

/// The velocity component along `axis` after the projection of `(u, v)` with
/// `k` pressure sweeps.
pub open spec fn projected(u: Seq<Fx>, v: Seq<Fx>, n: nat, k: nat, axis: Axis) -> Seq<Fx> {
    let p = pressure_for(divergence_of(u, v, n), n, k);
    match axis {
        Axis::X => without_gradient(u, p, n, Axis::X),
        Axis::Y => without_gradient(v, p, n, Axis::Y),
    }
}

fn central_difference(f: &Grid<Fx>, axis: Axis, i: usize) -> (r: Fx)
    requires
        f.wf(),
        i < f@.len(),
    ensures
        r == difference(f@, f.spec_side(), axis, i as int),
{
    let n: usize = f.side();
    proof {
        lemma_coords_of_index(n as nat, i as int);
    }
    let x: i64 = (i % n) as i64;
    let y: i64 = (i / n) as i64;
    match axis {
        Axis::X => f.get_clamped(x + 1, y).minus(f.get_clamped(x - 1, y)),
        Axis::Y => f.get_clamped(x, y + 1).minus(f.get_clamped(x, y - 1)),
    }
}

/// Writes the divergence of the velocity `(u, v)` to `out`.
pub fn divergence(u: &Grid<Fx>, v: &Grid<Fx>, out: &mut Grid<Fx>)
    requires
        u.wf(),
        v.wf(),
        old(out).wf(),
        v.spec_side() == u.spec_side(),
        old(out).spec_side() == u.spec_side(),
    ensures
        final(out).wf(),
        final(out).spec_side() == u.spec_side(),
        final(out)@ == divergence_of(u@, v@, u.spec_side()),
{
    let total: usize = u.len();
    let mut i: usize = 0;
    while i < total
        invariant
            i <= total,
            total == u@.len(),
            u.wf(),
            v.wf(),
            out.wf(),
            v.spec_side() == u.spec_side(),
            out.spec_side() == u.spec_side(),
            forall|j: int| 0 <= j < i ==> out@[j] == divergence_cell(u@, v@, u.spec_side(), j),
        decreases total - i,
    {
        let du: Fx = central_difference(u, Axis::X, i);
        let dv: Fx = central_difference(v, Axis::Y, i);
        out.set_index(i, du.plus(dv).halved());
        i += 1;
    }
    assert(out@ =~= divergence_of(u@, v@, u.spec_side()));
}

/// Writes one Jacobi sweep over the pressure `p` to `out`.
pub fn relax(p: &Grid<Fx>, div: &Grid<Fx>, out: &mut Grid<Fx>)
    requires
        p.wf(),
        div.wf(),
        old(out).wf(),
        div.spec_side() == p.spec_side(),
        old(out).spec_side() == p.spec_side(),
    ensures
        final(out).wf(),
        final(out).spec_side() == p.spec_side(),
        final(out)@ == relaxed(p@, div@, p.spec_side()),
{
    let n: usize = p.side();
    let total: usize = p.len();
    let mut i: usize = 0;
    while i < total
        invariant
            i <= total,
            total == p@.len(),
            n == p.spec_side(),
            p.wf(),
            div.wf(),
            out.wf(),
            div.spec_side() == n,
            out.spec_side() == n,
            forall|j: int| 0 <= j < i ==> out@[j] == relax_cell(p@, div@, n as nat, j),
        decreases total - i,
    {
        proof {
            lemma_coords_of_index(n as nat, i as int);
        }
        let x: i64 = (i % n) as i64;
        let y: i64 = (i / n) as i64;
        let sum: Fx = p.get_clamped(x - 1, y).plus(p.get_clamped(x + 1, y)).plus(
            p.get_clamped(x, y - 1),
        ).plus(p.get_clamped(x, y + 1));
        out.set_index(i, sum.minus(div.get_index(i)).quartered());
        i += 1;
    }
    assert(out@ =~= relaxed(p@, div@, n as nat));
}

/// Solves for the pressure of the divergence `div` with `sweeps` Jacobi
/// sweeps that start from zero. Each sweep reads the committed generation,
/// writes the staged one and commits it.
pub fn solve_pressure(pressure: &mut DoubleBuffered<Fx>, div: &Grid<Fx>, sweeps: u32)
    requires
        old(pressure).wf(),
        div.wf(),
        div.spec_side() == old(pressure).spec_side(),
    ensures
        final(pressure).wf(),
        final(pressure).spec_side() == old(pressure).spec_side(),
        final(pressure).committed()@ == pressure_for(
            div@,
            old(pressure).spec_side(),
            sweeps as nat,
        ),
{
    let ghost n: nat = pressure.spec_side();
    {
        let (_, staged) = pressure.parts();
        staged.fill(Fx::zero());
    }
    pressure.commit();
    assert(pressure.committed()@ =~= zero_field(n));
    let mut done: u32 = 0;
    while done < sweeps
        invariant
            done <= sweeps,
            pressure.wf(),
            pressure.spec_side() == n,
            div.wf(),
            div.spec_side() == n,
            pressure.committed()@ == relaxed_times(zero_field(n), div@, n, done as nat),
        decreases sweeps - done,
    {
        {
            let (current, staged) = pressure.parts();
            relax(current, div, staged);
        }
        pressure.commit();
        done += 1;
    }
}

/// Writes to `out` the velocity component `w`, which lies along `axis`, with
/// the gradient of the pressure `p` along that axis taken away.
pub fn subtract_gradient(w: &Grid<Fx>, p: &Grid<Fx>, axis: Axis, out: &mut Grid<Fx>)
    requires
        w.wf(),
        p.wf(),
        old(out).wf(),
        p.spec_side() == w.spec_side(),
        old(out).spec_side() == w.spec_side(),
    ensures
        final(out).wf(),
        final(out).spec_side() == w.spec_side(),
        final(out)@ == without_gradient(w@, p@, w.spec_side(), axis),
{
    let total: usize = w.len();
    let mut i: usize = 0;
    while i < total
        invariant
            i <= total,
            total == w@.len(),
            w.wf(),
            p.wf(),
            out.wf(),
            p.spec_side() == w.spec_side(),
            out.spec_side() == w.spec_side(),
            forall|j: int|
                0 <= j < i ==> out@[j] == w@[j].minus(
                    difference(p@, w.spec_side(), axis, j).halved(),
                ),
        decreases total - i,
    {
        let slope: Fx = central_difference(p, axis, i).halved();
        out.set_index(i, w.get_index(i).minus(slope));
        i += 1;
    }
    assert(out@ =~= without_gradient(w@, p@, w.spec_side(), axis));
}

/// Projects the committed velocity `(u, v)`: computes its divergence, solves
/// for the pressure with `sweeps` Jacobi sweeps and commits the velocity
/// without the pressure gradient.
pub fn project(
    u: &mut DoubleBuffered<Fx>,
    v: &mut DoubleBuffered<Fx>,
    pressure: &mut DoubleBuffered<Fx>,
    div: &mut DoubleBuffered<Fx>,
    sweeps: u32,
)
    requires
        old(u).wf(),
        old(v).wf(),
        old(pressure).wf(),
        old(div).wf(),
        old(v).spec_side() == old(u).spec_side(),
        old(pressure).spec_side() == old(u).spec_side(),
        old(div).spec_side() == old(u).spec_side(),
    ensures
        final(u).wf(),
        final(v).wf(),
        final(pressure).wf(),
        final(div).wf(),
        final(u).spec_side() == old(u).spec_side(),
        final(v).spec_side() == old(u).spec_side(),
        final(pressure).spec_side() == old(u).spec_side(),
        final(div).spec_side() == old(u).spec_side(),
        final(div).committed()@ == divergence_of(
            old(u).committed()@,
            old(v).committed()@,
            old(u).spec_side(),
        ),
        final(pressure).committed()@ == pressure_for(
            final(div).committed()@,
            old(u).spec_side(),
            sweeps as nat,
        ),
        final(u).committed()@ == projected(
            old(u).committed()@,
            old(v).committed()@,
            old(u).spec_side(),
            sweeps as nat,
            Axis::X,
        ),
        final(v).committed()@ == projected(
            old(u).committed()@,
            old(v).committed()@,
            old(u).spec_side(),
            sweeps as nat,
            Axis::Y,
        ),
{
    {
        let (_, staged) = div.parts();
        divergence(u.current(), v.current(), staged);
    }
    div.commit();
    solve_pressure(pressure, div.current(), sweeps);
    {
        let (current, staged) = u.parts();
        subtract_gradient(current, pressure.current(), Axis::X, staged);
    }
    {
        let (current, staged) = v.parts();
        subtract_gradient(current, pressure.current(), Axis::Y, staged);
    }
    u.commit();
    v.commit();
}

/// Every lookup in a uniform field gives its one value.
pub proof fn lemma_lookup_uniform(n: nat, c: Fx, x: int, y: int)
    requires
        0 < n,
    ensures
        lookup(uniform_field(n, c), n, x, y) == c,
{
    lemma_index_in_range(n, clamp_coord(n, x), clamp_coord(n, y));
}

/// A uniform field has no differences along either axis.
pub proof fn lemma_difference_of_uniform(n: nat, c: Fx, axis: Axis, i: int)
    requires
        0 < n,
    ensures
        difference(uniform_field(n, c), n, axis, i) == Fx::zero(),
{
    let x = i % (n as int);
    let y = i / (n as int);
    lemma_lookup_uniform(n, c, x + 1, y);
    lemma_lookup_uniform(n, c, x - 1, y);
    lemma_lookup_uniform(n, c, x, y + 1);
    lemma_lookup_uniform(n, c, x, y - 1);
}

/// Where nothing diverges, the pressure stays zero through every sweep.
pub proof fn lemma_pressure_without_divergence(n: nat, k: nat)
    requires
        0 < n,
    ensures
        pressure_for(zero_field(n), n, k) == zero_field(n),
    decreases k,
{
    let z = zero_field(n);
    if k > 0 {
        lemma_pressure_without_divergence(n, (k - 1) as nat);
        assert forall|i: int| 0 <= i < n * n implies relax_cell(z, z, n, i) == Fx::zero() by {
            let x = i % (n as int);
            let y = i / (n as int);
            lemma_lookup_uniform(n, Fx::zero(), x + 1, y);
            lemma_lookup_uniform(n, Fx::zero(), x - 1, y);
            lemma_lookup_uniform(n, Fx::zero(), x, y + 1);
            lemma_lookup_uniform(n, Fx::zero(), x, y - 1);
            lemma_fractions_of_zero();
        }
        assert(relaxed(z, z, n) =~= z);
    }
}

/// Taking away the gradient of a zero pressure changes nothing.
pub proof fn lemma_gradient_of_zero_pressure(w: Seq<Fx>, n: nat, axis: Axis)
    requires
        is_field(w, n),
    ensures
        without_gradient(w, zero_field(n), n, axis) == w,
{
    assert forall|i: int| 0 <= i < w.len() implies w[i].minus(
        difference(zero_field(n), n, axis, i).halved(),
    ) == w[i] by {
        lemma_difference_of_uniform(n, Fx::zero(), axis, i);
        lemma_fractions_of_zero();
        lemma_zero_is_neutral(w[i]);
    }
    assert(without_gradient(w, zero_field(n), n, axis) =~= w);
}

/// The projection leaves a velocity alone whose divergence is zero at every
/// cell, whatever the number of sweeps.
pub proof fn lemma_project_divergence_free(u: Seq<Fx>, v: Seq<Fx>, n: nat, k: nat)
    requires
        is_field(u, n),
        is_field(v, n),
        divergence_of(u, v, n) == zero_field(n),
    ensures
        pressure_for(divergence_of(u, v, n), n, k) == zero_field(n),
        projected(u, v, n, k, Axis::X) == u,
        projected(u, v, n, k, Axis::Y) == v,
{
    lemma_pressure_without_divergence(n, k);
    lemma_gradient_of_zero_pressure(u, n, Axis::X);
    lemma_gradient_of_zero_pressure(v, n, Axis::Y);
}

/// The projection leaves a uniform flow alone: a velocity that is the same at
/// every cell has no divergence, so the pressure is zero. A fluid at rest is
/// the uniform flow of velocity zero.
pub proof fn lemma_project_uniform_flow(n: nat, cu: Fx, cv: Fx, k: nat)
    requires
        0 < n <= crate::grid::MAX_SIDE,
    ensures
        divergence_of(uniform_field(n, cu), uniform_field(n, cv), n) == zero_field(n),
        pressure_for(zero_field(n), n, k) == zero_field(n),
        projected(uniform_field(n, cu), uniform_field(n, cv), n, k, Axis::X) == uniform_field(
            n,
            cu,
        ),
        projected(uniform_field(n, cu), uniform_field(n, cv), n, k, Axis::Y) == uniform_field(
            n,
            cv,
        ),
{
    let u = uniform_field(n, cu);
    let v = uniform_field(n, cv);
    assert forall|i: int| 0 <= i < n * n implies divergence_cell(u, v, n, i) == Fx::zero() by {
        lemma_difference_of_uniform(n, cu, Axis::X, i);
        lemma_difference_of_uniform(n, cv, Axis::Y, i);
        lemma_zero_is_neutral(Fx::zero());
        lemma_fractions_of_zero();
    }
    assert(divergence_of(u, v, n) =~= zero_field(n));
    lemma_project_divergence_free(u, v, n, k);
}

/// The projection of a fluid at rest does nothing: the divergence and the
/// pressure are zero and the velocity stays zero.
pub proof fn lemma_project_still_fluid(n: nat, k: nat)
    requires
        0 < n <= crate::grid::MAX_SIDE,
    ensures
        divergence_of(zero_field(n), zero_field(n), n) == zero_field(n),
        pressure_for(zero_field(n), n, k) == zero_field(n),
        projected(zero_field(n), zero_field(n), n, k, Axis::X) == zero_field(n),
        projected(zero_field(n), zero_field(n), n, k, Axis::Y) == zero_field(n),
{
    lemma_project_uniform_flow(n, Fx::zero(), Fx::zero(), k);
}

} // verus!
