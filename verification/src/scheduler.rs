//! The stages of one time step and their fixed order.
//!
//! Every stage reads committed generations only, writes staged ones and
//! commits them before it returns, so the next stage sees the whole result of
//! the one before it.

use vstd::prelude::*;
use crate::advect::{advect, advected, lemma_advect_bounded, lemma_advect_through_still_fluid};
use crate::diffuse::{
    dissipate, dissipated, dissipated_times, lemma_dissipate_bounded, lemma_dissipate_zero,
};
use crate::fixed::{Fx, bounded};
use crate::grid::{is_field, zero_field};
use crate::inject::{splat, splatted};
use crate::params::TickParams;
use crate::project::{
    Axis, divergence_of, lemma_project_still_fluid, pressure_for, project, without_gradient,
};
use crate::store::{Fields, FieldStore};

verus! {

/// The amount that a pointer stroke adds to the velocity along one axis at
/// the centre of its splat: the pointer's movement times strength over time
/// step.
pub open spec fn impulse(p: TickParams, axis: Axis) -> Fx {
    let gain = p.add_strength.over(p.dt);
    match axis {
        Axis::X => p.pointer_delta.x.times(gain),
        Axis::Y => p.pointer_delta.y.times(gain),
    }
}

/// The amount that a pointer stroke adds to the density at the centre of its
/// splat: strength times time step.
pub open spec fn deposit(p: TickParams) -> Fx {
    p.add_strength.times(p.dt)
}

/// The fields after the forcing stage. A released pointer changes nothing.
pub open spec fn injected(s: Fields, p: TickParams) -> Fields {
    if !p.pointer_active {
        s
    } else {
        Fields {
            u: splatted(s.u, s.n, p.pointer_pos.x, p.pointer_pos.y, p.radius, impulse(p, Axis::X)),
            v: splatted(s.v, s.n, p.pointer_pos.x, p.pointer_pos.y, p.radius, impulse(p, Axis::Y)),
            density: splatted(
                s.density,
                s.n,
                p.pointer_pos.x,
                p.pointer_pos.y,
                p.radius,
                deposit(p),
            ),
            ..s
        }
    }
}

/// The fields after the velocity has been transported by itself.
pub open spec fn velocity_advected(s: Fields, p: TickParams) -> Fields {
    Fields {
        u: advected(s.u, s.u, s.v, s.n, p.dt),
        v: advected(s.v, s.u, s.v, s.n, p.dt),
        ..s
    }
}

/// The fields after the density has been transported by the velocity.
pub open spec fn density_advected(s: Fields, p: TickParams) -> Fields {
    Fields { density: advected(s.density, s.u, s.v, s.n, p.dt), ..s }
}

/// The fields after the velocity and the density have decayed once.
pub open spec fn decayed(s: Fields, p: TickParams) -> Fields {
    Fields {
        u: dissipated(s.u, p.dissipation),
        v: dissipated(s.v, p.dissipation),
        density: dissipated(s.density, p.dissipation),
        ..s
    }
}

/// The fields after the projection of the velocity.
pub open spec fn pressure_projected(s: Fields, p: TickParams) -> Fields {
    let div = divergence_of(s.u, s.v, s.n);
    let pressure = pressure_for(div, s.n, p.jacobi_iterations as nat);
    Fields {
        u: without_gradient(s.u, pressure, s.n, Axis::X),
        v: without_gradient(s.v, pressure, s.n, Axis::Y),
        pressure,
        divergence: div,
        ..s
    }
}

/// The fields after one whole time step: forcing, transport of the velocity,
/// transport of the density by the transported velocity, decay, projection.
pub open spec fn tick_result(s: Fields, p: TickParams) -> Fields {
    pressure_projected(
        decayed(density_advected(velocity_advected(injected(s, p), p), p), p),
        p,
    )
}

/// The fields after `k` time steps with the same parameters.
pub open spec fn ticks(s: Fields, p: TickParams, k: nat) -> Fields
    decreases k,
{
    if k == 0 {
        s
    } else {
        tick_result(ticks(s, p, (k - 1) as nat), p)
    }
}

/// The fluid does not move: the velocity is zero at every cell.
pub open spec fn at_rest(s: Fields) -> bool {
    &&& is_field(s.density, s.n)
    &&& s.u == zero_field(s.n)
    &&& s.v == zero_field(s.n)
}

/// Whether a step with the parameters `p` can run on the store `s`.
pub open spec fn ready(s: FieldStore, p: TickParams) -> bool {
    s.wf() && p.wf() && p.grid_size == s.spec_side()
}

/// The forcing stage: while the pointer is pressed, a splat is added to the
/// velocity and to the density around the pointer. With the pointer released
/// the store is left exactly as it is.
pub fn inject(store: &mut FieldStore, p: &TickParams)
    requires
        ready(*old(store), *p),
    ensures
        final(store).wf(),
        final(store)@ == injected(old(store)@, *p),
        !p.pointer_active ==> *final(store) == *old(store),
{
    if !p.pointer_active {
        return ;
    }
    let gain: Fx = p.add_strength.over(p.dt);
    let (u, v, density, _, _) = store.buffers();
    {
        let (current, staged) = u.parts();
        splat(
            current,
            p.pointer_pos.x,
            p.pointer_pos.y,
            p.radius,
            p.pointer_delta.x.times(gain),
            staged,
        );
    }
    {
        let (current, staged) = v.parts();
        splat(
            current,
            p.pointer_pos.x,
            p.pointer_pos.y,
            p.radius,
            p.pointer_delta.y.times(gain),
            staged,
        );
    }
    {
        let (current, staged) = density.parts();
        splat(
            current,
            p.pointer_pos.x,
            p.pointer_pos.y,
            p.radius,
            p.add_strength.times(p.dt),
            staged,
        );
    }
    u.commit();
    v.commit();
    density.commit();
}

/// The stage that transports the velocity by itself. Both components are
/// computed from the committed velocity before either is committed.
pub fn advect_velocity(store: &mut FieldStore, p: &TickParams)
    requires
        ready(*old(store), *p),
    ensures
        final(store).wf(),
        final(store)@ == velocity_advected(old(store)@, *p),
{
    let (u, v, _, _, _) = store.buffers();
    {
        let (current, staged) = u.parts();
        advect(current, current, v.current(), p.dt, staged);
    }
    {
        let (current, staged) = v.parts();
        advect(current, u.current(), current, p.dt, staged);
    }
    u.commit();
    v.commit();
}

/// The stage that transports the density by the committed velocity.
pub fn advect_density(store: &mut FieldStore, p: &TickParams)
    requires
        ready(*old(store), *p),
    ensures
        final(store).wf(),
        final(store)@ == density_advected(old(store)@, *p),
{
    let (u, v, density, _, _) = store.buffers();
    {
        let (current, staged) = density.parts();
        advect(current, u.current(), v.current(), p.dt, staged);
    }
    density.commit();
}

/// The stage that lets the velocity and the density decay, each once.
pub fn decay(store: &mut FieldStore, p: &TickParams)
    requires
        ready(*old(store), *p),
    ensures
        final(store).wf(),
        final(store)@ == decayed(old(store)@, *p),
{
    let (u, v, density, _, _) = store.buffers();
    {
        let (current, staged) = u.parts();
        dissipate(current, p.dissipation, staged);
    }
    {
        let (current, staged) = v.parts();
        dissipate(current, p.dissipation, staged);
    }
    {
        let (current, staged) = density.parts();
        dissipate(current, p.dissipation, staged);
    }
    u.commit();
    v.commit();
    density.commit();
}

/// The projection stage: divergence, pressure solve and subtraction of the
/// pressure gradient.
pub fn project_velocity(store: &mut FieldStore, p: &TickParams)
    requires
        ready(*old(store), *p),
    ensures
        final(store).wf(),
        final(store)@ == pressure_projected(old(store)@, *p),
{
    let (u, v, _, pressure, div) = store.buffers();
    project(u, v, pressure, div, p.jacobi_iterations);
}

/// Advances the store by one whole time step.
pub fn tick(store: &mut FieldStore, p: &TickParams)
    requires
        ready(*old(store), *p),
    ensures
        final(store).wf(),
        final(store).spec_side() == old(store).spec_side(),
        final(store)@ == tick_result(old(store)@, *p),
{
    inject(store, p);
    advect_velocity(store, p);
    advect_density(store, p);
    decay(store, p);
    project_velocity(store, p);
}

/// While the pointer is released, a step never raises the largest magnitude
/// of the density, however the fluid moves.
pub proof fn lemma_tick_keeps_density_bounded(s: Fields, p: TickParams, m: int)
    requires
        is_field(s.density, s.n),
        p.wf(),
        !p.pointer_active,
        bounded(s.density, m),
    ensures
        bounded(tick_result(s, p).density, m),
{
    let moved = velocity_advected(injected(s, p), p);
    lemma_advect_bounded(s.density, moved.u, moved.v, s.n, p.dt, m);
    lemma_dissipate_bounded(density_advected(moved, p).density, p.dissipation, m);
}

/// One step on a fluid at rest, with the pointer released, leaves the fluid
/// at rest and lets the density decay once: nothing is pushed, nothing is
/// carried away, and the projection finds nothing to correct.
pub proof fn lemma_tick_at_rest(s: Fields, p: TickParams)
    requires
        at_rest(s),
        !p.pointer_active,
    ensures
        at_rest(tick_result(s, p)),
        tick_result(s, p).n == s.n,
        tick_result(s, p).density == dissipated(s.density, p.dissipation),
{
    let z = zero_field(s.n);
    lemma_advect_through_still_fluid(z, s.n, p.dt);
    lemma_advect_through_still_fluid(s.density, s.n, p.dt);
    lemma_dissipate_zero(z, p.dissipation);
    lemma_project_still_fluid(s.n, p.jacobi_iterations as nat);
}

/// After `k` steps on a fluid at rest, with the pointer released, the density
/// has decayed `k` times and the fluid is still at rest.
pub proof fn lemma_ticks_at_rest(s: Fields, p: TickParams, k: nat)
    requires
        at_rest(s),
        !p.pointer_active,
    ensures
        at_rest(ticks(s, p, k)),
        ticks(s, p, k).n == s.n,
        ticks(s, p, k).density == dissipated_times(s.density, p.dissipation, k),
    decreases k,
{
    if k > 0 {
        lemma_ticks_at_rest(s, p, (k - 1) as nat);
        lemma_tick_at_rest(ticks(s, p, (k - 1) as nat), p);
    }
}

} // verus!
