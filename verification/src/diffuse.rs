//! Dissipation: every value of a field is scaled by one decay factor.

use vstd::prelude::*;
use vstd::arithmetic::power::{lemma_pow0, lemma_pow_positive, pow};
use crate::fixed::{
    Fx, ONE_RAW, bounded, lemma_times_fraction, lemma_times_weight, lemma_times_zero, magnitude,
};
use crate::grid::Grid;

verus! {

/// The field `f` with every value multiplied by `factor`.
pub open spec fn dissipated(f: Seq<Fx>, factor: Fx) -> Seq<Fx> {
    Seq::new(f.len(), |i: int| f[i].times(factor))
}

/// The field `f` after `k` rounds of decay by `factor`.
pub open spec fn dissipated_times(f: Seq<Fx>, factor: Fx, k: nat) -> Seq<Fx>
    decreases k,
{
    if k == 0 {
        f
    } else {
        dissipated(dissipated_times(f, factor, (k - 1) as nat), factor)
    }
}

/// Writes to `out` the field with every value multiplied by `factor`.
pub fn dissipate(field: &Grid<Fx>, factor: Fx, out: &mut Grid<Fx>)
    requires
        field.wf(),
        old(out).wf(),
        old(out).spec_side() == field.spec_side(),
    ensures
        final(out).wf(),
        final(out).spec_side() == field.spec_side(),
        final(out)@ == dissipated(field@, factor),
{
    let total: usize = field.len();
    let mut i: usize = 0;
    while i < total
        invariant
            i <= total,
            total == field@.len(),
            field.wf(),
            out.wf(),
            out.spec_side() == field.spec_side(),
            forall|j: int| 0 <= j < i ==> out@[j] == field@[j].times(factor),
        decreases total - i,
    {
        out.set_index(i, field.get_index(i).times(factor));
        i += 1;
    }
    assert(out@ =~= dissipated(field@, factor));
}

/// A field that is zero everywhere stays zero under decay.
pub proof fn lemma_dissipate_zero(f: Seq<Fx>, factor: Fx)
    requires
        forall|i: int| 0 <= i < f.len() ==> f[i] == Fx::zero(),
    ensures
        dissipated(f, factor) == f,
{
    lemma_times_zero(factor);
    assert(dissipated(f, factor) =~= f);
}

/// Decay by a factor between zero and one never raises the largest magnitude
/// of a field.
pub proof fn lemma_dissipate_bounded(f: Seq<Fx>, factor: Fx, m: int)
    requires
        0 <= factor.raw <= ONE_RAW,
        bounded(f, m),
    ensures
        bounded(dissipated(f, factor), m),
{
    assert forall|i: int| 0 <= i < f.len() implies magnitude(
        (#[trigger] dissipated(f, factor)[i]).raw as int,
    ) <= m by {
        lemma_times_weight(f[i], factor);
    }
}

/// Decay by a factor of one changes nothing.
pub proof fn lemma_dissipate_by_one(f: Seq<Fx>)
    ensures
        dissipated(f, Fx::one()) == f,
{
    assert forall|i: int| 0 <= i < f.len() implies f[i].times(Fx::one()) == f[i] by {
        crate::fixed::lemma_times_one(f[i]);
    }
    assert(dissipated(f, Fx::one()) =~= f);
}

/// After `k` rounds of decay by a factor `d` in (0, 1], every cell holds its
/// first value times `d` to the power `k`, up to `k` units of the last place:
/// with `S` for the raw one, `|raw_k * S^k - raw_0 * d^k| <= k * S^k`.
pub proof fn lemma_decay_tolerance(f: Seq<Fx>, factor: Fx, k: nat, i: int)
    requires
        0 < factor.raw <= ONE_RAW,
        0 <= i < f.len(),
    ensures
        dissipated_times(f, factor, k).len() == f.len(),
        magnitude(
            dissipated_times(f, factor, k)[i].raw * pow(ONE_RAW as int, k) - f[i].raw * pow(
                factor.raw as int,
                k,
            ),
        ) <= k * pow(ONE_RAW as int, k),
    decreases k,
{
    let s = ONE_RAW as int;
    let d = factor.raw as int;
    if k == 0 {
        lemma_pow0(s);
        lemma_pow0(d);
    } else {
        let j = (k - 1) as nat;
        lemma_decay_tolerance(f, factor, j, i);
        let before = dissipated_times(f, factor, j)[i];
        let after = dissipated_times(f, factor, k)[i];
        assert(after == before.times(factor));
        lemma_times_fraction(before, factor);
        let sj = pow(s, j);
        let dj = pow(d, j);
        lemma_pow_positive(s, j);
        assert(pow(s, k) == s * sj) by {
            vstd::arithmetic::power::lemma_pow1(s);
            vstd::arithmetic::power::lemma_pow_adds(s, 1, j);
        }
        assert(pow(d, k) == d * dj) by {
            vstd::arithmetic::power::lemma_pow1(d);
            vstd::arithmetic::power::lemma_pow_adds(d, 1, j);
        }
        let r0 = f[i].raw as int;
        let rj = before.raw as int;
        let rk = after.raw as int;
        let t = rk * s - rj * d;
        let e = rj * sj - r0 * dj;
        assert((rk * s) * sj == rk * (s * sj)) by (nonlinear_arith);
        assert((rj * d) * sj == d * (rj * sj)) by (nonlinear_arith);
        assert(d * (r0 * dj) == r0 * (d * dj)) by (nonlinear_arith);
        assert(t * sj == (rk * s) * sj - (rj * d) * sj) by (nonlinear_arith)
            requires
                t == rk * s - rj * d,
        ;
        assert(d * e == d * (rj * sj) - d * (r0 * dj)) by (nonlinear_arith)
            requires
                e == rj * sj - r0 * dj,
        ;
        assert(rk * (s * sj) - r0 * (d * dj) == t * sj + d * e);
        let unit = s * sj;
        assert(magnitude(t * sj) <= unit) by (nonlinear_arith)
            requires
                magnitude(t) < s,
                sj > 0,
                unit == s * sj,
        ;
        assert(magnitude(d * e) <= j * unit) by (nonlinear_arith)
            requires
                magnitude(e) <= j * sj,
                0 < d <= s,
                sj > 0,
                unit == s * sj,
        ;
        assert(unit + j * unit == k * unit) by (nonlinear_arith)
            requires
                k == j + 1,
        ;
    }
}

} // verus!
