//! The field store: both generations of every field of the simulation.

use vstd::prelude::*;
use crate::error::ConfigError;
use crate::fixed::Fx;
use crate::grid::{DoubleBuffered, Grid, MAX_SIDE, cell_index, lookup, zero_field};
use crate::inject::{blob, fill_blob};
use crate::params::Vec2;

verus! {

/// The fields that the store holds.
#[derive(Clone, Copy, Debug, PartialEq, Eq, Structural)]
pub enum FieldId {
    /// The velocity component along x.
    VelocityX,
    /// The velocity component along y.
    VelocityY,
    /// The density carried by the flow.
    Density,
    /// The pressure found by the last projection.
    Pressure,
    /// The divergence found by the last projection.
    Divergence,
}

/// The committed generation of every field, as plain sequences of cells.
pub struct Fields {
    pub n: nat,
    pub u: Seq<Fx>,
    pub v: Seq<Fx>,
    pub density: Seq<Fx>,
    pub pressure: Seq<Fx>,
    pub divergence: Seq<Fx>,
}

/// Both generations of the velocity, the density, the pressure and the
/// divergence over one grid.
pub struct FieldStore {
    velocity_x: DoubleBuffered<Fx>,
    velocity_y: DoubleBuffered<Fx>,
    density: DoubleBuffered<Fx>,
    pressure: DoubleBuffered<Fx>,
    divergence: DoubleBuffered<Fx>,
}

impl View for FieldStore {
    type V = Fields;

    open spec fn view(&self) -> Fields {
        Fields {
            n: self.spec_side(),
            u: self.committed(FieldId::VelocityX),
            v: self.committed(FieldId::VelocityY),
            density: self.committed(FieldId::Density),
            pressure: self.committed(FieldId::Pressure),
            divergence: self.committed(FieldId::Divergence),
        }
    }
}

impl FieldStore {
    /// The two generations of one field.
    pub closed spec fn buffer(&self, id: FieldId) -> DoubleBuffered<Fx> {
        match id {
            FieldId::VelocityX => self.velocity_x,
            FieldId::VelocityY => self.velocity_y,
            FieldId::Density => self.density,
            FieldId::Pressure => self.pressure,
            FieldId::Divergence => self.divergence,
        }
    }

    /// The side of the grid.
    pub open spec fn spec_side(&self) -> nat {
        self.buffer(FieldId::VelocityX).spec_side()
    }

    /// Whether the two generations of one field are grids of the store's side.
    pub open spec fn buffer_ok(&self, id: FieldId) -> bool {
        self.buffer(id).wf() && self.buffer(id).spec_side() == self.spec_side()
    }

    /// Every generation of every field is a well-formed grid of one side.
    pub open spec fn wf(&self) -> bool {
        &&& self.buffer_ok(FieldId::VelocityX)
        &&& self.buffer_ok(FieldId::VelocityY)
        &&& self.buffer_ok(FieldId::Density)
        &&& self.buffer_ok(FieldId::Pressure)
        &&& self.buffer_ok(FieldId::Divergence)
    }

    /// The cells of the committed generation of a field.
    pub open spec fn committed(&self, id: FieldId) -> Seq<Fx> {
        self.buffer(id).committed()@
    }

    /// The cells of the staged generation of a field.
    pub open spec fn staged(&self, id: FieldId) -> Seq<Fx> {
        self.buffer(id).staged()@
    }

    /// A store for a grid of side `n` with every field zero. It is refused,
    /// and nothing is built, when `n` is zero or larger than `MAX_SIDE`.
    pub fn new(n: usize) -> (r: Result<FieldStore, ConfigError>)
        ensures
            (n == 0 || n > MAX_SIDE) <==> r is Err,
            r is Err ==> r->Err_0 == ConfigError::GridSize,
            r is Ok ==> {
                let s = r->Ok_0;
                &&& s.wf()
                &&& s.spec_side() == n
                &&& forall|id: FieldId| #[trigger] s.committed(id) == zero_field(n as nat)
                &&& forall|id: FieldId| #[trigger] s.staged(id) == zero_field(n as nat)
            },
    {
        let velocity_x = match DoubleBuffered::filled(n, Fx::zero()) {
            Ok(f) => f,
            Err(e) => {
                return Err(e);
            },
        };
        let velocity_y = match DoubleBuffered::filled(n, Fx::zero()) {
            Ok(f) => f,
            Err(e) => {
                return Err(e);
            },
        };
        let density = match DoubleBuffered::filled(n, Fx::zero()) {
            Ok(f) => f,
            Err(e) => {
                return Err(e);
            },
        };
        let pressure = match DoubleBuffered::filled(n, Fx::zero()) {
            Ok(f) => f,
            Err(e) => {
                return Err(e);
            },
        };
        let divergence = match DoubleBuffered::filled(n, Fx::zero()) {
            Ok(f) => f,
            Err(e) => {
                return Err(e);
            },
        };
        let store = FieldStore { velocity_x, velocity_y, density, pressure, divergence };
        proof {
            assert forall|id: FieldId| #[trigger] store.committed(id) == zero_field(n as nat) by {
                assert(store.committed(id) =~= zero_field(n as nat));
            }
            assert forall|id: FieldId| #[trigger] store.staged(id) == zero_field(n as nat) by {
                assert(store.staged(id) =~= zero_field(n as nat));
            }
        }
        Ok(store)
    }

    /// The side of the grid.
    pub fn side(&self) -> (n: usize)
        ensures
            n == self.spec_side(),
    {
        self.velocity_x.side()
    }

    /// The committed generation of a field, read-only.
    pub fn current(&self, id: FieldId) -> (g: &Grid<Fx>)
        ensures
            *g == self.buffer(id).committed(),
            g@ == self.committed(id),
    {
        match id {
            FieldId::VelocityX => self.velocity_x.current(),
            FieldId::VelocityY => self.velocity_y.current(),
            FieldId::Density => self.density.current(),
            FieldId::Pressure => self.pressure.current(),
            FieldId::Divergence => self.divergence.current(),
        }
    }

    /// The committed value of a field at `(x, y)`. Coordinates outside the
    /// grid stand for the nearest edge cell.
    pub fn read(&self, id: FieldId, x: i64, y: i64) -> (value: Fx)
        requires
            self.wf(),
        ensures
            value == lookup(self.committed(id), self.spec_side(), x as int, y as int),
    {
        self.current(id).get_clamped(x, y)
    }

    /// The committed velocity at `(x, y)`, clamped like `read`.
    pub fn velocity(&self, x: i64, y: i64) -> (value: Vec2)
        requires
            self.wf(),
        ensures
            value.x == lookup(
                self.committed(FieldId::VelocityX),
                self.spec_side(),
                x as int,
                y as int,
            ),
            value.y == lookup(
                self.committed(FieldId::VelocityY),
                self.spec_side(),
                x as int,
                y as int,
            ),
    {
        Vec2 { x: self.read(FieldId::VelocityX, x, y), y: self.read(FieldId::VelocityY, x, y) }
    }

    /// Stages `value` for the cell `(x, y)` of a field and says whether the
    /// cell exists. A cell outside the grid is not written. Whatever is
    /// staged shows only after the next `commit` of the field.
    pub fn write(&mut self, id: FieldId, x: usize, y: usize, value: Fx) -> (written: bool)
        requires
            old(self).wf(),
        ensures
            final(self).wf(),
            final(self).spec_side() == old(self).spec_side(),
            written == (x < old(self).spec_side() && y < old(self).spec_side()),
            forall|other: FieldId| #[trigger]
                final(self).committed(other) == old(self).committed(other),
            forall|other: FieldId|
                other != id ==> #[trigger] final(self).staged(other) == old(self).staged(other),
            written ==> final(self).staged(id) == old(self).staged(id).update(
                cell_index(old(self).spec_side(), x as int, y as int),
                value,
            ),
            !written ==> final(self).staged(id) == old(self).staged(id),
    {
        let n: usize = self.side();
        if x >= n || y >= n {
            return false;
        }
        match id {
            FieldId::VelocityX => self.velocity_x.write(x, y, value),
            FieldId::VelocityY => self.velocity_y.write(x, y, value),
            FieldId::Density => self.density.write(x, y, value),
            FieldId::Pressure => self.pressure.write(x, y, value),
            FieldId::Divergence => self.divergence.write(x, y, value),
        }
        true
    }

    /// Promotes the staged generation of one field to its committed one; the
    /// generation that was committed becomes the staging area.
    pub fn commit(&mut self, id: FieldId)
        requires
            old(self).wf(),
        ensures
            final(self).wf(),
            final(self).spec_side() == old(self).spec_side(),
            final(self).committed(id) == old(self).staged(id),
            final(self).staged(id) == old(self).committed(id),
            forall|other: FieldId|
                other != id ==> #[trigger] final(self).buffer(other) == old(self).buffer(other),
    {
        match id {
            FieldId::VelocityX => self.velocity_x.commit(),
            FieldId::VelocityY => self.velocity_y.commit(),
            FieldId::Density => self.density.commit(),
            FieldId::Pressure => self.pressure.commit(),
            FieldId::Divergence => self.divergence.commit(),
        }
    }

    /// Replaces the density by a blob of the given radius around the point
    /// `(cx, cy)`. The other fields keep their values.
    pub fn seed_density(&mut self, cx: Fx, cy: Fx, radius: Fx)
        requires
            old(self).wf(),
        ensures
            final(self).wf(),
            final(self)@ == (Fields {
                density: blob(old(self).spec_side(), cx, cy, radius),
                ..old(self)@
            }),
    {
        {
            let (_, staged) = self.density.parts();
            fill_blob(cx, cy, radius, staged);
        }
        self.density.commit();
    }

    /// All five fields at once, each to be read and written on its own.
    pub(crate) fn buffers(&mut self) -> (r: (
        &mut DoubleBuffered<Fx>,
        &mut DoubleBuffered<Fx>,
        &mut DoubleBuffered<Fx>,
        &mut DoubleBuffered<Fx>,
        &mut DoubleBuffered<Fx>,
    ))
        ensures
            *r.0 == old(self).buffer(FieldId::VelocityX),
            *r.1 == old(self).buffer(FieldId::VelocityY),
            *r.2 == old(self).buffer(FieldId::Density),
            *r.3 == old(self).buffer(FieldId::Pressure),
            *r.4 == old(self).buffer(FieldId::Divergence),
            final(self).buffer(FieldId::VelocityX) == *final(r.0),
            final(self).buffer(FieldId::VelocityY) == *final(r.1),
            final(self).buffer(FieldId::Density) == *final(r.2),
            final(self).buffer(FieldId::Pressure) == *final(r.3),
            final(self).buffer(FieldId::Divergence) == *final(r.4),
    {
        (
            &mut self.velocity_x,
            &mut self.velocity_y,
            &mut self.density,
            &mut self.pressure,
            &mut self.divergence,
        )
    }
}

} // verus!
