//! The record of parameters that governs one time step.

use vstd::prelude::*;
use crate::error::ConfigError;
use crate::fixed::{Fx, ONE_RAW};
use crate::grid::MAX_SIDE;

verus! {

/// A pair of fixed-point numbers: a position or a displacement on the grid.
#[derive(Clone, Copy, Debug, PartialEq, Eq, Structural)]
pub struct Vec2 {
    pub x: Fx,
    pub y: Fx,
}

/// The parameters of one time step. A record is built once per step and does
/// not change while the step runs.
#[derive(Clone, Copy, Debug, PartialEq, Eq, Structural)]
pub struct TickParams {
    /// The side of the grid that the step runs on.
    pub grid_size: usize,
    /// Whether the pointer is pressed.
    pub pointer_active: bool,
    /// The length of the time step.
    pub dt: Fx,
    /// The viscosity of the fluid.
    pub viscosity: Fx,
    /// The factor by which every field decays in one step.
    pub dissipation: Fx,
    /// The strength of the pointer's forcing.
    pub add_strength: Fx,
    /// The position of the pointer, in grid cells.
    pub pointer_pos: Vec2,
    /// How far the pointer moved since the last step, in grid cells.
    pub pointer_delta: Vec2,
    /// The radius of the pointer's splat, in grid cells.
    pub radius: Fx,
    /// The number of Jacobi sweeps of the pressure solve.
    pub jacobi_iterations: u32,
}

/// The first rule, in the order of the record's fields, that the given values
/// break, if any.
pub open spec fn first_fault(
    grid_size: usize,
    dt: Fx,
    viscosity: Fx,
    dissipation: Fx,
    radius: Fx,
    jacobi_iterations: u32,
) -> Option<ConfigError> {
    if grid_size == 0 || grid_size > MAX_SIDE {
        Some(ConfigError::GridSize)
    } else if dt.raw <= 0 {
        Some(ConfigError::TimeStep)
    } else if viscosity.raw < 0 {
        Some(ConfigError::Viscosity)
    } else if dissipation.raw <= 0 || dissipation.raw > ONE_RAW {
        Some(ConfigError::Dissipation)
    } else if radius.raw < 0 {
        Some(ConfigError::Radius)
    } else if jacobi_iterations == 0 {
        Some(ConfigError::Iterations)
    } else {
        None
    }
}

impl TickParams {
    /// The fault of this record, if it has one.
    pub open spec fn fault(&self) -> Option<ConfigError> {
        first_fault(
            self.grid_size,
            self.dt,
            self.viscosity,
            self.dissipation,
            self.radius,
            self.jacobi_iterations,
        )
    }

    /// Every value lies in its range: the grid side is supported, the time
    /// step is positive, the viscosity and the radius are not negative, the
    /// dissipation lies in (0, 1] and there is at least one pressure sweep.
    pub open spec fn wf(&self) -> bool {
        self.fault() is None
    }

    /// A record with the pointer released and at rest in the origin. It is
    /// refused with the first rule that the values break.
    pub fn new(
        grid_size: usize,
        dt: Fx,
        viscosity: Fx,
        dissipation: Fx,
        add_strength: Fx,
        radius: Fx,
        jacobi_iterations: u32,
    ) -> (r: Result<TickParams, ConfigError>)
        ensures
            match first_fault(grid_size, dt, viscosity, dissipation, radius, jacobi_iterations) {
                Some(e) => r == Err::<TickParams, ConfigError>(e),
                None => r == Ok::<TickParams, ConfigError>(
                    (TickParams {
                        grid_size,
                        pointer_active: false,
                        dt,
                        viscosity,
                        dissipation,
                        add_strength,
                        pointer_pos: Vec2 { x: Fx::zero(), y: Fx::zero() },
                        pointer_delta: Vec2 { x: Fx::zero(), y: Fx::zero() },
                        radius,
                        jacobi_iterations,
                    }),
                ),
            },
    {
        let params = TickParams {
            grid_size,
            pointer_active: false,
            dt,
            viscosity,
            dissipation,
            add_strength,
            pointer_pos: Vec2 { x: Fx::zero(), y: Fx::zero() },
            pointer_delta: Vec2 { x: Fx::zero(), y: Fx::zero() },
            radius,
            jacobi_iterations,
        };
        match params.check() {
            Ok(()) => Ok(params),
            Err(e) => Err(e),
        }
    }

    /// Tests the record against its rules and names the first one it breaks.
    pub fn check(&self) -> (r: Result<(), ConfigError>)
        ensures
            match self.fault() {
                Some(e) => r == Err::<(), ConfigError>(e),
                None => r is Ok,
            },
    {
        if self.grid_size == 0 || self.grid_size > MAX_SIDE {
            Err(ConfigError::GridSize)
        } else if self.dt.raw <= 0 {
            Err(ConfigError::TimeStep)
        } else if self.viscosity.raw < 0 {
            Err(ConfigError::Viscosity)
        } else if self.dissipation.raw <= 0 || self.dissipation.raw > ONE_RAW {
            Err(ConfigError::Dissipation)
        } else if self.radius.raw < 0 {
            Err(ConfigError::Radius)
        } else if self.jacobi_iterations == 0 {
            Err(ConfigError::Iterations)
        } else {
            Ok(())
        }
    }

    /// The same record with the pointer's state replaced.
    pub fn with_pointer(self, active: bool, pos: Vec2, delta: Vec2) -> (r: TickParams)
        ensures
            r == (TickParams {
                pointer_active: active,
                pointer_pos: pos,
                pointer_delta: delta,
                ..self
            }),
    {
        TickParams { pointer_active: active, pointer_pos: pos, pointer_delta: delta, ..self }
    }
}

} // verus!
