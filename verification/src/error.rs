//! The ways in which a configuration can be refused.

use vstd::prelude::*;

verus! {

/// Why a grid or a parameter record could not be built.
#[derive(Clone, Copy, Debug, PartialEq, Eq, Structural)]
pub enum ConfigError {
    /// The grid side is zero or larger than the largest supported side.
    GridSize,
    /// The time step is not positive.
    TimeStep,
    /// The viscosity is negative.
    Viscosity,
    /// The dissipation factor is not in the interval (0, 1].
    Dissipation,
    /// The pointer radius is negative.
    Radius,
    /// The number of pressure sweeps is zero.
    Iterations,
}

} // verus!
