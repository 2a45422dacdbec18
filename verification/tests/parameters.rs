use fluid_sim::error::ConfigError;
use fluid_sim::fixed::Fx;
use fluid_sim::grid::MAX_SIDE;
use fluid_sim::params::{TickParams, Vec2};

fn make(
    grid: usize,
    dt: i64,
    viscosity: i64,
    dissipation: i64,
    radius: i64,
    sweeps: u32,
) -> Result<TickParams, ConfigError> {
    TickParams::new(
        grid,
        Fx::from_raw(dt),
        Fx::from_raw(viscosity),
        Fx::from_raw(dissipation),
        Fx::from_int(2),
        Fx::from_raw(radius),
        sweeps,
    )
}

const ONE: i64 = 1 << 32;

#[test]
fn good_parameters_are_accepted() {
    let p = make(256, ONE / 64, 1, ONE - 5, 35 * ONE, 20).unwrap();
    assert_eq!(p.grid_size, 256);
    assert!(!p.pointer_active);
    assert_eq!(p.dt.raw, ONE / 64);
    assert_eq!(p.viscosity.raw, 1);
    assert_eq!(p.dissipation.raw, ONE - 5);
    assert_eq!(p.add_strength, Fx::from_int(2));
    assert_eq!(p.pointer_pos, Vec2 { x: Fx::zero(), y: Fx::zero() });
    assert_eq!(p.pointer_delta, Vec2 { x: Fx::zero(), y: Fx::zero() });
    assert_eq!(p.radius.raw, 35 * ONE);
    assert_eq!(p.jacobi_iterations, 20);
    assert!(p.check().is_ok());
}

#[test]
fn limits_of_the_ranges_are_accepted() {
    assert!(make(1, 1, 0, 1, 0, 1).is_ok());
    assert!(make(MAX_SIDE, i64::MAX, i64::MAX, ONE, i64::MAX, u32::MAX).is_ok());
}

#[test]
fn grid_size_zero_is_refused() {
    assert_eq!(make(0, ONE, 0, ONE, ONE, 20), Err(ConfigError::GridSize));
}

#[test]
fn grid_size_above_the_maximum_is_refused() {
    assert_eq!(make(MAX_SIDE + 1, ONE, 0, ONE, ONE, 20), Err(ConfigError::GridSize));
}

#[test]
fn time_step_must_be_positive() {
    assert_eq!(make(4, 0, 0, ONE, ONE, 20), Err(ConfigError::TimeStep));
    assert_eq!(make(4, -1, 0, ONE, ONE, 20), Err(ConfigError::TimeStep));
}

#[test]
fn viscosity_must_not_be_negative() {
    assert_eq!(make(4, ONE, -1, ONE, ONE, 20), Err(ConfigError::Viscosity));
}

#[test]
fn dissipation_must_lie_in_its_interval() {
    assert_eq!(make(4, ONE, 0, 0, ONE, 20), Err(ConfigError::Dissipation));
    assert_eq!(make(4, ONE, 0, -ONE, ONE, 20), Err(ConfigError::Dissipation));
    assert_eq!(make(4, ONE, 0, ONE + 1, ONE, 20), Err(ConfigError::Dissipation));
}

#[test]
fn radius_must_not_be_negative() {
    assert_eq!(make(4, ONE, 0, ONE, -1, 20), Err(ConfigError::Radius));
}

#[test]
fn at_least_one_sweep_is_required() {
    assert_eq!(make(4, ONE, 0, ONE, ONE, 0), Err(ConfigError::Iterations));
}

#[test]
fn the_first_broken_rule_is_reported() {
    assert_eq!(make(0, 0, -1, 0, -1, 0), Err(ConfigError::GridSize));
    assert_eq!(make(4, 0, -1, 0, -1, 0), Err(ConfigError::TimeStep));
    assert_eq!(make(4, 1, -1, 0, -1, 0), Err(ConfigError::Viscosity));
    assert_eq!(make(4, 1, 0, 0, -1, 0), Err(ConfigError::Dissipation));
    assert_eq!(make(4, 1, 0, 1, -1, 0), Err(ConfigError::Radius));
}

#[test]
fn check_finds_a_record_broken_by_hand() {
    let mut p = make(4, ONE, 0, ONE, ONE, 20).unwrap();
    p.dt = Fx::zero();
    assert_eq!(p.check(), Err(ConfigError::TimeStep));
    p.dt = Fx::one();
    p.jacobi_iterations = 0;
    assert_eq!(p.check(), Err(ConfigError::Iterations));
}

#[test]
fn with_pointer_replaces_the_pointer_only() {
    let p = make(4, ONE, 0, ONE, ONE, 20).unwrap();
    let pos = Vec2 { x: Fx::from_int(1), y: Fx::from_int(2) };
    let delta = Vec2 { x: Fx::from_int(-3), y: Fx::from_raw(9) };
    let q = p.with_pointer(true, pos, delta);
    assert!(q.pointer_active);
    assert_eq!(q.pointer_pos, pos);
    assert_eq!(q.pointer_delta, delta);
    assert_eq!(q.grid_size, p.grid_size);
    assert_eq!(q.dt, p.dt);
    assert_eq!(q.dissipation, p.dissipation);
    assert_eq!(q.jacobi_iterations, p.jacobi_iterations);
    assert_eq!(q.with_pointer(false, p.pointer_pos, p.pointer_delta), p);
}
