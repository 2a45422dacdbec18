use fluid_sim::fixed::Fx;
use fluid_sim::params::{TickParams, Vec2};
use fluid_sim::project::divergence;
use fluid_sim::grid::Grid;
use fluid_sim::scheduler::{
    advect_density, advect_velocity, decay, inject, project_velocity, tick,
};
use fluid_sim::store::{FieldId, FieldStore};

const ONE: i64 = 1 << 32;

const ALL: [FieldId; 5] = [
    FieldId::VelocityX,
    FieldId::VelocityY,
    FieldId::Density,
    FieldId::Pressure,
    FieldId::Divergence,
];

fn params(n: usize, dissipation: i64, sweeps: u32) -> TickParams {
    TickParams::new(
        n,
        Fx::one(),
        Fx::zero(),
        Fx::from_raw(dissipation),
        Fx::one(),
        Fx::one(),
        sweeps,
    )
    .unwrap()
}

fn stroke(n: usize, sweeps: u32) -> TickParams {
    params(n, ONE, sweeps).with_pointer(
        true,
        Vec2 { x: Fx::from_int(1), y: Fx::from_int(1) },
        Vec2 { x: Fx::one(), y: Fx::zero() },
    )
}

fn set_field(store: &mut FieldStore, id: FieldId, values: &[i64]) {
    let n = store.side();
    assert_eq!(values.len(), n * n);
    for (i, v) in values.iter().enumerate() {
        assert!(store.write(id, i % n, i / n, Fx::from_raw(*v)));
    }
    store.commit(id);
}

fn field(store: &FieldStore, id: FieldId) -> Vec<i64> {
    let g = store.current(id);
    (0..g.len()).map(|i| g.get_index(i).raw).collect()
}

fn snapshot(store: &FieldStore) -> Vec<Vec<i64>> {
    ALL.iter().map(|id| field(store, *id)).collect()
}

fn divergence_now(store: &FieldStore) -> Vec<i64> {
    let mut out = Grid::filled(store.side(), Fx::zero()).unwrap();
    divergence(store.current(FieldId::VelocityX), store.current(FieldId::VelocityY), &mut out);
    (0..out.len()).map(|i| out.get_index(i).raw).collect()
}

fn busy_store(n: usize) -> FieldStore {
    let mut store = FieldStore::new(n).unwrap();
    let cells = (n * n) as i64;
    let a: Vec<i64> = (0..cells).map(|i| (i * 7919 % 1000 - 500) * (ONE / 300)).collect();
    let b: Vec<i64> = (0..cells).map(|i| (i * 104_729 % 1000 - 500) * (ONE / 700)).collect();
    let c: Vec<i64> = (0..cells).map(|i| (i * 1299 % 1000) * (ONE / 1000)).collect();
    set_field(&mut store, FieldId::VelocityX, &a);
    set_field(&mut store, FieldId::VelocityY, &b);
    set_field(&mut store, FieldId::Density, &c);
    set_field(&mut store, FieldId::Pressure, &b);
    set_field(&mut store, FieldId::Divergence, &a);
    store
}

#[test]
fn inject_with_the_pointer_released_is_the_identity() {
    let mut store = busy_store(5);
    let before = snapshot(&store);
    let p = params(5, ONE, 20).with_pointer(
        false,
        Vec2 { x: Fx::from_int(2), y: Fx::from_int(2) },
        Vec2 { x: Fx::from_int(3), y: Fx::from_int(-3) },
    );
    inject(&mut store, &p);
    assert_eq!(snapshot(&store), before);
    inject(&mut store, &p);
    assert_eq!(snapshot(&store), before);
}

#[test]
fn inject_with_the_pointer_pressed_splats_velocity_and_density() {
    let mut store = FieldStore::new(4).unwrap();
    let p = TickParams::new(
        4,
        Fx::from_raw(ONE / 2),
        Fx::zero(),
        Fx::one(),
        Fx::from_int(3),
        Fx::one(),
        20,
    )
    .unwrap()
    .with_pointer(
        true,
        Vec2 { x: Fx::from_int(1), y: Fx::from_int(1) },
        Vec2 { x: Fx::one(), y: Fx::from_int(-2) },
    );
    inject(&mut store, &p);
    let u = field(&store, FieldId::VelocityX);
    let v = field(&store, FieldId::VelocityY);
    let d = field(&store, FieldId::Density);
    let shape: [i64; 16] = [0, 1, 0, 0, 1, 2, 1, 0, 0, 1, 0, 0, 0, 0, 0, 0];
    for i in 0..16 {
        assert_eq!(u[i], shape[i] * 3 * ONE);
        assert_eq!(v[i], shape[i] * -6 * ONE);
        assert_eq!(d[i], shape[i] * 3 * ONE / 4);
    }
    assert_eq!(field(&store, FieldId::Pressure), vec![0; 16]);
}

#[test]
fn velocity_components_are_advected_from_the_same_generation() {
    let mut store = FieldStore::new(4).unwrap();
    let cells: Vec<i64> = (0..16).map(|i| (i % 4) * ONE / 2).collect();
    let rows: Vec<i64> = (0..16).map(|i| (i / 4) * ONE).collect();
    set_field(&mut store, FieldId::VelocityX, &cells);
    set_field(&mut store, FieldId::VelocityY, &rows);
    advect_velocity(&mut store, &params(4, ONE, 1));
    let u = field(&store, FieldId::VelocityX);
    let v = field(&store, FieldId::VelocityY);
    for y in 0..4i64 {
        for x in 0..4i64 {
            let i = (y * 4 + x) as usize;
            assert_eq!(u[i], x * ONE / 4);
            assert_eq!(v[i], 0);
        }
    }
}

#[test]
fn density_follows_the_committed_velocity() {
    let mut store = FieldStore::new(4).unwrap();
    let cells: Vec<i64> = (0..16).map(|i| i * ONE).collect();
    set_field(&mut store, FieldId::Density, &cells);
    set_field(&mut store, FieldId::VelocityX, &[ONE; 16]);
    advect_density(&mut store, &params(4, ONE, 1));
    let d = field(&store, FieldId::Density);
    let expected: Vec<i64> =
        [0, 0, 1, 2, 4, 4, 5, 6, 8, 8, 9, 10, 12, 12, 13, 14].iter().map(|v| v * ONE).collect();
    assert_eq!(d, expected);
    assert_eq!(field(&store, FieldId::VelocityX), vec![ONE; 16]);
}

#[test]
fn decay_scales_velocity_and_density_once() {
    let mut store = busy_store(3);
    let before = snapshot(&store);
    decay(&mut store, &params(3, ONE / 2, 1));
    let after = snapshot(&store);
    for f in 0..3 {
        for i in 0..9 {
            let m = before[f][i].abs() / 2;
            assert_eq!(after[f][i], if before[f][i] < 0 { -m } else { m });
        }
    }
    assert_eq!(after[3], before[3]);
    assert_eq!(after[4], before[4]);
}

#[test]
fn project_velocity_records_divergence_and_pressure() {
    let mut store = FieldStore::new(4).unwrap();
    let cells: Vec<i64> = (0..16).map(|i| (i % 4) * ONE).collect();
    set_field(&mut store, FieldId::VelocityX, &cells);
    project_velocity(&mut store, &params(4, ONE, 1));
    let div = field(&store, FieldId::Divergence);
    let pressure = field(&store, FieldId::Pressure);
    for i in 0..16 {
        let expected = if i % 4 == 0 || i % 4 == 3 { ONE / 2 } else { ONE };
        assert_eq!(div[i], expected);
        assert_eq!(pressure[i], -expected / 4);
    }
    let u = field(&store, FieldId::VelocityX);
    assert_eq!(u[0], 0 - (-ONE / 4 + ONE / 8) / 2);
    assert_eq!(u[1], ONE - (-ONE / 4 + ONE / 8) / 2);
    assert_eq!(u[2], 2 * ONE - (-ONE / 8 + ONE / 4) / 2);
    assert_eq!(field(&store, FieldId::VelocityY), vec![0; 16]);
}

#[test]
fn still_fluid_only_decays() {
    let mut store = FieldStore::new(4).unwrap();
    let cells: Vec<i64> = (0..16).map(|i| i * ONE).collect();
    set_field(&mut store, FieldId::Density, &cells);
    let p = params(4, ONE / 2, 20);
    for step in 1..=3u32 {
        tick(&mut store, &p);
        let d = field(&store, FieldId::Density);
        for i in 0..16 {
            assert_eq!(d[i], (i as i64 * ONE) >> step);
        }
        assert_eq!(field(&store, FieldId::VelocityX), vec![0; 16]);
        assert_eq!(field(&store, FieldId::VelocityY), vec![0; 16]);
        assert_eq!(field(&store, FieldId::Pressure), vec![0; 16]);
        assert_eq!(field(&store, FieldId::Divergence), vec![0; 16]);
    }
}

#[test]
fn still_fluid_decays_within_one_unit_per_step() {
    let mut store = FieldStore::new(2).unwrap();
    set_field(&mut store, FieldId::Density, &[3 * ONE, ONE, -5 * ONE, 12345]);
    let factor: i64 = 4_286_578_688;
    let p = params(2, factor, 20);
    let start = field(&store, FieldId::Density);
    for _ in 0..10 {
        tick(&mut store, &p);
    }
    let d = field(&store, FieldId::Density);
    assert_eq!(d[0], 12_635_444_003);
    let ratio = (factor as f64 / ONE as f64).powi(10);
    for i in 0..4 {
        let exact = start[i] as f64 * ratio;
        assert!((d[i] as f64 - exact).abs() <= 10.0);
    }
}

#[test]
fn still_fluid_without_dissipation_is_unchanged() {
    let mut store = FieldStore::new(3).unwrap();
    let cells: Vec<i64> = (0..9).map(|i| i * i * 1000 + 1).collect();
    set_field(&mut store, FieldId::Density, &cells);
    let p = params(3, ONE, 33);
    for _ in 0..4 {
        tick(&mut store, &p);
    }
    assert_eq!(field(&store, FieldId::Density), cells);
}

#[test]
fn tick_is_the_five_stages_in_order() {
    let p = TickParams::new(
        5,
        Fx::from_raw(ONE / 3),
        Fx::zero(),
        Fx::from_raw(ONE - ONE / 100),
        Fx::from_int(2),
        Fx::from_int(2),
        7,
    )
    .unwrap()
    .with_pointer(
        true,
        Vec2 { x: Fx::from_raw(2 * ONE + 5), y: Fx::from_raw(3 * ONE - 9) },
        Vec2 { x: Fx::from_raw(ONE / 5), y: Fx::from_raw(-ONE / 7) },
    );
    let mut whole = busy_store(5);
    let mut staged = busy_store(5);
    tick(&mut whole, &p);
    inject(&mut staged, &p);
    advect_velocity(&mut staged, &p);
    advect_density(&mut staged, &p);
    decay(&mut staged, &p);
    project_velocity(&mut staged, &p);
    assert_eq!(snapshot(&whole), snapshot(&staged));
    assert_ne!(snapshot(&whole), snapshot(&busy_store(5)));
}

#[test]
fn one_stroke_on_a_small_grid() {
    let mut store = FieldStore::new(4).unwrap();
    let p = stroke(4, 20);

    inject(&mut store, &p);
    let u = field(&store, FieldId::VelocityX);
    let half = ONE / 2;
    assert_eq!(u, vec![0, half, 0, 0, half, ONE, half, 0, 0, half, 0, 0, 0, 0, 0, 0]);
    assert_eq!(field(&store, FieldId::VelocityY), vec![0; 16]);
    assert_eq!(field(&store, FieldId::Density), u);

    advect_velocity(&mut store, &p);
    advect_density(&mut store, &p);
    decay(&mut store, &p);
    let quarter = ONE / 4;
    assert_eq!(
        field(&store, FieldId::VelocityX),
        vec![0, quarter, 0, 0, half, half, 3 * quarter, 0, 0, quarter, 0, 0, 0, 0, 0, 0]
    );
    let before = divergence_now(&store);
    assert_eq!(before[5], ONE / 8);

    project_velocity(&mut store, &p);
    assert_eq!(field(&store, FieldId::Divergence), before);
    let after = divergence_now(&store);
    assert!(after[5] != 0);
    assert!(after[5].abs() < before[5].abs());
}

#[test]
fn one_tick_with_a_stroke_gives_the_expected_fields() {
    let mut store = FieldStore::new(4).unwrap();
    tick(&mut store, &stroke(4, 20));
    assert_eq!(
        field(&store, FieldId::VelocityX),
        vec![
            -265829189, 441375687, -474181022, -107644074, 1979871858, 1515035591, 2526461977,
            -229927228, -213182716, 563396697, -380920954, -83758543, -124552298, -289926494,
            -246785146, -81410949
        ]
    );
    assert_eq!(
        field(&store, FieldId::VelocityY),
        vec![
            -63050704, 35166694, -63132624, -185415779, -17861324, 34785149, 104159686, 128045217,
            -22654942, 20404550, 319866621, 468382900, -67844322, 20786095, 152574310, 154921903
        ]
    );
    assert_eq!(
        field(&store, FieldId::Density),
        vec![0, 1610612736, 0, 0, 2147483648, 3221225472, 3758096384, 0, 0, 1610612736, 0, 0, 0, 0, 0, 0]
    );
    assert_eq!(
        field(&store, FieldId::Divergence),
        vec![
            536870912, 0, -536870912, 0, 0, 536870912, -1073741824, -1610612736, 536870912, 0,
            -536870912, 0, 0, 0, 0, 0
        ]
    );
}

#[test]
fn more_sweeps_lower_the_divergence_of_a_stroke() {
    let interior = [5usize, 6, 9, 10];
    let mut last: i64 = ONE / 8 * 4;
    for sweeps in [1u32, 2, 5, 10, 20, 40] {
        let mut store = FieldStore::new(4).unwrap();
        tick(&mut store, &stroke(4, sweeps));
        let before: i64 = interior.iter().map(|i| field(&store, FieldId::Divergence)[*i].abs()).sum();
        assert_eq!(before, ONE / 2);
        let now = divergence_now(&store);
        let after: i64 = interior.iter().map(|i| now[*i].abs()).sum();
        assert!(after < last);
        last = after;
    }
}

#[test]
fn density_stays_bounded_while_the_pointer_is_released() {
    let mut store = busy_store(6);
    let p = TickParams::new(
        6,
        Fx::from_raw(ONE / 3),
        Fx::zero(),
        Fx::from_raw(ONE - ONE / 500),
        Fx::from_int(2),
        Fx::from_int(2),
        9,
    )
    .unwrap();
    let mut bound = field(&store, FieldId::Density).iter().map(|v| v.abs()).max().unwrap();
    for _ in 0..12 {
        tick(&mut store, &p);
        let now = field(&store, FieldId::Density).iter().map(|v| v.abs()).max().unwrap();
        assert!(now <= bound);
        bound = now;
    }
}
