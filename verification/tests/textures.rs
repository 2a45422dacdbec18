use fluid_sim::fixed::Fx;
use fluid_sim::grid::Grid;
use fluid_sim::half::{f32_to_f16, fx_to_f16};
use fluid_sim::texture::{scalar_texture, vector_texture};

const ONE: i64 = 1 << 32;

fn grid_of(n: usize, values: &[i64]) -> Grid<Fx> {
    assert_eq!(values.len(), n * n);
    let mut g = Grid::filled(n, Fx::zero()).unwrap();
    for (i, v) in values.iter().enumerate() {
        g.set_index(i, Fx::from_raw(*v));
    }
    g
}

fn words(bytes: &[u8]) -> Vec<u16> {
    assert_eq!(bytes.len() % 2, 0);
    bytes.chunks(2).map(|pair| u16::from_ne_bytes([pair[0], pair[1]])).collect()
}

#[test]
fn from_f32_bits_reads_simple_numbers() {
    assert_eq!(Fx::from_f32_bits(1.0f32.to_bits()).raw, ONE);
    assert_eq!(Fx::from_f32_bits((-1.0f32).to_bits()).raw, -ONE);
    assert_eq!(Fx::from_f32_bits(0.5f32.to_bits()).raw, ONE / 2);
    assert_eq!(Fx::from_f32_bits(35.0f32.to_bits()).raw, 35 * ONE);
    assert_eq!(Fx::from_f32_bits((-0.375f32).to_bits()).raw, -3 * ONE / 8);
    assert_eq!(Fx::from_f32_bits(0.0f32.to_bits()).raw, 0);
    assert_eq!(Fx::from_f32_bits((-0.0f32).to_bits()).raw, 0);
}

#[test]
fn from_f32_bits_matches_the_float() {
    for v in [0.016f32, 0.0001, 0.998, 2.0, 128.0, 3.14159, -777.125, 1.0e-7, 123456.79] {
        let expected = (v as f64 * ONE as f64).trunc() as i64;
        assert_eq!(Fx::from_f32_bits(v.to_bits()).raw, expected);
    }
}

#[test]
fn from_f32_bits_rounds_toward_zero() {
    let tiny = f32::from_bits(0x2F80_0000);
    assert_eq!(tiny, 2.0f32.powi(-32));
    assert_eq!(Fx::from_f32_bits(tiny.to_bits()).raw, 1);
    assert_eq!(Fx::from_f32_bits((tiny * 1.5).to_bits()).raw, 1);
    assert_eq!(Fx::from_f32_bits((-tiny * 1.5).to_bits()).raw, -1);
    assert_eq!(Fx::from_f32_bits((tiny / 2.0).to_bits()).raw, 0);
    assert_eq!(Fx::from_f32_bits((-tiny / 2.0).to_bits()).raw, 0);
    assert_eq!(Fx::from_f32_bits(f32::MIN_POSITIVE.to_bits()).raw, 0);
    assert_eq!(Fx::from_f32_bits(1).raw, 0);
    assert_eq!(Fx::from_f32_bits(0x8000_0001).raw, 0);
}

#[test]
fn from_f32_bits_saturates() {
    assert_eq!(Fx::from_f32_bits(f32::INFINITY.to_bits()).raw, i64::MAX);
    assert_eq!(Fx::from_f32_bits(f32::NEG_INFINITY.to_bits()).raw, i64::MIN);
    assert_eq!(Fx::from_f32_bits(f32::MAX.to_bits()).raw, i64::MAX);
    assert_eq!(Fx::from_f32_bits(f32::MIN.to_bits()).raw, i64::MIN);
    assert_eq!(Fx::from_f32_bits(2147483648.0f32.to_bits()).raw, i64::MAX);
    assert_eq!(Fx::from_f32_bits((-2147483648.0f32).to_bits()).raw, i64::MIN);
    assert_eq!(Fx::from_f32_bits(2147483520.0f32.to_bits()).raw, 2147483520 * ONE);
    assert_eq!(Fx::from_f32_bits((-2147483520.0f32).to_bits()).raw, -2147483520 * ONE);
}

#[test]
fn from_f32_bits_of_nan_is_zero() {
    assert_eq!(Fx::from_f32_bits(f32::NAN.to_bits()).raw, 0);
    assert_eq!(Fx::from_f32_bits(0x7F80_0001).raw, 0);
    assert_eq!(Fx::from_f32_bits(0xFFFF_FFFF).raw, 0);
}

#[test]
fn to_f32_bits_writes_simple_numbers() {
    assert_eq!(Fx::zero().to_f32_bits(), 0);
    assert_eq!(Fx::one().to_f32_bits(), 1.0f32.to_bits());
    assert_eq!(Fx::from_int(-1).to_f32_bits(), (-1.0f32).to_bits());
    assert_eq!(Fx::from_raw(ONE / 2).to_f32_bits(), 0.5f32.to_bits());
    assert_eq!(Fx::from_raw(-3 * ONE / 8).to_f32_bits(), (-0.375f32).to_bits());
    assert_eq!(Fx::from_int(1000).to_f32_bits(), 1000.0f32.to_bits());
    assert_eq!(Fx::from_raw(1).to_f32_bits(), 2.0f32.powi(-32).to_bits());
    assert_eq!(Fx::from_raw(-1).to_f32_bits(), (-(2.0f32.powi(-32))).to_bits());
    assert_eq!(Fx::from_raw(i64::MIN).to_f32_bits(), (-2147483648.0f32).to_bits());
}

#[test]
fn to_f32_bits_rounds_toward_zero() {
    assert_eq!(Fx::from_raw(i64::MAX).to_f32_bits(), 2147483520.0f32.to_bits());
    assert_eq!(Fx::from_raw(ONE + 1).to_f32_bits(), 1.0f32.to_bits());
    assert_eq!(Fx::from_raw(-ONE - 1).to_f32_bits(), (-1.0f32).to_bits());
    assert_eq!(Fx::from_raw(ONE + (1 << 9)).to_f32_bits(), 1.0f32.to_bits() + 1);
    assert_eq!(Fx::from_raw(ONE - 1).to_f32_bits(), 1.0f32.to_bits() - 1);
    assert_eq!(Fx::from_raw(0x00FF_FFFF).to_f32_bits(), 0x3B7F_FFFF);
    assert_eq!(Fx::from_raw(0x01FF_FFFF).to_f32_bits(), 0x3BFF_FFFF);
}

#[test]
fn single_precision_round_trip_is_exact() {
    for v in [0.016f32, 0.0001, 0.998, 2.0, 35.0, -0.3333, 9999.5, 1.0e-6] {
        let x = Fx::from_f32_bits(v.to_bits());
        let back = f32::from_bits(x.to_f32_bits());
        assert!((back - v).abs() <= v.abs() * 1.0e-6 + 2.0f32.powi(-32));
        assert_eq!(Fx::from_f32_bits(back.to_bits()), x);
    }
}

#[test]
fn fx_to_f16_goes_through_single_precision() {
    assert_eq!(fx_to_f16(Fx::one()), 0x3C00);
    assert_eq!(fx_to_f16(Fx::from_raw(ONE / 2)), 0x3800);
    assert_eq!(fx_to_f16(Fx::from_int(-2)), 0xC000);
    assert_eq!(fx_to_f16(Fx::zero()), 0);
    assert_eq!(fx_to_f16(Fx::from_raw(1)), 0);
    assert_eq!(fx_to_f16(Fx::from_int(65504)), 0x7BFF);
    assert_eq!(fx_to_f16(Fx::from_int(65536)), 0x7C00);
    assert_eq!(fx_to_f16(Fx::from_raw(i64::MIN)), 0xFC00);
    assert_eq!(fx_to_f16(Fx::from_raw(3 * ONE / 4)), 0x3A00);
    for raw in [12345678901i64, -987654321, ONE * 7 + 5, 1 << 20] {
        let x = Fx::from_raw(raw);
        assert_eq!(fx_to_f16(x), f32_to_f16(x.to_f32_bits()));
    }
}

#[test]
fn scalar_texture_fills_the_first_channel() {
    let g = grid_of(2, &[ONE, ONE / 2, -2 * ONE, 0]);
    let data = scalar_texture(&g);
    assert_eq!(data.width, 2);
    assert_eq!(data.height, 2);
    assert_eq!(data.bytes_per_row, 16);
    assert_eq!(data.rows_per_image, 2);
    assert_eq!(data.bytes.len(), 32);
    assert_eq!(
        words(&data.bytes),
        vec![0x3C00, 0, 0, 0, 0x3800, 0, 0, 0, 0xC000, 0, 0, 0, 0, 0, 0, 0]
    );
}

#[test]
fn vector_texture_fills_two_channels() {
    let a = grid_of(2, &[ONE, ONE / 2, -2 * ONE, 0]);
    let b = grid_of(2, &[0, 3 * ONE / 4, ONE, 70000 * ONE]);
    let data = vector_texture(&a, &b);
    assert_eq!(data.width, 2);
    assert_eq!(data.height, 2);
    assert_eq!(data.bytes_per_row, 16);
    assert_eq!(data.rows_per_image, 2);
    assert_eq!(
        words(&data.bytes),
        vec![0x3C00, 0, 0, 0, 0x3800, 0x3A00, 0, 0, 0xC000, 0x3C00, 0, 0, 0, 0x7C00, 0, 0]
    );
}

#[test]
fn texture_of_a_larger_grid_has_eight_bytes_per_cell() {
    let g = Grid::filled(37, Fx::one()).unwrap();
    let data = scalar_texture(&g);
    assert_eq!(data.bytes_per_row, 8 * 37);
    assert_eq!(data.rows_per_image, 37);
    assert_eq!(data.bytes.len(), 8 * 37 * 37);
    let w = words(&data.bytes);
    for (j, word) in w.iter().enumerate() {
        assert_eq!(*word, if j % 4 == 0 { 0x3C00 } else { 0 });
    }
}
