use fluid_sim::half::f32_to_f16;

#[test]
fn half_of_simple_numbers() {
    assert_eq!(f32_to_f16(1.0f32.to_bits()), 0x3C00);
    assert_eq!(f32_to_f16(0.5f32.to_bits()), 0x3800);
    assert_eq!(f32_to_f16(2.0f32.to_bits()), 0x4000);
    assert_eq!(f32_to_f16((-2.0f32).to_bits()), 0xC000);
    assert_eq!(f32_to_f16(0.75f32.to_bits()), 0x3A00);
    assert_eq!(f32_to_f16(1.5f32.to_bits()), 0x3E00);
    assert_eq!(f32_to_f16((-0.1875f32).to_bits()), 0xB200);
}

#[test]
fn half_of_zero_is_zero() {
    assert_eq!(f32_to_f16(0.0f32.to_bits()), 0);
    assert_eq!(f32_to_f16((-0.0f32).to_bits()), 0);
}

#[test]
fn half_flushes_small_magnitudes_to_zero() {
    assert_eq!(f32_to_f16(1e-10f32.to_bits()), 0);
    assert_eq!(f32_to_f16((-1e-10f32).to_bits()), 0);
    assert_eq!(f32_to_f16(f32::MIN_POSITIVE.to_bits()), 0);
    assert_eq!(f32_to_f16(0x3800_0000), 0);
    assert_eq!(f32_to_f16(0x387F_FFFF), 0);
    assert_eq!(f32_to_f16(0xB87F_FFFF), 0);
    assert_eq!(f32_to_f16(0x3880_0000), 0x0400);
    assert_eq!(f32_to_f16(0xB880_0000), 0x8400);
}

#[test]
fn half_overflows_to_infinity() {
    assert_eq!(f32_to_f16(65504.0f32.to_bits()), 0x7BFF);
    assert_eq!(f32_to_f16(65535.0f32.to_bits()), 0x7BFF);
    assert_eq!(f32_to_f16(65536.0f32.to_bits()), 0x7C00);
    assert_eq!(f32_to_f16(1e10f32.to_bits()), 0x7C00);
    assert_eq!(f32_to_f16((-1e10f32).to_bits()), 0xFC00);
    assert_eq!(f32_to_f16(f32::INFINITY.to_bits()), 0x7C00);
    assert_eq!(f32_to_f16(f32::NEG_INFINITY.to_bits()), 0xFC00);
    assert_eq!(f32_to_f16(f32::MAX.to_bits()), 0x7C00);
    assert_eq!(f32_to_f16(0x7FC0_0000), 0x7C00);
    assert_eq!(f32_to_f16(0xFFFF_FFFF), 0xFC00);
}

#[test]
fn half_drops_the_low_fraction_bits() {
    assert_eq!(f32_to_f16(0x3F80_1FFF), 0x3C00);
    assert_eq!(f32_to_f16(0x3F80_2000), 0x3C01);
    assert_eq!(f32_to_f16(0x3FFF_FFFF), 0x3FFF);
    assert_eq!(f32_to_f16(0xBFFF_FFFF), 0xBFFF);
    assert_eq!(f32_to_f16(0.1f32.to_bits()), 0x2E66);
    assert_eq!(f32_to_f16(0.998f32.to_bits()), 0x3BFB);
}
