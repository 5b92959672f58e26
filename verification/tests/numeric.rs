//! The integer construction of floating-point bit patterns against the
//! machine's own arithmetic.

use goth_gltf::fbits::{ratio_to_bits, decimal_to_bits, unorm_to_bits, snorm_to_bits, uint_to_bits};

#[test]
fn ratio_simple_values() {
    assert_eq!(ratio_to_bits(false, 1, 1, 0), 1.0f32.to_bits());
    assert_eq!(ratio_to_bits(false, 1, 2, 0), 0.5f32.to_bits());
    assert_eq!(ratio_to_bits(false, 3, 2, 0), 1.5f32.to_bits());
    assert_eq!(ratio_to_bits(true, 1, 1, 0), (-1.0f32).to_bits());
    assert_eq!(ratio_to_bits(false, 0, 1, 0), 0.0f32.to_bits());
    assert_eq!(ratio_to_bits(true, 0, 1, 0), (-0.0f32).to_bits());
    assert_eq!(ratio_to_bits(false, 1, 3, 0), (1.0f32 / 3.0f32).to_bits());
}

#[test]
fn ratio_rounding_matches_hardware_division() {
    // hardware float division is correctly rounded, so it is ground truth
    // for ratios whose operands are exact
    let cases: Vec<(u128, u128)> = vec![
        (1, 7),
        (2, 3),
        (100, 3),
        (16777215, 16777216),
        (16777217, 2),
        (999983, 999979),
        (123456789, 512),
        (1, 65535),
        (127, 255),
        (254, 255),
    ];
    for (num, den) in cases {
        let expect = (num as f32 / den as f32).to_bits();
        assert_eq!(ratio_to_bits(false, num, den, 0), expect, "ratio {}/{}", num, den);
    }
}

#[test]
fn ratio_extremes() {
    // past the largest finite magnitude the pattern is the infinity
    assert_eq!(ratio_to_bits(false, 1, 1, 1000), f32::INFINITY.to_bits());
    assert_eq!(ratio_to_bits(true, 1, 1, 1000), f32::NEG_INFINITY.to_bits());
    // below the normal range the pattern flushes to zero
    assert_eq!(ratio_to_bits(false, 1, 1, -1000), 0.0f32.to_bits());
}

#[test]
fn decimal_parses_common_constants() {
    assert_eq!(decimal_to_bits(false, 15, -1), 1.5f32.to_bits());
    assert_eq!(decimal_to_bits(false, 5, -1), 0.5f32.to_bits());
    assert_eq!(decimal_to_bits(false, 1, 0), 1.0f32.to_bits());
    assert_eq!(decimal_to_bits(false, 25, -2), 0.25f32.to_bits());
    assert_eq!(decimal_to_bits(false, 1, -1), 0.1f32.to_bits());
    assert_eq!(decimal_to_bits(false, 31415927, -7), 3.1415927f32.to_bits());
    assert_eq!(decimal_to_bits(false, 7853982, -7), 0.7853982f32.to_bits());
    assert_eq!(decimal_to_bits(true, 125, -3), (-0.125f32).to_bits());
    assert_eq!(decimal_to_bits(false, 1, 10), 1.0e10f32.to_bits());
    assert_eq!(decimal_to_bits(false, 2997924580, -1), 299792458.0f32.to_bits());
}

#[test]
fn decimal_extremes() {
    assert_eq!(decimal_to_bits(false, 1, 39), f32::INFINITY.to_bits());
    assert_eq!(decimal_to_bits(true, 1, 39), f32::NEG_INFINITY.to_bits());
    assert_eq!(decimal_to_bits(false, 1, -48), 0.0f32.to_bits());
    assert_eq!(decimal_to_bits(false, 0, 0), 0.0f32.to_bits());
    assert_eq!(decimal_to_bits(true, 0, 0), (-0.0f32).to_bits());
    assert_eq!(decimal_to_bits(false, 34, 37), 3.4e38f32.to_bits());
}

#[test]
fn unsigned_normalization_matches_hardware() {
    for v in [0u32, 1, 2, 63, 64, 127, 128, 200, 254, 255] {
        let expect = (v as f32 / 255.0f32).to_bits();
        assert_eq!(unorm_to_bits(v, 255), expect, "unorm {}/255", v);
    }
    for v in [0u32, 1, 32767, 32768, 65534, 65535] {
        let expect = (v as f32 / 65535.0f32).to_bits();
        assert_eq!(unorm_to_bits(v, 65535), expect, "unorm {}/65535", v);
    }
}

#[test]
fn signed_normalization_clamps_at_minus_one() {
    // the asymmetric two's-complement low end clamps to exactly minus one
    assert_eq!(snorm_to_bits(-32768, 32767), (-1.0f32).to_bits());
    assert_eq!(snorm_to_bits(-128, 127), (-1.0f32).to_bits());
    assert_eq!(snorm_to_bits(32767, 32767), 1.0f32.to_bits());
    assert_eq!(snorm_to_bits(127, 127), 1.0f32.to_bits());
    for v in [-32767i32, -12345, -1, 0, 1, 12345, 32767] {
        let expect = ((v as f32 / 32767.0f32).max(-1.0f32)).to_bits();
        assert_eq!(snorm_to_bits(v, 32767), expect, "snorm {}/32767", v);
    }
    for v in [-127i32, -100, -1, 0, 1, 100, 127] {
        let expect = ((v as f32 / 127.0f32).max(-1.0f32)).to_bits();
        assert_eq!(snorm_to_bits(v, 127), expect, "snorm {}/127", v);
    }
}

#[test]
fn widening_is_exact() {
    for v in [0u32, 1, 255, 256, 65535, 16777215] {
        assert_eq!(uint_to_bits(v), (v as f32).to_bits(), "widen {}", v);
    }
}
