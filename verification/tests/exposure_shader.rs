//! Half-precision uploads and the shader's parameters.

use curvectrl::exposure_shader::{
    f32_to_half, mono_to_half_bytes, percentile_bin, upload_layout, ExposureProgram,
    ResidentTexture, Uniforms,
};
use curvectrl::single::Single;

fn single(value: f32) -> Single {
    Single { bits: value.to_bits() }
}

fn half(value: f32) -> u16 {
    f32_to_half(single(value))
}

#[test]
fn f32_to_half_matches_canonical_values() {
    assert_eq!(half(0.0), 0x0000, "+0");
    assert_eq!(half(-0.0), 0x8000, "-0");
    assert_eq!(half(1.0), 0x3c00, "1.0");
    assert_eq!(half(-1.0), 0xbc00, "-1.0");
    assert_eq!(half(0.5), 0x3800, "0.5");
    assert_eq!(half(2.0), 0x4000, "2.0");
    assert_eq!(half(65504.0), 0x7bff, "largest finite half");
    assert_eq!(half(65536.0), 0x7c00, "overflow to +infinity");
    assert_eq!(half(-65536.0), 0xfc00, "overflow to -infinity");
    assert_eq!(half(0.1), 0x2e66, "0.1");
    assert_eq!(half(-0.1), 0xae66, "-0.1");
    assert_eq!(half(0.000_488_281_25), 0x1000, "2^-11");
    assert_eq!(half(0.000_061_035_156_25), 0x0400, "smallest normal, 2^-14");
    // Values smaller than the smallest normal flush to zero; no subnormals are
    // produced.
    assert_eq!(
        half(0.000_030_517_578_125),
        0x0000,
        "below the smallest normal flushes to 0"
    );
}

#[test]
fn f32_to_half_underflow_flushes_to_zero() {
    assert_eq!(half(1.0e-7), 0x0000, "tiny positive to +0");
    assert_eq!(half(-1.0e-7), 0x8000, "tiny negative to -0");
}

#[test]
fn f32_to_half_handles_infinity_and_nan() {
    assert_eq!(half(f32::INFINITY), 0x7c00, "+infinity");
    assert_eq!(half(f32::NEG_INFINITY), 0xfc00, "-infinity");
    assert_eq!(half(f32::NAN) & 0x7c00, 0x7c00, "NaN keeps the exponent");
    assert_eq!(half(f32::NAN) & 0x0200, 0x0200, "NaN keeps the mantissa bit");
}

#[test]
fn mono_to_half_bytes_lays_out_u16_le() {
    // For 1.0 we expect two bytes: 0x00 0x3C (little-endian 0x3C00).
    let bytes = mono_to_half_bytes(&[single(1.0)]);
    assert_eq!(bytes, [0x00, 0x3c]);
}

#[test]
fn halves_grow_with_their_numbers() {
    let values = [0.0_f32, 0.000_1, 0.01, 0.3, 0.300_1, 1.0, 700.0, 65504.0, 1.0e9];
    for pair in values.windows(2) {
        assert!(half(pair[0]) <= half(pair[1]), "{} and {}", pair[0], pair[1]);
    }
}

#[test]
fn ties_round_to_the_even_half() {
    // Halfway between 1.0 and the next half, and between the next two.
    assert_eq!(half(1.0 + 1.0 / 2048.0), 0x3c00);
    assert_eq!(half(1.0 + 3.0 / 2048.0), 0x3c02);
}

#[test]
fn rows_are_two_bytes_a_pixel() {
    let layout = upload_layout(2048, 1365);
    assert_eq!(layout.bytes_per_row, 4096);
    assert_eq!(layout.rows_per_image, 1365);
}

#[test]
fn the_first_bin_to_reach_the_target_is_found() {
    assert_eq!(percentile_bin(&[1, 2, 3], 3), Some(1));
    assert_eq!(percentile_bin(&[1, 2, 3], 4), Some(2));
    assert_eq!(percentile_bin(&[1, 2, 3], 7), None);
    assert_eq!(percentile_bin(&[], 0), None);
}

#[test]
fn uniforms_lie_in_the_order_of_the_shader() {
    let numbers: Vec<f32> = (1..=12).map(|i| i as f32 / 3.0).collect();
    let at = |i: usize| single(numbers[i]);
    let uniforms = Uniforms {
        exposure: at(0),
        tex_w: at(1),
        tex_h: at(2),
        sc_x: at(3),
        sc_y: at(4),
        sc_w: at(5),
        sc_h: at(6),
        zoom: at(7),
        pan_x: at(8),
        pan_y: at(9),
        curve_ratio: at(10),
        curve_exp: at(11),
    };
    let expected: Vec<u8> = numbers.iter().flat_map(|number| number.to_ne_bytes()).collect();
    assert_eq!(uniforms.bytes(), expected);
}

#[test]
fn a_texture_is_uploaded_once_for_each_image() {
    let mut texture = ResidentTexture::new();
    assert!(texture.prepare(0));
    assert!(!texture.prepare(0));
    assert!(texture.prepare(1));
    assert!(texture.prepare(0));
}

#[test]
fn a_program_starts_at_contain_fit() {
    let mut program =
        ExposureProgram::new(vec![single(0.5)], 1, 1, single(0.7), 3, single(0.4), single(0.9));
    assert_eq!((program.zoom, program.pan), (single(1.0), (single(0.0), single(0.0))));
    assert_eq!((program.contrast, program.rolloff), (single(1.0), single(1.0)));
    program.set_view(single(2.0), (single(3.0), single(4.0)));
    program.set_curve(single(1.1), single(0.9));
    program.set_exposure(single(-1.0));
    assert_eq!(program.zoom, single(2.0));
    assert_eq!(program.rolloff, single(0.9));
    assert_eq!(program.exposure, single(-1.0));
    assert_eq!(program.image_id, 3);
}
