use anmstrm2anm::quant::{quantize_i16, quantize_u8, QUAT_COMPRESS, RGB_CONVERT, SCALE_COMPRESS};

#[test]
fn quat_one_is_32767() {
    assert_eq!(quantize_i16(f32::to_bits(1.0), QUAT_COMPRESS), 32767);
}

#[test]
fn quat_minus_one_is_minus_32767() {
    assert_eq!(quantize_i16(f32::to_bits(-1.0), QUAT_COMPRESS), -32767);
}

#[test]
fn quat_half_truncates() {
    // 0.5 * 32767 = 16383.5, truncated toward zero.
    assert_eq!(quantize_i16(f32::to_bits(0.5), QUAT_COMPRESS), 16383);
    assert_eq!(quantize_i16(f32::to_bits(-0.5), QUAT_COMPRESS), -16383);
}

#[test]
fn quat_saturates() {
    assert_eq!(quantize_i16(f32::to_bits(3.0), QUAT_COMPRESS), 32767);
    assert_eq!(quantize_i16(f32::to_bits(-3.0), QUAT_COMPRESS), -32768);
    assert_eq!(quantize_i16(f32::to_bits(f32::INFINITY), QUAT_COMPRESS), 32767);
    assert_eq!(quantize_i16(f32::to_bits(f32::NEG_INFINITY), QUAT_COMPRESS), -32768);
}

#[test]
fn quat_nan_is_zero() {
    assert_eq!(quantize_i16(f32::to_bits(f32::NAN), QUAT_COMPRESS), 0);
}

#[test]
fn quat_zero_and_subnormal() {
    assert_eq!(quantize_i16(f32::to_bits(0.0), QUAT_COMPRESS), 0);
    assert_eq!(quantize_i16(f32::to_bits(-0.0), QUAT_COMPRESS), 0);
    assert_eq!(quantize_i16(f32::to_bits(1.0e-40), QUAT_COMPRESS), 0);
}

#[test]
fn scale_compress_values() {
    assert_eq!(quantize_i16(f32::to_bits(1.0), SCALE_COMPRESS), 4096);
    assert_eq!(quantize_i16(f32::to_bits(2.5), SCALE_COMPRESS), 10240);
    assert_eq!(quantize_i16(f32::to_bits(-1.0), SCALE_COMPRESS), -4096);
}

#[test]
fn rgb_channel_values() {
    assert_eq!(quantize_u8(f32::to_bits(1.0), RGB_CONVERT), 255);
    assert_eq!(quantize_u8(f32::to_bits(0.5), RGB_CONVERT), 127);
    assert_eq!(quantize_u8(f32::to_bits(0.0), RGB_CONVERT), 0);
    assert_eq!(quantize_u8(f32::to_bits(-0.5), RGB_CONVERT), 0);
    assert_eq!(quantize_u8(f32::to_bits(2.0), RGB_CONVERT), 255);
    assert_eq!(quantize_u8(f32::to_bits(f32::NAN), RGB_CONVERT), 0);
}
