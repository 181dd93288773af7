//! Lossy quantization of float samples, done entirely on the raw IEEE-754
//! bit pattern: the result is the exact real product `value * scale`
//! truncated toward zero, saturated to the target integer range, with NaN
//! mapped to zero. Truncation (not rounding to nearest) is the defined
//! behavior of this compression step.

use vstd::prelude::*;
use vstd::arithmetic::power2::{
    pow2,
    lemma_pow2_pos,
    lemma_pow2_strictly_increases,
    lemma2_to64_rest,
};
use vstd::bits::lemma_u64_shr_is_div;

verus! {

/// Scale used for quantized-short 3-vector (scale) components.
pub const SCALE_COMPRESS: u32 = 4096;

/// Scale used for quantized-short quaternion (rotation) components.
pub const QUAT_COMPRESS: u32 = 32767;

/// Scale used for byte-RGB color channels.
pub const RGB_CONVERT: u32 = 255;

/// Sign bit of an IEEE-754 single-precision bit pattern.
pub open spec fn f32_sign(bits: u32) -> bool {
    bits >> 31 == 1
}

/// Biased exponent field of an IEEE-754 single-precision bit pattern.
pub open spec fn f32_exp(bits: u32) -> u32 {
    (bits >> 23) & 0xff
}

/// Fraction field of an IEEE-754 single-precision bit pattern.
pub open spec fn f32_frac(bits: u32) -> u32 {
    bits & 0x7fffff
}

/// Whether the bit pattern denotes a NaN.
pub open spec fn f32_is_nan(bits: u32) -> bool {
    f32_exp(bits) == 255 && f32_frac(bits) != 0
}

/// `floor(|value| * scale)` where `value` is the real number the bit
/// pattern denotes: a subnormal is `frac * 2^-149`, a normal is
/// `(2^23 + frac) * 2^(exp - 150)`, and an infinity falls under the
/// large-exponent case, far beyond every saturation bound.
pub open spec fn scaled_mag(bits: u32, scale: u32) -> int {
    let e = f32_exp(bits) as int;
    let m = f32_frac(bits) as int;
    if e == 0 {
        (m * scale) / (pow2(149) as int)
    } else if e >= 150 {
        ((0x800000 + m) * scale) * (pow2((e - 150) as nat) as int)
    } else {
        ((0x800000 + m) * scale) / (pow2((150 - e) as nat) as int)
    }
}

/// Truncating, saturating quantization to a signed 16-bit integer:
/// `trunc(value * scale)` clamped to the i16 range, NaN mapped to 0.
pub open spec fn quant_i16(bits: u32, scale: u32) -> i16 {
    if f32_is_nan(bits) {
        0i16
    } else if f32_sign(bits) {
        if scaled_mag(bits, scale) >= 32768 {
            -32768i16
        } else {
            (-scaled_mag(bits, scale)) as i16
        }
    } else {
        if scaled_mag(bits, scale) >= 32767 {
            32767i16
        } else {
            scaled_mag(bits, scale) as i16
        }
    }
}

/// Truncating, saturating quantization to an unsigned byte:
/// `trunc(value * scale)` clamped to the u8 range; NaN and every negative
/// value map to 0.
pub open spec fn quant_u8(bits: u32, scale: u32) -> u8 {
    if f32_is_nan(bits) || f32_sign(bits) {
        0u8
    } else if scaled_mag(bits, scale) >= 255 {
        255u8
    } else {
        scaled_mag(bits, scale) as u8
    }
}

/// `floor(|value| * scale)`, clamped to 65536 so it fits comfortably in
/// an exec integer; every saturation bound of the quantizers is below
/// the clamp.
fn scaled_mag_clamped(bits: u32, scale: u32) -> (r: u64)
    requires
        1 <= scale <= 0x8000,
    ensures
        scaled_mag(bits, scale) >= 65536 ==> r == 65536,
        scaled_mag(bits, scale) < 65536 ==> r == scaled_mag(bits, scale),
{
    let e = (bits >> 23) & 0xff;
    let m = bits & 0x7fffff;
    proof {
        assert(bits & 0x7fffff <= 0x7fffff) by (bit_vector);
        assert((bits >> 23) & 0xff <= 0xff) by (bit_vector);
    }
    if e == 0 {
        proof {
            lemma_pow2_strictly_increases(38, 149);
            lemma2_to64_rest();
            assert(m * scale <= 0x7fffff * 0x8000) by (nonlinear_arith)
                requires
                    0 <= m <= 0x7fffff,
                    0 <= scale <= 0x8000,
            ;
            assert(0x7fffff * 0x8000 < pow2(38));
            assert((m * scale) / (pow2(149) as int) == 0) by (nonlinear_arith)
                requires
                    0 <= m * scale < pow2(149),
                    pow2(149) > 0,
            ;
        }
        0
    } else if e >= 150 {
        proof {
            lemma_pow2_pos((e - 150) as nat);
            assert((0x800000 + m) * scale >= 0x800000) by (nonlinear_arith)
                requires
                    m >= 0,
                    scale >= 1,
            ;
            assert(((0x800000 + m as int) * scale) * (pow2((e - 150) as nat) as int) >= (0x800000
                + m as int) * scale) by (nonlinear_arith)
                requires
                    (0x800000 + m as int) * scale >= 0,
                    pow2((e - 150) as nat) >= 1,
            ;
        }
        65536
    } else {
        let shift: u32 = 150 - e;
        let mfull: u64 = 0x800000 + m as u64;
        proof {
            assert(mfull * (scale as u64) <= 0xffffff * 0x8000) by (nonlinear_arith)
                requires
                    0 <= mfull <= 0xffffff,
                    0 <= scale as u64 <= 0x8000,
            ;
        }
        let prod: u64 = mfull * scale as u64;
        if shift >= 40 {
            proof {
                lemma_pow2_strictly_increases(39, shift as nat);
                lemma2_to64_rest();
                assert(0xffffff * 0x8000 < pow2(39));
                assert((prod as int) / (pow2(shift as nat) as int) == 0) by (nonlinear_arith)
                    requires
                        0 <= prod < pow2(shift as nat),
                        pow2(shift as nat) > 0,
                ;
            }
            0
        } else {
            let r = prod >> (shift as u64);
            proof {
                lemma_u64_shr_is_div(prod, shift as u64);
                lemma_pow2_pos(shift as nat);
                assert(prod as nat / pow2(shift as nat) == (prod as int) / (pow2(
                    shift as nat,
                ) as int));
                assert(r <= prod) by {
                    assert(prod as nat / pow2(shift as nat) <= prod as nat) by (nonlinear_arith)
                        requires
                            pow2(shift as nat) >= 1,
                    ;
                };
            }
            if r > 65536 {
                65536
            } else {
                r
            }
        }
    }
}

/// Quantize one float component (given as its raw bit pattern) to a
/// signed 16-bit integer by truncating the exact product `value * scale`
/// toward zero, saturating at the i16 range; NaN quantizes to 0.
pub fn quantize_i16(bits: u32, scale: u32) -> (r: i16)
    requires
        1 <= scale <= 0x8000,
    ensures
        r == quant_i16(bits, scale),
{
    let e = (bits >> 23) & 0xff;
    let m = bits & 0x7fffff;
    if e == 255 && m != 0 {
        return 0;
    }
    let neg = (bits >> 31) == 1;
    let mag = scaled_mag_clamped(bits, scale);
    if neg {
        if mag >= 32768 {
            -32768
        } else {
            -(mag as i16)
        }
    } else {
        if mag >= 32767 {
            32767
        } else {
            mag as i16
        }
    }
}

/// Quantize one float component (given as its raw bit pattern) to an
/// unsigned byte by truncating the exact product `value * scale` toward
/// zero, saturating at the u8 range; NaN and negative values quantize
/// to 0.
pub fn quantize_u8(bits: u32, scale: u32) -> (r: u8)
    requires
        1 <= scale <= 0x8000,
    ensures
        r == quant_u8(bits, scale),
{
    let e = (bits >> 23) & 0xff;
    let m = bits & 0x7fffff;
    if e == 255 && m != 0 {
        return 0;
    }
    if (bits >> 31) == 1 {
        return 0;
    }
    let mag = scaled_mag_clamped(bits, scale);
    if mag >= 255 {
        255
    } else {
        mag as u8
    }
}

} // verus!
