//! 32-bit IEEE 754 floats held as their bit patterns: finiteness, and the
//! conversion to integers that Rust's `as` performs (toward zero,
//! saturating, NaN to 0).

use vstd::prelude::*;
use vstd::arithmetic::power2::{pow2, lemma2_to64, lemma2_to64_rest, lemma_pow2_strictly_increases};
use vstd::bits::{lemma_u64_shl_is_mul, lemma_u64_shr_is_div};

verus! {

/// The biased exponent field.
pub open spec fn f32_exponent(b: u32) -> int {
    ((b >> 23u32) & 0xffu32) as int
}

/// The fraction field.
pub open spec fn f32_fraction(b: u32) -> int {
    (b & 0x7f_ffffu32) as int
}

pub open spec fn f32_negative(b: u32) -> bool {
    b >= 0x8000_0000u32
}

/// Neither infinite nor NaN: the exponent field is not all ones.
pub open spec fn f32_finite(b: u32) -> bool {
    f32_exponent(b) != 255
}

/// The magnitude of a finite float, rounded toward zero.
pub open spec fn f32_trunc_magnitude(b: u32) -> int {
    let e = f32_exponent(b);
    if e == 0 {
        0
    } else {
        let m = f32_fraction(b) + 0x80_0000;
        if e >= 150 {
            m * pow2((e - 150) as nat)
        } else {
            m / (pow2((150 - e) as nat) as int)
        }
    }
}

/// The float converted to an integer of range `[lo, hi]` as `as` does:
/// NaN gives 0, infinities and values out of range give the nearest bound,
/// the others are rounded toward zero.
pub open spec fn f32_as_int(b: u32, lo: int, hi: int) -> int {
    if f32_exponent(b) == 255 {
        if f32_fraction(b) != 0 {
            0
        } else if f32_negative(b) {
            lo
        } else {
            hi
        }
    } else {
        let t = if f32_negative(b) {
            -f32_trunc_magnitude(b)
        } else {
            f32_trunc_magnitude(b)
        };
        if t < lo {
            lo
        } else if t > hi {
            hi
        } else {
            t
        }
    }
}

/// The float is neither infinite nor NaN.
pub fn f32_bits_finite(b: u32) -> (r: bool)
    ensures
        r == f32_finite(b),
{
    (b >> 23u32) & 0xffu32 != 0xffu32
}

/// `f32::from_bits(b) as i64`.
pub fn f32_bits_as_i64(b: u32) -> (r: i64)
    ensures
        r == f32_as_int(b, i64::MIN as int, i64::MAX as int),
{
    let e: u32 = (b >> 23u32) & 0xffu32;
    let m: u32 = b & 0x7f_ffffu32;
    let neg: bool = b >= 0x8000_0000u32;
    assert(e <= 255) by (bit_vector)
        requires
            e == (b >> 23u32) & 0xffu32,
    ;
    assert(m <= 0x7f_ffff) by (bit_vector)
        requires
            m == b & 0x7f_ffffu32,
    ;
    if e == 255 {
        if m != 0 {
            0
        } else if neg {
            i64::MIN
        } else {
            i64::MAX
        }
    } else if e == 0 {
        0
    } else {
        let big: u64 = m as u64 + 0x80_0000u64;
        proof {
            lemma2_to64();
            lemma2_to64_rest();
        }
        if e >= 150 {
            let shift: u64 = (e - 150) as u64;
            if shift >= 40 {
                proof {
                    if shift > 40 {
                        lemma_pow2_strictly_increases(40, shift as nat);
                    }
                    let p = pow2(shift as nat);
                    assert(big * p >= 0x80_0000 * 0x100_0000_0000) by (nonlinear_arith)
                        requires
                            big >= 0x80_0000,
                            p >= 0x100_0000_0000,
                    ;
                }
                if neg {
                    i64::MIN
                } else {
                    i64::MAX
                }
            } else {
                proof {
                    if shift < 39 {
                        lemma_pow2_strictly_increases(shift as nat, 39);
                    }
                    let p = pow2(shift as nat);
                    assert(big * p <= 0xff_ffff * 0x80_0000_0000) by (nonlinear_arith)
                        requires
                            big <= 0xff_ffff,
                            p <= 0x80_0000_0000,
                    ;
                    lemma_u64_shl_is_mul(big, shift);
                }
                let mag: u64 = big << shift;
                assert(mag < 0x8000_0000_0000_0000);
                if neg {
                    -(mag as i64)
                } else {
                    mag as i64
                }
            }
        } else {
            let shift: u64 = (150 - e) as u64;
            if shift >= 24 {
                proof {
                    if shift > 24 {
                        lemma_pow2_strictly_increases(24, shift as nat);
                    }
                    let p = pow2(shift as nat);
                    assert(big as int / p as int == 0) by (nonlinear_arith)
                        requires
                            0 <= big < p,
                    ;
                }
                0
            } else {
                proof {
                    lemma_u64_shr_is_div(big, shift);
                    let p = pow2(shift as nat);
                    assert(big as int / p as int <= big) by (nonlinear_arith)
                        requires
                            p >= 1,
                            big >= 0,
                    ;
                }
                let mag: u64 = big >> shift;
                if neg {
                    -(mag as i64)
                } else {
                    mag as i64
                }
            }
        }
    }
}

/// `f32::from_bits(b) as i32`.
pub fn f32_bits_as_i32(b: u32) -> (r: i32)
    ensures
        r == f32_as_int(b, i32::MIN as int, i32::MAX as int),
{
    let v = f32_bits_as_i64(b);
    if v < i32::MIN as i64 {
        i32::MIN
    } else if v > i32::MAX as i64 {
        i32::MAX
    } else {
        v as i32
    }
}

/// `f32::from_bits(b) as u8`.
pub fn f32_bits_as_u8(b: u32) -> (r: u8)
    ensures
        r == f32_as_int(b, 0, 255),
{
    let v = f32_bits_as_i64(b);
    if v < 0 {
        0
    } else if v > 255 {
        255
    } else {
        v as u8
    }
}

} // verus!
