//! Quantizes a non-negative magnitude, given as the bit pattern of an IEEE
//! single-precision float, to a display byte: the magnitude is divided by
//! the row width and scaled to the 0..=255 range, truncating.
//!
//! The computation is exact integer arithmetic on the decoded bit pattern,
//! so the result is the mathematical `min(255, floor(255 * v / k))` for the
//! value `v` the bits denote. Not-a-number and negative inputs quantize to
//! 0 and positive infinity saturates to 255, matching a truncating cast of
//! the float quotient to a byte.

use vstd::arithmetic::div_mod::{lemma_basic_div, lemma_div_by_multiple, lemma_div_is_ordered};
use vstd::arithmetic::power2::{lemma2_to64, lemma_pow2_strictly_increases, pow2};
use vstd::prelude::*;

verus! {

/// Sign bit of an IEEE single-precision bit pattern.
pub open spec fn f32_sign(bits: u32) -> bool {
    bits >> 31 == 1u32
}

/// Biased exponent field of an IEEE single-precision bit pattern.
pub open spec fn f32_exp(bits: u32) -> nat {
    ((bits >> 23) & 0xff) as nat
}

/// Fraction field of an IEEE single-precision bit pattern.
pub open spec fn f32_frac(bits: u32) -> nat {
    (bits & 0x7f_ffff) as nat
}

pub open spec fn f32_is_nan(bits: u32) -> bool {
    f32_exp(bits) == 255 && f32_frac(bits) != 0
}

pub open spec fn f32_is_inf(bits: u32) -> bool {
    f32_exp(bits) == 255 && f32_frac(bits) == 0
}

/// Integer significand: the finite value denoted by `bits` is
/// `f32_mant(bits) * 2^f32_scale(bits)` in magnitude.
pub open spec fn f32_mant(bits: u32) -> nat {
    if f32_exp(bits) == 0 {
        f32_frac(bits)
    } else {
        f32_frac(bits) + 0x80_0000
    }
}

/// Power-of-two scale of the significand.
pub open spec fn f32_scale(bits: u32) -> int {
    if f32_exp(bits) == 0 {
        -149
    } else {
        f32_exp(bits) - 150
    }
}

/// `min(255, floor(255 * v / k))` where `v` is the magnitude `bits` denote;
/// 0 for not-a-number or negative inputs, 255 for positive infinity.
pub open spec fn quantized_mag(bits: u32, k: nat) -> nat
    recommends
        k >= 1,
{
    if f32_is_nan(bits) || f32_sign(bits) {
        0
    } else if f32_is_inf(bits) {
        255
    } else {
        let m = f32_mant(bits);
        let e = f32_scale(bits);
        let q = if e >= 0 {
            (255 * m * pow2(e as nat)) / k
        } else {
            (255 * m) / (k * pow2((-e) as nat))
        };
        if q >= 255 {
            255
        } else {
            q
        }
    }
}

/// 2 to the power `e`, executable.
fn pow2_u128(e: usize) -> (r: u128)
    requires
        e < 128,
    ensures
        r == pow2(e as nat),
        r >= 1,
{
    let mut r: u128 = 1;
    let mut j: usize = 0;
    proof {
        assert(pow2(0) == 1) by {
            lemma2_to64();
        }
    }
    while j < e
        invariant
            j <= e < 128,
            r == pow2(j as nat),
        decreases e - j,
    {
        proof {
            assert(pow2(127) == 0x8000_0000_0000_0000_0000_0000_0000_0000) by {
                vstd::arithmetic::power2::lemma_pow2_adds(64, 63);
                lemma2_to64();
                vstd::arithmetic::power2::lemma2_to64_rest();
            }
            if j + 1 < 127 {
                lemma_pow2_strictly_increases((j + 1) as nat, 127);
            }
            assert(pow2((j + 1) as nat) == 2 * pow2(j as nat)) by {
                vstd::arithmetic::power2::lemma_pow2_unfold((j + 1) as nat);
            }
        }
        r = r * 2;
        j += 1;
    }
    proof {
        vstd::arithmetic::power2::lemma_pow2_pos(e as nat);
    }
    r
}

/// Quantize the magnitude whose bit pattern is `bits` for a row of width
/// `k`: exactly `quantized_mag(bits, k)`.
pub fn scale_byte(bits: u32, k: usize) -> (r: u8)
    requires
        k >= 1,
    ensures
        r as nat == quantized_mag(bits, k as nat),
{
    let sign = bits >> 31;
    let e = (bits >> 23) & 0xff;
    let f = bits & 0x7f_ffff;
    if e == 255 && f != 0 {
        return 0;
    }
    if sign == 1 {
        return 0;
    }
    if e == 255 {
        return 255;
    }
    proof {
        assert((bits & 0x7f_ffff) < 0x80_0000) by (bit_vector);
    }
    let m: u128 = if e == 0 {
        f as u128
    } else {
        (f as u128) + 0x80_0000
    };
    proof {
        assert(m == f32_mant(bits));
        assert(m < 0x100_0000);
    }
    if m == 0 {
        proof {
            vstd::arithmetic::power2::lemma_pow2_pos(149);
            assert(k * pow2(149) >= 1) by (nonlinear_arith)
                requires
                    k >= 1,
                    pow2(149) >= 1,
            ;
            lemma_basic_div(0, (k * pow2(149)) as int);
            lemma_basic_div(0, k as int);
        }
        return 0;
    }
    let t: u128 = 255 * m;
    if e >= 150 {
        // scale >= 0
        let ghost exp: nat = (e - 150) as nat;
        if e >= 150 + 64 {
            // The value is at least 2^64, past any possible width: saturate.
            proof {
                lemma_saturates(m as nat, exp, k as nat);
            }
            255
        } else {
            let p = pow2_u128((e - 150) as usize);
            proof {
                lemma_pow2_strictly_increases(exp, 64);
                assert(pow2(64) == 0x1_0000_0000_0000_0000) by {
                    lemma2_to64();
                }
                assert(t * p <= 0xff_ffff_ff00_0000_0000_0000_0000_0000) by (nonlinear_arith)
                    requires
                        t < 0x1_0000_0000,
                        p <= 0x1_0000_0000_0000_0000,
                ;
            }
            let num = t * p;
            let q = num / (k as u128);
            if q >= 255 {
                255
            } else {
                q as u8
            }
        }
    } else {
        // scale < 0
        let d = if e == 0 {
            149
        } else {
            150 - e
        };
        let ghost dn: nat = d as nat;
        proof {
            assert(dn == -f32_scale(bits));
        }
        if d >= 40 {
            // The divisor dwarfs the scaled magnitude: the quotient is 0.
            proof {
                lemma_vanishes(m as nat, dn, k as nat);
            }
            0
        } else {
            let p = pow2_u128(d as usize);
            proof {
                lemma_pow2_strictly_increases(dn, 40);
                assert(pow2(40) == 0x100_0000_0000) by {
                    vstd::arithmetic::power2::lemma2_to64_rest();
                }
                assert((k as u128) * p <= 0xffff_ffff_ffff_ffff_0000_0000_0000) by (nonlinear_arith)
                    requires
                        k < 0x1_0000_0000_0000_0000,
                        p <= 0x100_0000_0000,
                ;
            }
            let den = (k as u128) * p;
            proof {
                assert(den >= 1) by (nonlinear_arith)
                    requires
                        k >= 1,
                        p >= 1,
                        den == (k as u128) * p,
                ;
            }
            let q = t / den;
            if q >= 255 {
                255
            } else {
                q as u8
            }
        }
    }
}

/// With a scale of 2^64 or more, any positive significand saturates the
/// byte for any machine-sized width.
proof fn lemma_saturates(m: nat, exp: nat, k: nat)
    requires
        m >= 1,
        exp >= 64,
        1 <= k < 0x1_0000_0000_0000_0000,
    ensures
        (255 * m * pow2(exp)) / k >= 255,
{
    lemma_pow2_strictly_increases(63, exp);
    lemma2_to64();
    assert(pow2(exp) >= 0x1_0000_0000_0000_0000) by {
        if exp > 64 {
            lemma_pow2_strictly_increases(64, exp);
        }
    }
    assert(255 * m * pow2(exp) >= 255 * k) by (nonlinear_arith)
        requires
            m >= 1,
            pow2(exp) >= 0x1_0000_0000_0000_0000,
            k < 0x1_0000_0000_0000_0000,
    ;
    lemma_div_is_ordered(255 * k as int, 255 * m * pow2(exp) as int, k as int);
    lemma_div_by_multiple(255, k as int);
}

/// With a scale of 2^-40 or less, any single-precision significand
/// quantizes to 0 for any positive width.
proof fn lemma_vanishes(m: nat, d: nat, k: nat)
    requires
        m < 0x100_0000,
        d >= 40,
        k >= 1,
    ensures
        (255 * m) / (k * pow2(d)) == 0,
{
    lemma2_to64();
    vstd::arithmetic::power2::lemma2_to64_rest();
    assert(pow2(d) >= 0x100_0000_0000) by {
        if d > 40 {
            lemma_pow2_strictly_increases(40, d);
        }
    }
    assert(255 * m < k * pow2(d)) by (nonlinear_arith)
        requires
            m < 0x100_0000,
            pow2(d) >= 0x100_0000_0000,
            k >= 1,
    ;
    lemma_basic_div(255 * m as int, k * pow2(d) as int);
}

} // verus!
