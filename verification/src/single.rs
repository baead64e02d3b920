//! Scalars from IEEE 754 single-precision bit patterns.
//!
//! A pattern holds a sign in its top bit, then eight bits of exponent and 23
//! bits of fraction. Its value is rounded toward zero to the nearest scalar.

use vstd::arithmetic::div_mod::lemma_div_denominator;
use vstd::arithmetic::power2::{lemma_pow2_pos, lemma_pow2_strictly_increases, lemma_pow2_unfold, pow2};
use vstd::prelude::*;

verus! {

/// The exponent field of the pattern.
pub open spec fn exponent_field(bits: u32) -> int {
    (bits as int / 0x80_0000) % 256
}

/// The fraction field of the pattern.
pub open spec fn fraction_field(bits: u32) -> int {
    bits as int % 0x80_0000
}

/// The magnitude of the value of the pattern in raw units, rounded down.
/// Meaningful unless the exponent field is all ones.
///
/// With the exponent field `e` and the fraction field `f`, the value is
/// `(2^23 + f) * 2^(e - 150)` for `e > 0` and `f * 2^(-149)` for `e == 0`; a
/// raw unit is `2^(-16)`.
#[verifier::opaque]
pub open spec fn raw_magnitude(bits: u32) -> int {
    let e = exponent_field(bits);
    let significand = if e == 0 {
        fraction_field(bits)
    } else {
        fraction_field(bits) + 0x80_0000
    };
    let power = if e == 0 {
        1
    } else {
        e
    };
    if power >= 134 {
        significand * pow2((power - 134) as nat)
    } else {
        significand / (pow2((134 - power) as nat) as int)
    }
}

/// The scalar that the pattern stands for, or `None` for an infinity, for
/// what is not a number, and for a value that no scalar can hold.
pub open spec fn scalar_of_single(bits: u32) -> Option<i32> {
    if exponent_field(bits) == 255 || raw_magnitude(bits) > i32::MAX {
        None
    } else if bits >= 0x8000_0000 {
        Some((-raw_magnitude(bits)) as i32)
    } else {
        Some(raw_magnitude(bits) as i32)
    }
}

/// Doubles `value` the given number of times.
fn doubled(value: u32, times: u32) -> (r: u32)
    requires
        value < 0x100_0000,
        times <= 7,
    ensures
        r as int == value * pow2(times as nat),
{
    let mut v: u32 = value;
    let mut i: u32 = 0;
    proof {
        vstd::arithmetic::power2::lemma2_to64();
    }
    while i < times
        invariant
            i <= times <= 7,
            value < 0x100_0000,
            v as int == value * pow2(i as nat),
            pow2(i as nat) <= pow2(times as nat) <= 128,
        decreases times - i,
    {
        proof {
            lemma_pow2_unfold((i + 1) as nat);
            if i + 1 < times {
                lemma_pow2_strictly_increases((i + 1) as nat, times as nat);
            }
            assert(value * (2 * pow2(i as nat)) == 2 * (value * pow2(i as nat)))
                by (nonlinear_arith);
            assert(value * pow2((i + 1) as nat) <= 0x100_0000 * 128) by (nonlinear_arith)
                requires
                    0 <= value < 0x100_0000,
                    0 <= pow2((i + 1) as nat) <= 128,
            ;
        }
        v = v * 2;
        i = i + 1;
    }
    v
}

/// Halves `value` the given number of times, rounding down.
fn halved(value: u32, times: u32) -> (r: u32)
    ensures
        r as int == value as int / (pow2(times as nat) as int),
{
    let mut v: u32 = value;
    let mut i: u32 = 0;
    proof {
        vstd::arithmetic::power2::lemma2_to64();
    }
    while i < times && v > 0
        invariant
            i <= times,
            v as int == value as int / (pow2(i as nat) as int),
        decreases times - i,
    {
        proof {
            lemma_pow2_unfold((i + 1) as nat);
            lemma_pow2_pos(i as nat);
            lemma_div_denominator(value as int, pow2(i as nat) as int, 2);
            assert(pow2(i as nat) * 2 == 2 * pow2(i as nat));
        }
        v = v / 2;
        i = i + 1;
    }
    proof {
        if i < times {
            let small = pow2(i as nat) as int;
            let large = pow2(times as nat) as int;
            lemma_pow2_pos(i as nat);
            lemma_pow2_strictly_increases(i as nat, times as nat);
            assert(value < small) by (nonlinear_arith)
                requires
                    value as int / small == 0,
                    small > 0,
                    value >= 0,
            ;
            assert(value as int / large == 0) by (nonlinear_arith)
                requires
                    0 <= value < large,
            ;
        }
    }
    v
}

/// Converts a single-precision bit pattern to a scalar.
pub fn scalar_from_single(bits: u32) -> (r: Option<i32>)
    ensures
        r == scalar_of_single(bits),
{
    proof {
        reveal(raw_magnitude);
    }
    let e: u32 = (bits / 0x80_0000) % 256;
    let fraction: u32 = bits % 0x80_0000;
    if e == 255 {
        return None;
    }
    let significand: u32 = if e == 0 {
        fraction
    } else {
        fraction + 0x80_0000
    };
    let power: u32 = if e == 0 {
        1
    } else {
        e
    };
    if power >= 142 {
        proof {
            vstd::arithmetic::power2::lemma2_to64();
            if power > 142 {
                lemma_pow2_strictly_increases(8, (power - 134) as nat);
            }
            assert(significand * pow2((power - 134) as nat) >= 0x80_0000 * 256)
                by (nonlinear_arith)
                requires
                    significand >= 0x80_0000,
                    pow2((power - 134) as nat) >= 256,
            ;
        }
        return None;
    }
    let magnitude: u32 = if power >= 134 {
        doubled(significand, power - 134)
    } else {
        halved(significand, 134 - power)
    };
    proof {
        if power >= 134 {
            vstd::arithmetic::power2::lemma2_to64();
            if power < 141 {
                lemma_pow2_strictly_increases((power - 134) as nat, 7);
            }
            assert(significand * pow2((power - 134) as nat) <= 0xff_ffff * 128)
                by (nonlinear_arith)
                requires
                    0 <= significand <= 0xff_ffff,
                    0 <= pow2((power - 134) as nat) <= 128,
            ;
        } else {
            let d = pow2((134 - power) as nat) as int;
            lemma_pow2_pos((134 - power) as nat);
            assert(significand as int / d <= significand) by (nonlinear_arith)
                requires
                    significand >= 0,
                    d > 0,
            ;
        }
    }
    if bits >= 0x8000_0000 {
        Some(-(magnitude as i32))
    } else {
        Some(magnitude as i32)
    }
}

} // verus!
