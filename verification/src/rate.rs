//! The frames-per-second figure that can be given from outside, in place of
//! what the container declares.
//!
//! The figure is a double-precision number and is taken here as its IEEE 754
//! bit pattern (what `f64::to_bits` gives): one sign bit, eleven bits of
//! exponent, fifty-two bits of fraction. Zero asks for the container's own
//! timing; any other figure below a hundredth of a frame per second is turned
//! away.

use vstd::arithmetic::power2::{
    lemma2_to64, lemma2_to64_rest, lemma_pow2_adds, lemma_pow2_pos,
    lemma_pow2_strictly_increases, pow2,
};
use vstd::prelude::*;

verus! {

/// The sign bit alone: the pattern of negative zero.
pub const SIGN: u64 = 0x8000_0000_0000_0000;

/// Two to the fifty-second: the number of fractions per exponent.
pub const FRACTIONS: u64 = 0x0010_0000_0000_0000;

/// The pattern of positive infinity. Magnitudes above it are no numbers.
pub const INFINITY: u64 = 0x7ff0_0000_0000_0000;

/// The pattern of the double nearest to 0.01, which is the smallest double
/// that is no less than a hundredth.
pub const HUNDREDTH: u64 = 0x3f84_7ae1_47ae_147b;

/// Whether the sign bit is set.
pub open spec fn is_negative(bits: u64) -> bool {
    bits >= SIGN
}

/// The pattern without its sign bit.
pub open spec fn magnitude(bits: u64) -> u64 {
    if bits >= SIGN {
        (bits - SIGN) as u64
    } else {
        bits
    }
}

/// The exponent field.
pub open spec fn exponent(bits: u64) -> nat {
    (magnitude(bits) / FRACTIONS) as nat
}

/// The fraction field.
pub open spec fn fraction(bits: u64) -> nat {
    (magnitude(bits) % FRACTIONS) as nat
}

/// Whether the pattern is that of no number.
pub open spec fn is_nan(bits: u64) -> bool {
    magnitude(bits) > INFINITY
}

/// Whether the pattern is that of zero, of either sign.
pub open spec fn is_zero(bits: u64) -> bool {
    magnitude(bits) == 0
}

/// The absolute value that the pattern stands for, times two to the 1075th:
/// a whole number for every pattern. With exponent field `e > 0` and fraction
/// `f` the value is `(2^52 + f) * 2^(e - 1075)`; with an exponent field of
/// zero it is `f * 2^(-1074)`. (Infinity comes out as a number larger than
/// every finite one.)
pub open spec fn scaled(bits: u64) -> nat {
    if exponent(bits) == 0 {
        2 * fraction(bits)
    } else {
        (FRACTIONS as nat + fraction(bits)) * pow2(exponent(bits))
    }
}

/// Whether the figure is a positive number below one hundredth.
pub open spec fn below_hundredth(bits: u64) -> bool {
    !is_nan(bits) && !is_negative(bits) && !is_zero(bits) && 100 * scaled(bits) < pow2(1075)
}

/// Whether the figure is turned away: it is a number, it is not zero, and it
/// is less than one hundredth. Every negative number is; what is no number
/// is not.
pub open spec fn too_small(bits: u64) -> bool {
    !is_nan(bits) && !is_zero(bits) && (is_negative(bits) || 100 * scaled(bits) < pow2(1075))
}

/// Why a figure is turned away.
#[derive(Clone, Copy, Debug, PartialEq, Eq, Structural)]
pub enum FpsError {
    /// The figure is below a hundredth of a frame per second and not zero.
    TooSmall,
}

impl FpsError {
    /// The words for a person.
    pub fn message(&self) -> (message: String)
        ensures
            message@ == "FPS value is too small."@,
    {
        "FPS value is too small.".to_string()
    }
}

/// Among the patterns of numbers, the order of the magnitudes is the order of
/// the absolute values, so that a magnitude lies below that of a hundredth
/// exactly when the value does.
pub proof fn lemma_below_hundredth(bits: u64)
    requires
        !is_nan(bits),
    ensures
        magnitude(bits) < HUNDREDTH <==> 100 * scaled(bits) < pow2(1075),
{
    let e: nat = exponent(bits);
    let f: int = fraction(bits) as int;
    let m: int = FRACTIONS + f;
    let power: int = pow2(e) as int;
    assert(magnitude(bits) == e * FRACTIONS + f);
    assert(HUNDREDTH == 1016 * FRACTIONS + 0x4_7ae1_47ae_147b);
    lemma2_to64();
    lemma2_to64_rest();
    lemma_pow2_pos(e);
    if e == 0 {
        lemma_pow2_strictly_increases(64, 1075);
    } else if e < 1016 {
        let large: int = pow2(1015) as int;
        if e < 1015 {
            lemma_pow2_strictly_increases(e, 1015);
        }
        lemma_pow2_adds(60, 1015);
        assert(scaled(bits) == m * power);
        assert(pow2(1075) == 0x1000_0000_0000_0000 * large);
        assert(100 * (m * power) < 0x1000_0000_0000_0000 * large) by (nonlinear_arith)
            requires
                0 < m < 0x20_0000_0000_0000,
                0 < power <= large,
        ;
    } else if e == 1016 {
        lemma_pow2_adds(59, 1016);
        assert(scaled(bits) == m * power);
        assert(pow2(1075) == 0x800_0000_0000_0000 * power);
        assert(100 * (m * power) < 0x800_0000_0000_0000 * power <==> 100 * m
            < 0x800_0000_0000_0000) by (nonlinear_arith)
            requires
                power > 0,
        ;
    } else {
        let small: int = pow2(1017) as int;
        lemma_pow2_pos(1017);
        if e > 1017 {
            lemma_pow2_strictly_increases(1017, e);
        }
        lemma_pow2_adds(58, 1017);
        assert(scaled(bits) == m * power);
        assert(pow2(1075) == 0x400_0000_0000_0000 * small);
        assert(100 * (m * power) >= 0x400_0000_0000_0000 * small) by (nonlinear_arith)
            requires
                m >= 0x10_0000_0000_0000,
                0 < small <= power,
        ;
    }
}

/// Decides whether a figure asks for the container's own timing: zero does,
/// of either sign.
pub fn is_autodetect(bits: u64) -> (auto: bool)
    ensures
        auto == is_zero(bits),
{
    bits == 0 || bits == SIGN
}

/// Checks a figure. It is handed back unless it is too small.
pub fn validate_fps(bits: u64) -> (checked: Result<u64, FpsError>)
    ensures
        checked == if too_small(bits) {
            Err::<u64, FpsError>(FpsError::TooSmall)
        } else {
            Ok::<u64, FpsError>(bits)
        },
{
    let magnitude: u64 = if bits >= SIGN {
        bits - SIGN
    } else {
        bits
    };
    if magnitude == 0 || magnitude > INFINITY {
        Ok(bits)
    } else {
        proof {
            lemma_below_hundredth(bits);
        }
        if bits >= SIGN || magnitude < HUNDREDTH {
            Err(FpsError::TooSmall)
        } else {
            Ok(bits)
        }
    }
}

/// The rule in full. Zero is let through, and so is every number from a
/// hundredth up; every positive number below a hundredth is turned away.
pub proof fn law_fps_validation(bits: u64)
    ensures
        is_zero(bits) ==> !too_small(bits),
        below_hundredth(bits) ==> too_small(bits),
        !is_nan(bits) && !is_negative(bits) && 100 * scaled(bits) >= pow2(1075) ==> !too_small(
            bits,
        ),
{
}

} // verus!
