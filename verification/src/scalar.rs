//! Single-precision numbers as the verified code sees them: by their IEEE-754
//! bit pattern. Arithmetic on them happens outside this library; what is
//! decided here is which patterns are numbers, which are positive, how two
//! patterns are ordered, and which eight-bit channel a pattern becomes.

use vstd::prelude::*;
use vstd::arithmetic::power2::{lemma2_to64, pow2};
use vstd::bits::lemma_u32_shr_is_div;

verus! {

/// The pattern with only the sign bit set (negative zero).
pub const SIGN_BIT: u32 = 0x8000_0000;

/// The pattern of positive infinity: all exponent bits set, no fraction bit.
pub const INFINITY_BITS: u32 = 0x7f80_0000;

/// The pattern of the number one.
pub const ONE_BITS: u32 = 0x3f80_0000;

/// The pattern of the number 255, the brightest value of an eight-bit channel.
pub const MAX_CHANNEL_BITS: u32 = 0x437f_0000;

/// The whole part of `significand * 2^(exponent - 150)`: of the number with
/// the given exponent bits, from 127 to 134, and the given 24 significant
/// bits, which lies in the octave from `2^(exponent - 127)` up.
pub open spec fn whole_part(exponent: int, significand: int) -> int {
    if exponent <= 127 {
        significand / 0x80_0000
    } else if exponent == 128 {
        significand / 0x40_0000
    } else if exponent == 129 {
        significand / 0x20_0000
    } else if exponent == 130 {
        significand / 0x10_0000
    } else if exponent == 131 {
        significand / 0x8_0000
    } else if exponent == 132 {
        significand / 0x4_0000
    } else if exponent == 133 {
        significand / 0x2_0000
    } else {
        significand / 0x1_0000
    }
}

/// The table of `whole_part` is a division by a power of two.
pub proof fn lemma_whole_part_is_a_quotient(exponent: int, significand: int)
    requires
        127 <= exponent <= 134,
    ensures
        whole_part(exponent, significand) == significand / (pow2((150 - exponent) as nat) as int),
{
    lemma2_to64();
}

/// A binary32 number held by its bit pattern.
#[derive(Clone, Copy, Debug, PartialEq, Eq, Hash, Structural)]
pub struct Scalar {
    pub bits: u32,
}

impl Scalar {
    /// Whether the sign bit is set. True of negative zero and of half of the NaNs.
    pub open spec fn sign(&self) -> bool {
        self.bits >= SIGN_BIT
    }

    /// The pattern without its sign bit: exponent and fraction as one integer.
    /// Among numbers of one sign a larger magnitude is a number further from zero.
    pub open spec fn magnitude(&self) -> int {
        if self.bits >= SIGN_BIT {
            self.bits - SIGN_BIT
        } else {
            self.bits as int
        }
    }

    /// Not a number: all exponent bits set and some fraction bit.
    pub open spec fn spec_is_nan(&self) -> bool {
        self.magnitude() > INFINITY_BITS
    }

    /// Neither infinite nor NaN.
    pub open spec fn spec_is_finite(&self) -> bool {
        self.magnitude() < INFINITY_BITS
    }

    /// Positive or negative zero.
    pub open spec fn spec_is_zero(&self) -> bool {
        self.magnitude() == 0
    }

    /// Strictly greater than zero, as the comparison `> 0.0` decides it:
    /// false of both zeros, of every negative number and of every NaN,
    /// true of positive infinity.
    pub open spec fn spec_is_positive(&self) -> bool {
        0 < self.bits <= INFINITY_BITS
    }

    /// A usable length: finite and strictly greater than zero.
    pub open spec fn spec_is_extent(&self) -> bool {
        0 < self.bits < INFINITY_BITS
    }

    /// The place of the pattern in the IEEE-754 total order: negative NaNs,
    /// negative infinity, the negative numbers, negative zero, positive zero,
    /// the positive numbers, positive infinity, positive NaNs. A smaller key
    /// is an earlier place; two patterns share a key only if they are equal.
    pub open spec fn total_key(&self) -> int {
        if self.sign() {
            -1 - self.magnitude()
        } else {
            self.magnitude()
        }
    }

    /// Strictly earlier in the total order.
    pub open spec fn spec_total_lt(&self, other: &Scalar) -> bool {
        self.total_key() < other.total_key()
    }

    /// The scalar as an eight-bit channel: cut to a whole number and clamped
    /// to the range of the channel, as the conversion `as u8` does it. NaN
    /// and everything below one gives 0, everything from 255 up gives 255. A
    /// number between has its exponent in the bits above the 23 fraction bits
    /// and a one in front of the fraction.
    pub open spec fn spec_to_u8(&self) -> u8 {
        if self.is_nan() || self.sign() || self.bits < ONE_BITS {
            0
        } else if self.bits >= MAX_CHANNEL_BITS {
            255
        } else {
            whole_part(
                self.bits as int / 0x80_0000,
                0x80_0000 + self.bits as int % 0x80_0000,
            ) as u8
        }
    }

    pub fn from_bits(bits: u32) -> (scalar: Scalar)
        ensures
            scalar.bits == bits,
    {
        Scalar { bits }
    }

    pub fn to_bits(&self) -> (bits: u32)
        ensures
            bits == self.bits,
    {
        self.bits
    }

    /// The number one.
    pub open spec fn spec_one() -> Scalar {
        Scalar { bits: ONE_BITS }
    }

    /// Positive zero.
    pub open spec fn spec_zero() -> Scalar {
        Scalar { bits: 0 }
    }

    #[verifier::when_used_as_spec(spec_one)]
    pub fn one() -> (scalar: Scalar)
        ensures
            scalar == Scalar::spec_one(),
    {
        Scalar { bits: ONE_BITS }
    }

    #[verifier::when_used_as_spec(spec_zero)]
    pub fn zero() -> (scalar: Scalar)
        ensures
            scalar == Scalar::spec_zero(),
    {
        Scalar { bits: 0 }
    }

    fn abs_bits(&self) -> (magnitude: u32)
        ensures
            magnitude == self.magnitude(),
    {
        if self.bits >= SIGN_BIT {
            self.bits - SIGN_BIT
        } else {
            self.bits
        }
    }

    #[verifier::when_used_as_spec(spec_is_nan)]
    pub fn is_nan(&self) -> (nan: bool)
        ensures
            nan == self.spec_is_nan(),
    {
        self.abs_bits() > INFINITY_BITS
    }

    #[verifier::when_used_as_spec(spec_is_finite)]
    pub fn is_finite(&self) -> (finite: bool)
        ensures
            finite == self.spec_is_finite(),
    {
        self.abs_bits() < INFINITY_BITS
    }

    #[verifier::when_used_as_spec(spec_is_zero)]
    pub fn is_zero(&self) -> (zero: bool)
        ensures
            zero == self.spec_is_zero(),
    {
        self.abs_bits() == 0
    }

    #[verifier::when_used_as_spec(spec_is_positive)]
    pub fn is_positive(&self) -> (positive: bool)
        ensures
            positive == self.spec_is_positive(),
    {
        0 < self.bits && self.bits <= INFINITY_BITS
    }

    #[verifier::when_used_as_spec(spec_is_extent)]
    pub fn is_extent(&self) -> (extent: bool)
        ensures
            extent == self.spec_is_extent(),
    {
        0 < self.bits && self.bits < INFINITY_BITS
    }

    #[verifier::when_used_as_spec(spec_to_u8)]
    pub fn to_u8(&self) -> (channel: u8)
        ensures
            channel == self.spec_to_u8(),
    {
        if self.bits < ONE_BITS || self.bits > INFINITY_BITS {
            0
        } else if self.bits >= MAX_CHANNEL_BITS {
            255
        } else {
            let exponent: u32 = self.bits / 0x80_0000;
            let significand: u32 = 0x80_0000 + self.bits % 0x80_0000;
            let whole: u32 = significand >> (150 - exponent);
            proof {
                lemma_u32_shr_is_div(significand, (150 - exponent) as u32);
                lemma_whole_part_is_a_quotient(exponent as int, significand as int);
                assert(whole_part(exponent as int, significand as int) < 256);
            }
            whole as u8
        }
    }

    #[verifier::when_used_as_spec(spec_total_lt)]
    pub fn total_lt(&self, other: &Scalar) -> (earlier: bool)
        ensures
            earlier == self.spec_total_lt(other),
    {
        let a: u32 = self.abs_bits();
        let b: u32 = other.abs_bits();
        if self.bits >= SIGN_BIT {
            if other.bits >= SIGN_BIT {
                a > b
            } else {
                true
            }
        } else {
            if other.bits >= SIGN_BIT {
                false
            } else {
                a < b
            }
        }
    }
}

/// The total order tells any two different patterns apart.
pub proof fn lemma_total_key_injective(a: Scalar, b: Scalar)
    ensures
        a.total_key() == b.total_key() <==> a == b,
{
}

} // verus!
