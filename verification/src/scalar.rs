//! Single-precision numbers as IEEE-754 bit patterns.
//!
//! The library moves numbers around, flips their sign and orders them; all of
//! that is exact on the bit pattern. It never adds or multiplies them.

use vstd::prelude::*;

verus! {

/// An IEEE-754 single-precision number, held as its 32-bit pattern. Two are
/// equal if their patterns are: the two zeros differ, and a NaN equals
/// itself.
#[derive(Clone, Copy, Debug, PartialEq, Eq, Structural)]
pub struct Scalar {
    pub bits: u32,
}

/// The bit pattern of `+0.0`.
pub open spec fn zero_bits() -> u32 {
    0u32
}

/// The bit pattern of `1.0`.
pub open spec fn one_bits() -> u32 {
    0x3f80_0000u32
}

/// The bit pattern of positive infinity.
pub open spec fn infinity_bits() -> u32 {
    0x7f80_0000u32
}

/// The bit pattern of negative infinity.
pub open spec fn neg_infinity_bits() -> u32 {
    0xff80_0000u32
}

impl Scalar {
    /// The pattern without its sign bit.
    pub open spec fn magnitude(self) -> u32 {
        self.bits & 0x7fff_ffffu32
    }

    /// Whether the sign bit is set.
    pub open spec fn sign_set(self) -> bool {
        self.bits & 0x8000_0000u32 != 0
    }

    /// Not-a-number: exponent all ones and a non-zero fraction.
    pub open spec fn is_nan(self) -> bool {
        self.magnitude() > infinity_bits()
    }

    /// Position of a number on the real line, as an integer that orders
    /// numbers as IEEE-754 comparison does: both zeros map to 0, negative
    /// numbers to the negated magnitude. Meaningless for a NaN.
    pub open spec fn rank(self) -> int {
        if self.sign_set() {
            -(self.magnitude() as int)
        } else {
            self.magnitude() as int
        }
    }

    /// IEEE-754 `<`: false as soon as either side is a NaN.
    pub open spec fn less_than(self, other: Scalar) -> bool {
        !self.is_nan() && !other.is_nan() && self.rank() < other.rank()
    }

    /// IEEE-754 `> 0.0`.
    pub open spec fn is_positive(self) -> bool {
        !self.is_nan() && self.rank() > 0
    }

    /// IEEE-754 `== 0.0`: either zero.
    pub open spec fn is_zero(self) -> bool {
        self.magnitude() == 0
    }

    /// The number with its sign flipped.
    pub open spec fn negated(self) -> Scalar {
        Scalar { bits: self.bits ^ 0x8000_0000u32 }
    }

    /// The number with the given bit pattern.
    pub fn from_bits(bits: u32) -> (r: Scalar)
        ensures
            r.bits == bits,
    {
        Scalar { bits }
    }

    /// The bit pattern of the number.
    pub fn to_bits(self) -> (r: u32)
        ensures
            r == self.bits,
    {
        self.bits
    }

    /// `+0.0`.
    pub fn zero() -> (r: Scalar)
        ensures
            r.bits == zero_bits(),
    {
        Scalar { bits: 0u32 }
    }

    /// `1.0`.
    pub fn one() -> (r: Scalar)
        ensures
            r.bits == one_bits(),
    {
        Scalar { bits: 0x3f80_0000u32 }
    }

    /// Positive infinity.
    pub fn infinity() -> (r: Scalar)
        ensures
            r.bits == infinity_bits(),
    {
        Scalar { bits: 0x7f80_0000u32 }
    }

    /// Negative infinity.
    pub fn neg_infinity() -> (r: Scalar)
        ensures
            r.bits == neg_infinity_bits(),
    {
        Scalar { bits: 0xff80_0000u32 }
    }

    /// Whether the number is a NaN.
    pub fn nan(self) -> (r: bool)
        ensures
            r == self.is_nan(),
    {
        (self.bits & 0x7fff_ffffu32) > 0x7f80_0000u32
    }

    /// The sign-magnitude position of the number as a machine integer.
    pub fn position(self) -> (r: i64)
        ensures
            r == self.rank(),
    {
        let m: u32 = self.bits & 0x7fff_ffffu32;
        if self.bits & 0x8000_0000u32 != 0 {
            -(m as i64)
        } else {
            m as i64
        }
    }

    /// IEEE-754 `<`.
    pub fn lt(self, other: Scalar) -> (r: bool)
        ensures
            r == self.less_than(other),
    {
        !self.nan() && !other.nan() && self.position() < other.position()
    }

    /// IEEE-754 `> 0.0`.
    pub fn positive(self) -> (r: bool)
        ensures
            r == self.is_positive(),
    {
        !self.nan() && self.position() > 0
    }

    /// IEEE-754 `== 0.0`.
    pub fn zero_valued(self) -> (r: bool)
        ensures
            r == self.is_zero(),
    {
        (self.bits & 0x7fff_ffffu32) == 0
    }

    /// The number with its sign flipped.
    pub fn negate(self) -> (r: Scalar)
        ensures
            r == self.negated(),
    {
        Scalar { bits: self.bits ^ 0x8000_0000u32 }
    }

    /// The four bytes of the number, least significant first.
    pub fn le_bytes(self) -> (r: Vec<u8>)
        ensures
            r@ == vstd::bytes::spec_u32_to_le_bytes(self.bits),
            r@.len() == 4,
    {
        vstd::bytes::u32_to_le_bytes(self.bits)
    }
}

/// Flipping the sign twice gives the number back, bit for bit.
pub proof fn lemma_negated_twice(s: Scalar)
    ensures
        s.negated().negated() == s,
{
    let b = s.bits;
    assert((b ^ 0x8000_0000u32) ^ 0x8000_0000u32 == b) by (bit_vector);
}

} // verus!
