//! Numbers in IEEE 754 form, carried by their bit patterns.

use vstd::prelude::*;

verus! {

/// A 64-bit IEEE 754 number, held as the 64 bits that stand for it: one sign bit, eleven
/// exponent bits, fifty-two fraction bits. Two values are equal when their bits are.
#[derive(Debug, Clone, Copy, PartialEq, Eq, Structural)]
pub struct Double {
    pub bits: u64,
}

impl View for Double {
    type V = Double;

    open spec fn view(&self) -> Double {
        *self
    }
}

impl Double {
    /// Whether the exponent bits are not all ones, that is, the value is neither an infinity
    /// nor a NaN.
    pub open spec fn spec_is_finite(&self) -> bool {
        (self.bits >> 52) & 0x7ff != 0x7ff
    }

    /// The value with the given bit pattern.
    pub fn from_bits(bits: u64) -> (d: Double)
        ensures
            d.bits == bits,
    {
        Double { bits }
    }

    /// The bit pattern of the value.
    pub fn to_bits(&self) -> (bits: u64)
        ensures
            bits == self.bits,
    {
        self.bits
    }

    /// Whether the value is neither an infinity nor a NaN.
    #[verifier::when_used_as_spec(spec_is_finite)]
    pub fn is_finite(&self) -> (finite: bool)
        ensures
            finite == self.spec_is_finite(),
    {
        (self.bits >> 52) & 0x7ff != 0x7ff
    }
}

/// A 32-bit IEEE 754 number, held as the 32 bits that stand for it. Two values are equal
/// when their bits are.
#[derive(Debug, Clone, Copy, PartialEq, Eq, Structural)]
pub struct Single {
    pub bits: u32,
}

impl View for Single {
    type V = Single;

    open spec fn view(&self) -> Single {
        *self
    }
}

impl Single {
    /// The value with the given bit pattern.
    pub fn from_bits(bits: u32) -> (s: Single)
        ensures
            s.bits == bits,
    {
        Single { bits }
    }

    /// The bit pattern of the value.
    pub fn to_bits(&self) -> (bits: u32)
        ensures
            bits == self.bits,
    {
        self.bits
    }
}

} // verus!
