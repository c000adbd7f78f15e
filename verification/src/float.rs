//! The interface through which the calculator obtains arithmetic on binary64
//! values, which it only ever holds as bit patterns.
use vstd::prelude::*;

verus! {

/// Arithmetic on binary64 bit patterns, supplied by the caller.
///
/// Nothing is assumed of an implementation: every function that calls one of
/// these methods states only what holds for each value that may come back.
pub trait FloatUnit {
    /// Reads a literal; `None` when the text is not a number.
    fn parse(&self, text: &str) -> Option<u64>;

    /// Converts an integer to the nearest representable value.
    fn from_int(&self, value: i128) -> u64;

    /// Rounds toward negative infinity and converts to an integer.
    fn floor(&self, bits: u64) -> i128;

    /// The sum of two values.
    fn sum(&self, a: u64, b: u64) -> u64;

    /// The first value less the second.
    fn difference(&self, a: u64, b: u64) -> u64;

    /// The product of two values.
    fn product(&self, a: u64, b: u64) -> u64;

    /// The first value divided by the second.
    fn quotient(&self, a: u64, b: u64) -> u64;

    /// The first value raised to the power of the second.
    fn power(&self, a: u64, b: u64) -> u64;
}

/// The mask of the sign bit of a binary64 bit pattern.
pub const SIGN_BIT: u64 = 0x8000_0000_0000_0000;

/// The bit pattern of the negated value: the sign bit is flipped.
pub open spec fn negated(bits: u64) -> u64 {
    bits ^ SIGN_BIT
}

/// Negates a binary64 value given by its bit pattern.
pub fn negate(bits: u64) -> (r: u64)
    ensures
        r == negated(bits),
{
    bits ^ SIGN_BIT
}

/// Negating twice gives the value back.
pub proof fn lemma_negated_twice(bits: u64)
    ensures
        negated(negated(bits)) == bits,
{
    assert((bits ^ 0x8000_0000_0000_0000u64) ^ 0x8000_0000_0000_0000u64 == bits) by (bit_vector);
}

} // verus!
