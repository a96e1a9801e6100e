//! Real-valued rubric data (thresholds, confidences, measured fractions).
//!
//! The library never computes with floating point. A value arrives as the
//! bit pattern of an IEEE 754 binary64 number, which keeps it exact, plus the
//! text that the report shows for it (the value rounded to two decimals).
//! Comparisons are done on the bit pattern with IEEE 754 semantics: a NaN is
//! unordered, `-0` equals `+0`, and otherwise the sign and the magnitude bits
//! order the values.

use vstd::prelude::*;

verus! {

/// A real number as its binary64 bit pattern, together with its rendering
/// to two decimals (the text the report shows; the library only copies it).
#[derive(Debug, Clone)]
pub struct Quantity {
    pub bits: u64,
    pub shown: String,
}

/// 2^63: the sign bit.
pub open spec fn sign_bit() -> int {
    0x8000_0000_0000_0000
}

/// 2^52: one unit of the exponent field.
pub open spec fn exponent_unit() -> int {
    0x10_0000_0000_0000
}

/// The bits below the sign bit.
pub open spec fn magnitude(bits: u64) -> int {
    bits as int % sign_bit()
}

/// The biased exponent field.
pub open spec fn exponent_field(bits: u64) -> int {
    magnitude(bits) / exponent_unit()
}

/// The fraction (mantissa) field.
pub open spec fn fraction_field(bits: u64) -> int {
    bits as int % exponent_unit()
}

/// A NaN: every exponent bit set and a nonzero fraction.
pub open spec fn is_nan(bits: u64) -> bool {
    exponent_field(bits) == 0x7ff && fraction_field(bits) != 0
}

/// An integer that orders the non-NaN bit patterns as their values are
/// ordered: the magnitude, negated when the sign bit is set (so both zeros
/// map to 0).
pub open spec fn ordinal(bits: u64) -> int {
    if bits as int >= sign_bit() {
        -magnitude(bits)
    } else {
        magnitude(bits)
    }
}

/// `a < b` on the values the bit patterns stand for.
pub open spec fn lt(a: u64, b: u64) -> bool {
    !is_nan(a) && !is_nan(b) && ordinal(a) < ordinal(b)
}

/// `a >= b` on the values the bit patterns stand for.
pub open spec fn ge(a: u64, b: u64) -> bool {
    !is_nan(a) && !is_nan(b) && ordinal(a) >= ordinal(b)
}

/// Whether the larger of `a` and `b` is `a`: a NaN loses to the other
/// argument, and of two equal values the first is kept.
pub open spec fn first_is_larger(a: u64, b: u64) -> bool {
    !is_nan(a) && (is_nan(b) || ordinal(a) >= ordinal(b))
}

/// The larger of two values, where a NaN loses to the other argument.
pub open spec fn max_bits(a: u64, b: u64) -> u64 {
    if first_is_larger(a, b) {
        a
    } else {
        b
    }
}

fn bits_are_nan(bits: u64) -> (r: bool)
    ensures
        r == is_nan(bits),
{
    let mag = bits % 0x8000_0000_0000_0000u64;
    mag / 0x10_0000_0000_0000u64 == 0x7ffu64 && bits % 0x10_0000_0000_0000u64 != 0
}

fn bits_ordinal(bits: u64) -> (r: i64)
    ensures
        r as int == ordinal(bits),
{
    let mag = bits % 0x8000_0000_0000_0000u64;
    if bits >= 0x8000_0000_0000_0000u64 {
        -(mag as i64)
    } else {
        mag as i64
    }
}

impl Quantity {
    /// Whether `self < other` as real numbers (false when either is NaN).
    pub fn is_below(&self, other: &Quantity) -> (r: bool)
        ensures
            r == lt(self.bits, other.bits),
    {
        if bits_are_nan(self.bits) || bits_are_nan(other.bits) {
            false
        } else {
            bits_ordinal(self.bits) < bits_ordinal(other.bits)
        }
    }

    /// Whether `self >= other` as real numbers (false when either is NaN).
    pub fn is_at_least(&self, other: &Quantity) -> (r: bool)
        ensures
            r == ge(self.bits, other.bits),
    {
        if bits_are_nan(self.bits) || bits_are_nan(other.bits) {
            false
        } else {
            bits_ordinal(self.bits) >= bits_ordinal(other.bits)
        }
    }

    /// The larger of the two values; a NaN argument yields the other one.
    pub fn larger(a: &Quantity, b: &Quantity) -> (r: Quantity)
        ensures
            r.bits == max_bits(a.bits, b.bits),
            r.shown@ == (if first_is_larger(a.bits, b.bits) { a.shown@ } else { b.shown@ }),
    {
        let take_a = if bits_are_nan(a.bits) {
            false
        } else if bits_are_nan(b.bits) {
            true
        } else {
            bits_ordinal(a.bits) >= bits_ordinal(b.bits)
        };
        if take_a {
            Quantity { bits: a.bits, shown: a.shown.clone() }
        } else {
            Quantity { bits: b.bits, shown: b.shown.clone() }
        }
    }
}

/// `<` is irreflexive and transitive on the values, and `>=` is its negation
/// whenever neither side is NaN.
pub proof fn lemma_order(a: u64, b: u64, c: u64)
    ensures
        !lt(a, a),
        lt(a, b) && lt(b, c) ==> lt(a, c),
        lt(a, b) ==> !ge(a, b),
        !is_nan(a) && !is_nan(b) ==> (ge(a, b) <==> !lt(a, b)),
        ge(a, b) && ge(b, c) ==> ge(a, c),
        lt(a, b) && ge(c, b) ==> lt(a, c),
{
}

/// The larger of two values is at least each of them, unless that one is
/// NaN; and it is one of the two.
pub proof fn lemma_max_bits(a: u64, b: u64)
    ensures
        max_bits(a, b) == a || max_bits(a, b) == b,
        !is_nan(a) && !is_nan(b) ==> ge(max_bits(a, b), a) && ge(max_bits(a, b), b),
        is_nan(a) ==> max_bits(a, b) == b,
        is_nan(b) && !is_nan(a) ==> max_bits(a, b) == a,
{
}

} // verus!
