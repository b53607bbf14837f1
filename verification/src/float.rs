//! The order of 32-bit floats, told from their bits.

use vstd::prelude::*;

verus! {

/// Bits of infinity.
pub const INFINITY_BITS: u32 = 0x7f80_0000;

/// The bits of a float without its sign.
pub open spec fn magnitude(bits: u32) -> u32 {
    if bits < 0x8000_0000 {
        bits
    } else {
        (bits - 0x8000_0000) as u32
    }
}

/// The bits of a finite float: its magnitude is below infinity.
pub open spec fn is_finite_float(bits: u32) -> bool {
    magnitude(bits) < INFINITY_BITS
}

/// The bits of no number.
pub open spec fn is_nan(bits: u32) -> bool {
    magnitude(bits) > INFINITY_BITS
}

/// The place of a float among the others, where it is a number: floats are ordered by their
/// magnitude on either side of zero.
pub open spec fn float_order(bits: u32) -> int {
    if bits < 0x8000_0000 {
        bits as int
    } else {
        0x8000_0000 - bits
    }
}

/// One float is greater than another. What is no number is not greater than anything.
pub open spec fn float_greater(left: u32, right: u32) -> bool {
    !is_nan(left) && !is_nan(right) && float_order(left) > float_order(right)
}

/// The float brought into a range.
pub open spec fn clamped(bits: u32, low: u32, high: u32) -> u32 {
    if float_order(bits) < float_order(low) {
        low
    } else if float_order(bits) > float_order(high) {
        high
    } else {
        bits
    }
}

fn order(bits: u32) -> (order: i64)
    ensures
        order == float_order(bits),
{
    if bits < 0x8000_0000 {
        bits as i64
    } else {
        0x8000_0000i64 - bits as i64
    }
}

fn size(bits: u32) -> (size: u32)
    ensures
        size == magnitude(bits),
{
    if bits < 0x8000_0000 {
        bits
    } else {
        bits - 0x8000_0000
    }
}

/// Whether a float is finite.
pub fn is_finite(bits: u32) -> (finite: bool)
    ensures
        finite == is_finite_float(bits),
{
    size(bits) < INFINITY_BITS
}

/// Whether one float is greater than another.
pub fn is_greater(left: u32, right: u32) -> (greater: bool)
    ensures
        greater == float_greater(left, right),
{
    size(left) <= INFINITY_BITS && size(right) <= INFINITY_BITS && order(left) > order(right)
}

/// Brings a float into a range.
pub fn clamp_float(bits: u32, low: u32, high: u32) -> (result: u32)
    ensures
        result == clamped(bits, low, high),
{
    if order(bits) < order(low) {
        low
    } else if order(bits) > order(high) {
        high
    } else {
        bits
    }
}

/// The bits of a float with the other sign.
pub open spec fn negated(bits: u32) -> u32 {
    if bits < 0x8000_0000 {
        (bits + 0x8000_0000) as u32
    } else {
        (bits - 0x8000_0000) as u32
    }
}

/// Changes the sign of a float.
pub fn negate(bits: u32) -> (result: u32)
    ensures
        result == negated(bits),
{
    if bits < 0x8000_0000 {
        bits + 0x8000_0000
    } else {
        bits - 0x8000_0000
    }
}

// ---------------------------------------------------------------------------
// Laws
// ---------------------------------------------------------------------------

/// Changing the sign turns the order around, and doing so twice changes nothing.
pub proof fn law_negation_turns_the_order(left: u32, right: u32)
    ensures
        negated(negated(left)) == left,
        negated(left) != left,
        magnitude(negated(left)) == magnitude(left),
        is_finite_float(negated(left)) == is_finite_float(left),
        float_greater(left, right) <==> float_greater(negated(right), negated(left)),
{
}

/// Positive floats are ordered as their bits are, every positive float is greater than zero and
/// zero is greater than every negative one. No float is greater than itself, and what is no
/// number is neither greater nor smaller than anything.
pub proof fn law_floats_are_ordered(left: u32, right: u32)
    ensures
        left <= 0x7f80_0000 && right <= 0x7f80_0000 ==> (float_greater(left, right) <==> left
            > right),
        0 < left <= 0x7f80_0000 ==> float_greater(left, 0) && float_greater(0, negated(left)),
        !float_greater(left, left),
        0x7f80_0000 < magnitude(left) ==> !float_greater(left, right) && !float_greater(
            right,
            left,
        ),
        is_finite_float(left) && is_finite_float(right) && magnitude(left) != magnitude(right)
            ==> float_greater(left, right) || float_greater(right, left),
        is_finite_float(left) <==> left < 0x7f80_0000 || 0x8000_0000 <= left < 0xff80_0000,
{
}

/// Bringing a float into a range leaves it alone inside the range, and gives the nearer end
/// outside.
pub proof fn law_clamping_gives_the_nearest(bits: u32, low: u32, high: u32)
    requires
        is_finite_float(bits),
        is_finite_float(low),
        is_finite_float(high),
        float_greater(high, low),
    ensures
        !float_greater(low, clamped(bits, low, high)),
        !float_greater(clamped(bits, low, high), high),
        float_greater(low, bits) ==> clamped(bits, low, high) == low,
        float_greater(bits, high) ==> clamped(bits, low, high) == high,
        !float_greater(low, bits) && !float_greater(bits, high) ==> clamped(bits, low, high)
            == bits,
{
}

} // verus!
