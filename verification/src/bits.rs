use vstd::prelude::*;

verus! {

// Every real number handled by this library is an IEEE-754 binary64 value,
// carried as its raw bit pattern in a `u64`. The bit pattern is a plain
// value, so contracts can pin the numeric state of an accumulator down
// exactly, and the ordering used for minima and maxima is the IEEE-754
// total order, which is pure integer logic over the patterns.

/// Bit patterns at or above this value have the sign bit set.
pub const SIGN_BIT: u64 = 0x8000_0000_0000_0000;

/// Bit pattern of positive infinity: the sentinel held in `min` while no
/// observation has arrived.
pub const POS_INF_BITS: u64 = 0x7FF0_0000_0000_0000;

/// Bit pattern of negative infinity: the sentinel held in `max` while no
/// observation has arrived.
pub const NEG_INF_BITS: u64 = 0xFFF0_0000_0000_0000;

/// Bit pattern of positive zero: the starting value of `sum`.
pub const POS_ZERO_BITS: u64 = 0;

/// Bit pattern of negative zero.
pub const NEG_ZERO_BITS: u64 = 0x8000_0000_0000_0000;

/// The magnitude half of a pattern: the bits with the sign cleared.
pub open spec fn magnitude(b: u64) -> u64 {
    if b >= SIGN_BIT {
        (b - SIGN_BIT) as u64
    } else {
        b
    }
}

/// A pattern whose exponent field is saturated and whose fraction is
/// non-zero encodes a NaN.
pub open spec fn is_nan_bits(b: u64) -> bool {
    magnitude(b) > POS_INF_BITS
}

/// A finite value: neither an infinity nor a NaN.
pub open spec fn is_finite_bits(b: u64) -> bool {
    magnitude(b) < POS_INF_BITS
}

/// Key of the IEEE-754 total order: patterns with the sign bit set are
/// reflected below the non-negative ones, so that the keys ascend exactly
/// as the encoded values do (with negative zero just below positive zero).
pub open spec fn order_key(b: u64) -> int {
    if b >= SIGN_BIT {
        0xFFFF_FFFF_FFFF_FFFFu64 - b
    } else {
        b + SIGN_BIT
    }
}

/// The IEEE-754 total order on bit patterns.
pub open spec fn total_le(a: u64, b: u64) -> bool {
    order_key(a) <= order_key(b)
}

/// The smaller of two patterns in the total order; the left one on a tie.
pub open spec fn min_bits(a: u64, b: u64) -> u64 {
    if total_le(a, b) {
        a
    } else {
        b
    }
}

/// The larger of two patterns in the total order; the right one on a tie.
pub open spec fn max_bits(a: u64, b: u64) -> u64 {
    if total_le(a, b) {
        b
    } else {
        a
    }
}

/// Executable comparison in the total order.
pub fn total_le_exec(a: u64, b: u64) -> (r: bool)
    ensures
        r == total_le(a, b),
{
    let ka: u64 = if a >= SIGN_BIT {
        0xFFFF_FFFF_FFFF_FFFF - a
    } else {
        a + SIGN_BIT
    };
    let kb: u64 = if b >= SIGN_BIT {
        0xFFFF_FFFF_FFFF_FFFF - b
    } else {
        b + SIGN_BIT
    };
    ka <= kb
}

/// Executable minimum in the total order.
pub fn min_bits_exec(a: u64, b: u64) -> (r: u64)
    ensures
        r == min_bits(a, b),
{
    if total_le_exec(a, b) {
        a
    } else {
        b
    }
}

/// Executable maximum in the total order.
pub fn max_bits_exec(a: u64, b: u64) -> (r: u64)
    ensures
        r == max_bits(a, b),
{
    if total_le_exec(a, b) {
        b
    } else {
        a
    }
}

/// Executable finiteness test on a pattern.
pub fn is_finite_exec(b: u64) -> (r: bool)
    ensures
        r == is_finite_bits(b),
{
    let m: u64 = if b >= SIGN_BIT {
        b - SIGN_BIT
    } else {
        b
    };
    m < POS_INF_BITS
}

/// Every finite pattern lies strictly below positive infinity in the
/// total order, so the `min` sentinel yields to any observation.
pub proof fn lemma_finite_below_pos_inf(b: u64)
    requires
        is_finite_bits(b),
    ensures
        total_le(b, POS_INF_BITS),
        !total_le(POS_INF_BITS, b),
{
}

/// Every finite pattern lies strictly above negative infinity in the
/// total order, so the `max` sentinel yields to any observation.
pub proof fn lemma_finite_above_neg_inf(b: u64)
    requires
        is_finite_bits(b),
    ensures
        total_le(NEG_INF_BITS, b),
        !total_le(b, NEG_INF_BITS),
{
}

} // verus!
