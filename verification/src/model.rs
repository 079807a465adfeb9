//! Memory-model side of the scheduler: the plain values that travel between
//! the store, the forgetting-curve model and the review processor, and the
//! pure decisions made around one review (elapsed days, outcome selection,
//! interval flooring).
//!
//! Stability and difficulty are estimated by a 32-bit floating-point
//! forgetting-curve model outside this crate. The library never computes on
//! them: it carries them as the bit patterns of those 32-bit values, so that
//! they round-trip losslessly through the store and back into the model.
//! The desired retention is carried the same way; because the IEEE 754
//! ordering of positive finite values agrees with the ordering of their bit
//! patterns, the valid range [0.7, 0.99] is exactly the bit-pattern range
//! [`RETENTION_MIN_BITS`, `RETENTION_MAX_BITS`], and every bit pattern in
//! that range is such a value.

use vstd::prelude::*;

verus! {

/// Bit pattern of 0.7, the least allowed desired retention.
pub const RETENTION_MIN_BITS: u32 = 0x3F33_3333;

/// Bit pattern of 0.99, the greatest allowed desired retention.
pub const RETENTION_MAX_BITS: u32 = 0x3F7D_70A4;

/// Bit pattern of 0.9, the desired retention used before any was stored.
pub const DEFAULT_RETENTION_BITS: u32 = 0x3F66_6666;

/// Seconds in one whole day, the unit for turning intervals into due dates
/// and elapsed time into elapsed days.
pub const SECONDS_PER_DAY: i64 = 86400;

/// A desired retention is valid when it lies in [0.7, 0.99].
pub open spec fn retention_valid(retention_bits: u32) -> bool {
    RETENTION_MIN_BITS <= retention_bits <= RETENTION_MAX_BITS
}

/// A rating grades one review: 1 again, 2 hard, 3 good, 4 easy.
pub open spec fn rating_valid(rating: u32) -> bool {
    1 <= rating <= 4
}

/// Memory parameters of one card: forgetting-curve stability and item
/// difficulty, both as bit patterns of the model's 32-bit values.
#[derive(Clone, Copy, PartialEq, Eq, Structural, Debug)]
pub struct Memory {
    pub stability_bits: u32,
    pub difficulty_bits: u32,
}

/// One candidate result of a review: the next memory parameters and the
/// next interval in whole days, as the model rounded it.
#[derive(Clone, Copy, PartialEq, Eq, Structural, Debug)]
pub struct Outcome {
    pub memory: Memory,
    pub interval_days: u32,
}

/// The four candidate results of one review, one per rating grade.
#[derive(Clone, Copy, PartialEq, Eq, Structural, Debug)]
pub struct NextOutcomes {
    pub again: Outcome,
    pub hard: Outcome,
    pub good: Outcome,
    pub easy: Outcome,
}

/// The candidate outcome that a rating selects.
pub open spec fn spec_pick(o: NextOutcomes, rating: u32) -> Outcome {
    if rating == 1 {
        o.again
    } else if rating == 2 {
        o.hard
    } else if rating == 3 {
        o.good
    } else {
        o.easy
    }
}

/// Selects the candidate outcome that a rating asks for.
pub fn pick_outcome(o: &NextOutcomes, rating: u32) -> (r: Outcome)
    requires
        rating_valid(rating),
    ensures
        r == spec_pick(*o, rating),
{
    if rating == 1 {
        o.again
    } else if rating == 2 {
        o.hard
    } else if rating == 3 {
        o.good
    } else {
        o.easy
    }
}

/// An interval is floored at one day before it is scheduled.
pub open spec fn spec_floor_interval(days: u32) -> u32 {
    if days < 1 {
        1
    } else {
        days
    }
}

/// Whole days from a previous review to now: zero before the first review
/// and whenever the clock ran backwards, otherwise the elapsed seconds
/// divided into whole days, saturated at the model's greatest input.
pub open spec fn spec_elapsed_days(now: i64, last: Option<i64>) -> u32 {
    match last {
        Option::None => 0u32,
        Option::Some(l) => if l >= now {
            0u32
        } else {
            let d = (now - l) / (SECONDS_PER_DAY as int);
            if d > u32::MAX {
                u32::MAX
            } else {
                d as u32
            }
        },
    }
}

/// Computes the whole days elapsed since the previous review.
pub fn elapsed_days(now: i64, last: Option<i64>) -> (r: u32)
    ensures
        r == spec_elapsed_days(now, last),
{
    match last {
        Option::None => 0u32,
        Option::Some(l) => {
            if l >= now {
                0u32
            } else {
                let diff: i128 = now as i128 - l as i128;
                let d: i128 = diff / (SECONDS_PER_DAY as i128);
                if d > u32::MAX as i128 {
                    u32::MAX
                } else {
                    d as u32
                }
            }
        },
    }
}

} // verus!
