//! Whether an answer deviates too far from the one before it.

use vstd::prelude::*;

verus! {

/// The scale of a flagging threshold: a threshold of 100000 stands for a
/// change of the whole previous answer.
pub const THRESHOLD_MULTIPLIER: u128 = 100000;

/// The distance between two numbers.
pub open spec fn distance(a: int, b: int) -> nat {
    if a < b {
        (b - a) as nat
    } else {
        (a - b) as nat
    }
}

/// The size of a number.
pub open spec fn magnitude(a: int) -> nat {
    if a < 0 {
        (-a) as nat
    } else {
        a as nat
    }
}

/// Whether `answer` is within the threshold of `previous_answer`: the
/// change, scaled by the multiplier and divided by the size of the previous
/// answer, is at most the threshold. After a previous answer of 0 every
/// answer is; a change too large to scale in 128 bits is not.
pub open spec fn within_threshold(flagging_threshold: u32, previous_answer: i128, answer: i128) -> bool {
    let change = distance(previous_answer as int, answer as int);
    previous_answer == 0 || (change * THRESHOLD_MULTIPLIER <= u128::MAX && (change
        * THRESHOLD_MULTIPLIER) as int / magnitude(previous_answer as int) as int
        <= flagging_threshold)
}

/// The size of `x`.
pub fn unsigned_abs(x: i128) -> (r: u128)
    ensures
        r == magnitude(x as int),
{
    if x >= 0 {
        x as u128
    } else {
        (-(x + 1)) as u128 + 1
    }
}

/// The distance between `a` and `b`, which always fits in 128 bits.
pub fn abs_diff(a: i128, b: i128) -> (r: u128)
    ensures
        r == distance(a as int, b as int),
{
    let (low, high) = if a < b {
        (a, b)
    } else {
        (b, a)
    };
    if low >= 0 || high < 0 {
        (high - low) as u128
    } else {
        // `low` is negative and `high` is not
        (high as u128) + unsigned_abs(low)
    }
}

/// Whether `answer` is within the threshold of `previous_answer`.
pub fn is_valid(flagging_threshold: u32, previous_answer: i128, answer: i128) -> (r: bool)
    ensures
        r == within_threshold(flagging_threshold, previous_answer, answer),
{
    if previous_answer == 0 {
        return true;
    }
    let change = abs_diff(previous_answer, answer);
    let ratio_numerator = match change.checked_mul(THRESHOLD_MULTIPLIER) {
        Some(ratio_numerator) => ratio_numerator,
        None => {
            return false;
        },
    };
    let ratio = ratio_numerator / unsigned_abs(previous_answer);
    ratio <= flagging_threshold as u128
}

} // verus!
