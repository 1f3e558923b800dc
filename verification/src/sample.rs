//! Fixed-point amplitudes and the one arithmetic step of the string model.

use vstd::prelude::*;

verus! {

/// Amplitude one. A sample is a fixed-point number with 48 fractional bits.
pub const UNIT: i64 = 0x1_0000_0000_0000;

/// Amplitude one half: the largest magnitude a string ever holds.
pub const HALF: i64 = 0x8000_0000_0000;

/// The energy kept per step is `DECAY_NUMERATOR / DECAY_DENOMINATOR`, 0.996.
pub const DECAY_NUMERATOR: i64 = 249;

/// See [`DECAY_NUMERATOR`].
pub const DECAY_DENOMINATOR: i64 = 250;

/// Magnitude of an integer.
pub open spec fn magnitude(value: int) -> int {
    if value < 0 {
        -value
    } else {
        value
    }
}

/// Whether `value` is a sample a string may hold.
pub open spec fn in_range(value: i64) -> bool {
    -HALF <= value <= HALF
}

/// The mean of two samples, scaled by the decay factor and rounded toward
/// zero: `(first + second) / 2 * 249 / 250`.
pub open spec fn decayed_average(first: i64, second: i64) -> i64 {
    let scaled: int = (first + second) * DECAY_NUMERATOR;
    let divisor: int = 2 * DECAY_DENOMINATOR;
    if scaled >= 0 {
        (scaled / divisor) as i64
    } else {
        (-((-scaled) / divisor)) as i64
    }
}

/// What a bound on a string's samples shrinks to in one pass: `limit * 249 / 250`,
/// rounded down.
pub open spec fn decayed_limit(limit: int) -> int {
    limit * (DECAY_NUMERATOR as int) / (DECAY_DENOMINATOR as int)
}

/// The decayed mean of two samples within `limit` is within the decayed limit,
/// which is below `limit` unless `limit` is zero.
pub proof fn decayed_average_bound(first: i64, second: i64, limit: int)
    requires
        magnitude(first as int) <= limit <= HALF,
        magnitude(second as int) <= limit,
    ensures
        magnitude(decayed_average(first, second) as int) <= decayed_limit(limit),
        decayed_limit(limit) <= limit,
        limit > 0 ==> decayed_limit(limit) < limit,
{
    let size: int = magnitude((first + second) * DECAY_NUMERATOR);
    assert(size / 500 <= (2 * limit * 249) / 500 == decayed_limit(limit));
}

/// Computes [`decayed_average`].
pub fn decayed_average_of(first: i64, second: i64) -> (result: i64)
    requires
        in_range(first),
        in_range(second),
    ensures
        result == decayed_average(first, second),
        in_range(result),
{
    proof {
        decayed_average_bound(
            first,
            second,
            if magnitude(first as int) >= magnitude(second as int) {
                magnitude(first as int)
            } else {
                magnitude(second as int)
            },
        );
    }
    let scaled: i64 = (first + second) * DECAY_NUMERATOR;
    if scaled >= 0 {
        scaled / (2 * DECAY_DENOMINATOR)
    } else {
        -((-scaled) / (2 * DECAY_DENOMINATOR))
    }
}

} // verus!
