//! Sums of times and of coordinates that stay inside their types.

use vstd::prelude::*;

verus! {

/// More than `wait` has passed between `since` and `now`.
pub open spec fn due(since: u64, wait: u64, now: u64) -> bool {
    since + wait < now
}

/// Tells whether more than `wait` has passed between `since` and `now`.
pub fn is_due(since: u64, wait: u64, now: u64) -> (passed: bool)
    ensures
        passed == due(since, wait, now),
{
    now > since && now - since > wait
}

/// The coordinate nearest to `v`.
pub open spec fn clip(v: int) -> i64 {
    if v < i64::MIN {
        i64::MIN
    } else if v > i64::MAX {
        i64::MAX
    } else {
        v as i64
    }
}

/// The coordinate `by` cells from `p`, or the last coordinate on the way.
pub fn shift(p: i64, by: i64) -> (moved: i64)
    ensures
        moved == clip(p + by),
{
    let sum: i128 = p as i128 + by as i128;
    if sum < i64::MIN as i128 {
        i64::MIN
    } else if sum > i64::MAX as i128 {
        i64::MAX
    } else {
        sum as i64
    }
}

/// `v`, or the nearer end of the range from `low` to `high` where `v` lies
/// outside it. Where the range is empty, what lies below `low` goes to
/// `low` and everything else to `high`.
pub open spec fn clamp(v: int, low: int, high: int) -> int {
    if v < low {
        low
    } else if v > high {
        high
    } else {
        v
    }
}

} // verus!
