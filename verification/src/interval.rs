//! The interval resolver: picks a sampling granularity from a span's
//! total duration so that a fixed-width chart stays readable.

use crate::time::TimeRange;
use crate::time::TimeUnit;
use crate::time::seconds_per_unit;
use crate::time::total_seconds;
use vstd::prelude::*;

verus! {

/// The sampling unit for a span of `total` seconds, by the fixed
/// inclusive thresholds: up to an hour sample by the minute, up to two
/// days by the hour, up to twenty million seconds by the day, beyond
/// that by the month.
pub open spec fn interval_unit_for(total: int) -> TimeUnit {
    if total <= 3600 {
        TimeUnit::Minute
    } else if total <= 172800 {
        TimeUnit::Hour
    } else if total <= 20000000 {
        TimeUnit::Day
    } else {
        TimeUnit::Month
    }
}

/// Resolves the sampling interval for a requested span: always a
/// single unit, chosen from the span's total duration.
pub fn calculate_interval(time_range: &TimeRange) -> (r: TimeRange)
    ensures
        r.scalar == 1,
        r.unit == interval_unit_for(total_seconds(*time_range)),
{
    let multiplier: u64 = match time_range.unit {
        TimeUnit::Minute => 60,
        TimeUnit::Hour => 3600,
        TimeUnit::Day => 86400,
        TimeUnit::Month => 2592000,
        TimeUnit::Year => 31536000,
    };
    proof {
        assert(multiplier == seconds_per_unit(time_range.unit));
        vstd::arithmetic::mul::lemma_mul_upper_bound(
            time_range.scalar as int,
            u64::MAX as int,
            multiplier as int,
            31536000,
        );
    }
    let total_time: u128 = time_range.scalar as u128 * multiplier as u128;
    let interval_unit = if total_time <= 3600 {
        TimeUnit::Minute
    } else if total_time <= 172800 {
        TimeUnit::Hour
    } else if total_time <= 20000000 {
        TimeUnit::Day
    } else {
        TimeUnit::Month
    };
    TimeRange { scalar: 1, unit: interval_unit }
}

} // verus!
