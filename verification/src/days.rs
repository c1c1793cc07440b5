//! Calendar-day arithmetic on second-resolution UTC timestamps.
//!
//! The backfill pipeline works in whole UTC days.  A Unix timestamp `ts`
//! belongs to the civil day `ts / 86400`; the day runs from `00:00:00`
//! (`day_start`) to `23:59:59` (`day_end`).

use vstd::prelude::*;

verus! {

/// Seconds in one UTC day.
pub const SECS_PER_DAY: u64 = 86400;

/// Largest timestamp the pipeline accepts (9999-12-31 23:59:59 UTC).
pub const MAX_DAY_TS: i64 = 253402300799;

/// The civil day that `ts` falls on, counted from the epoch.
pub open spec fn day_index(ts: int) -> int {
    ts / 86400
}

/// 00:00:00 of the day that `ts` falls on.
pub open spec fn day_start(ts: int) -> int {
    day_index(ts) * 86400
}

/// 23:59:59 of the day that `ts` falls on.
pub open spec fn day_end(ts: int) -> int {
    day_start(ts) + 86399
}

/// Basic bounds: every timestamp lies between the start and end of its day.
pub proof fn lemma_day_bounds(ts: int)
    requires
        0 <= ts,
    ensures
        day_start(ts) <= ts <= day_end(ts),
        day_end(ts) == day_start(ts) + 86399,
        day_start(ts) == 86400 * day_index(ts),
{
    vstd::arithmetic::div_mod::lemma_fundamental_div_mod(ts, 86400);
    vstd::arithmetic::div_mod::lemma_mod_bound(ts, 86400);
}

/// End (23:59:59) of the calendar day containing `ts`.
pub fn get_end_of_day(ts: i64) -> (r: i64)
    requires
        0 <= ts <= MAX_DAY_TS,
    ensures
        r == day_end(ts as int),
        ts <= r <= MAX_DAY_TS,
{
    proof {
        lemma_day_bounds(ts as int);
    }
    let d: u64 = (ts as u64) / SECS_PER_DAY;
    (d * SECS_PER_DAY + (SECS_PER_DAY - 1)) as i64
}

/// Start (00:00:00) of the calendar day containing `ts`.
pub fn get_day_start(ts: i64) -> (r: i64)
    requires
        0 <= ts <= MAX_DAY_TS,
    ensures
        r == day_start(ts as int),
        0 <= r <= ts,
{
    proof {
        lemma_day_bounds(ts as int);
    }
    let d: u64 = (ts as u64) / SECS_PER_DAY;
    (d * SECS_PER_DAY) as i64
}

/// Start (00:00:00) and end (23:59:59) of the calendar day after the one
/// containing `ts`.
pub fn get_next_day_range(ts: i64) -> (r: (i64, i64))
    requires
        0 <= ts,
        ts + 86400 <= MAX_DAY_TS,
    ensures
        r.0 == day_start(ts as int) + 86400,
        r.1 == day_end(ts as int) + 86400,
        ts < r.0 < r.1 <= MAX_DAY_TS,
        r.1 == r.0 + 86399,
        r.1 == day_end(r.0 as int),
        r.0 == day_start(r.0 as int),
{
    proof {
        lemma_day_bounds(ts as int);
        let q = day_index(ts as int);
        let r = ts as int - q * 86400;
        vstd::arithmetic::div_mod::lemma_fundamental_div_mod_converse_div(
            ts as int + 86400, 86400, q + 1, r);
        vstd::arithmetic::div_mod::lemma_fundamental_div_mod_converse_div(
            (q + 1) * 86400, 86400, q + 1, 0);
    }
    let d: u64 = (ts as u64) / SECS_PER_DAY + 1;
    ((d * SECS_PER_DAY) as i64, (d * SECS_PER_DAY + (SECS_PER_DAY - 1)) as i64)
}

} // verus!
