//! The system clock, and the day ranges derived from it.

use vstd::prelude::*;

use crate::days::{day_end, day_index, day_start, get_day_start, lemma_day_bounds, MAX_DAY_TS};

verus! {

/// Relies on std's `SystemTime::now` and `duration_since`: the whole
/// seconds elapsed since the Unix epoch, or `None` when the system
/// clock reads before the epoch.  Neither call panics; nothing is
/// promised of the value — the caller validates whatever comes back.
#[verifier::external_body]
fn now_unix() -> (r: Option<i64>) {
    match std::time::SystemTime::now().duration_since(std::time::UNIX_EPOCH) {
        Ok(elapsed) => Some(elapsed.as_secs() as i64),
        Err(_) => None,
    }
}

/// Start (00:00:00) and end (23:59:59) of the calendar day before the
/// one containing `ts`, or before today when `ts` is absent.  `None`
/// when the reference timestamp lies outside the representable day
/// range, or when the clock itself reads before the epoch — for a sane
/// host clock neither happens in practice.
pub fn get_yesterday_range(ts: Option<i64>) -> (r: Option<(i64, i64)>)
    ensures
        ts matches Some(t) ==> r == (if 86400 <= t <= MAX_DAY_TS {
            Some((
                (day_start(t as int) - 86400) as i64,
                (day_start(t as int) - 1) as i64,
            ))
        } else {
            None::<(i64, i64)>
        }),
        r matches Some(v) ==> (0 <= v.0 && v.1 == v.0 + 86399 && v.1 <= MAX_DAY_TS
            && v.0 == day_start(v.0 as int) && v.1 == day_end(v.1 as int)),
{
    let t = match ts {
        Some(t) => t,
        None => {
            match now_unix() {
                Some(t) => t,
                None => {
                    return None;
                },
            }
        },
    };
    if 86400 <= t && t <= MAX_DAY_TS {
        let ds = get_day_start(t);
        proof {
            lemma_day_bounds(t as int);
            let q = day_index(t as int);
            assert(ds == 86400 * q);
            assert(q >= 1) by {
                if q < 1 {
                    assert(86400 * q <= 0);
                }
            }
            vstd::arithmetic::div_mod::lemma_fundamental_div_mod_converse_div(
                ds - 86400, 86400, q - 1, 0);
            assert((q - 1) * 86400 == 86400 * q - 86400) by (nonlinear_arith);
            vstd::arithmetic::div_mod::lemma_fundamental_div_mod_converse_div(
                ds - 1, 86400, q - 1, 86399);
        }
        Some((ds - 86400, ds - 1))
    } else {
        None
    }
}

} // verus!
