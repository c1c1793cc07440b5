//! Time-of-day operation windows for scheduled jobs.
//!
//! A job runs only when its enabled flag is set and the current UTC
//! time of day lies inside the configured `[start, end]` window, both
//! bounds inclusive.  A window whose start lies after its end wraps
//! midnight.  A malformed window string denies operation: a job with an
//! unreadable window never runs, rather than running at all hours.

use vstd::prelude::*;

verus! {

/// The numeric value of a decimal digit character, if it is one.
pub open spec fn digit_val(c: char) -> Option<u32> {
    match c {
        '0' => Some(0u32),
        '1' => Some(1u32),
        '2' => Some(2u32),
        '3' => Some(3u32),
        '4' => Some(4u32),
        '5' => Some(5u32),
        '6' => Some(6u32),
        '7' => Some(7u32),
        '8' => Some(8u32),
        '9' => Some(9u32),
        _ => None,
    }
}

/// The value of the two-digit group at position `i`, if both characters
/// are digits.
pub open spec fn two_digits(s: Seq<char>, i: int) -> Option<u32> {
    match (digit_val(s[i]), digit_val(s[i + 1])) {
        (Some(hi), Some(lo)) => Some((hi * 10 + lo) as u32),
        _ => None,
    }
}

/// The seconds since midnight that a `HH:MM:SS` or `HH:MM` string
/// denotes; `None` for anything malformed or out of range.
pub open spec fn spec_parse_time_of_day(s: Seq<char>) -> Option<u32> {
    if s.len() != 8 && s.len() != 5 {
        None
    } else if s[2] != ':' || (s.len() == 8 && s[5] != ':') {
        None
    } else {
        let sec = if s.len() == 8 {
            two_digits(s, 6)
        } else {
            Some(0u32)
        };
        match (two_digits(s, 0), two_digits(s, 3), sec) {
            (Some(h), Some(m), Some(sc)) => if h < 24 && m < 60 && sc < 60 {
                Some((h * 3600 + m * 60 + sc) as u32)
            } else {
                None
            },
            _ => None,
        }
    }
}

/// Whether `now` lies inside the inclusive window `[start, end]`,
/// wrapping midnight when `start > end`.
pub open spec fn spec_in_window(start: u32, end: u32, now: u32) -> bool {
    if start <= end {
        start <= now && now <= end
    } else {
        now >= start || now <= end
    }
}

/// Reads the decimal digit at position `i` of `s`.
fn digit_at(s: &str, i: usize) -> (r: Option<u32>)
    requires
        i < s@.len(),
    ensures
        r == digit_val(s@[i as int]),
{
    let c = s.get_char(i);
    match c {
        '0' => Some(0),
        '1' => Some(1),
        '2' => Some(2),
        '3' => Some(3),
        '4' => Some(4),
        '5' => Some(5),
        '6' => Some(6),
        '7' => Some(7),
        '8' => Some(8),
        '9' => Some(9),
        _ => None,
    }
}

/// Reads the two-digit group at position `i` of `s`.
fn two_digits_at(s: &str, i: usize) -> (r: Option<u32>)
    requires
        i < usize::MAX,
        i + 1 < s@.len(),
    ensures
        r == two_digits(s@, i as int),
{
    let hi = digit_at(s, i);
    let lo = digit_at(s, i + 1);
    match (hi, lo) {
        (Some(h), Some(l)) => Some(h * 10 + l),
        _ => None,
    }
}

/// Parses a `HH:MM:SS` or `HH:MM` time-of-day string to seconds since
/// midnight.  Returns `None` for anything malformed or out of range.
pub fn parse_time_of_day(s: &str) -> (r: Option<u32>)
    ensures
        r == spec_parse_time_of_day(s@),
        r matches Some(v) ==> v < 86400,
{
    let len = s.unicode_len();
    if len != 8 && len != 5 {
        return None;
    }
    if s.get_char(2) != ':' {
        return None;
    }
    if len == 8 && s.get_char(5) != ':' {
        return None;
    }
    let h = two_digits_at(s, 0);
    let m = two_digits_at(s, 3);
    let sec = if len == 8 {
        two_digits_at(s, 6)
    } else {
        Some(0)
    };
    match (h, m, sec) {
        (Some(h), Some(m), Some(sc)) => {
            if h < 24 && m < 60 && sc < 60 {
                Some(h * 3600 + m * 60 + sc)
            } else {
                None
            }
        },
        _ => None,
    }
}

/// Whether `now` lies inside the inclusive window `[start, end]`,
/// wrapping midnight when `start > end`.
pub fn is_in_window(start: u32, end: u32, now: u32) -> (r: bool)
    ensures
        r == spec_in_window(start, end, now),
{
    if start <= end {
        start <= now && now <= end
    } else {
        now >= start || now <= end
    }
}

/// What a job's gate decides for a given time of day.
pub open spec fn spec_operation_allowed(
    enabled: bool,
    start: Seq<char>,
    end: Seq<char>,
    now: u32,
) -> bool {
    &&& enabled
    &&& spec_parse_time_of_day(start) matches Some(s)
        && (spec_parse_time_of_day(end) matches Some(e) && spec_in_window(s, e, now))
}

/// A scheduled job's gate: an enabled flag and a UTC operation window.
#[derive(Clone, Debug, PartialEq)]
pub struct ScheduleGate {
    /// Whether the job may run at all.
    pub enabled: bool,
    /// Window start, `HH:MM:SS` or `HH:MM` UTC.
    pub start_time: String,
    /// Window end, `HH:MM:SS` or `HH:MM` UTC.
    pub end_time: String,
}

impl ScheduleGate {
    /// Whether a manual trigger may run the job: gated by the enabled
    /// flag alone, ignoring the time window.
    pub fn allows_manual_trigger(&self) -> (r: bool)
        ensures
            r == self.enabled,
    {
        self.enabled
    }

    /// Whether the job may run at `now` seconds since UTC midnight.
    ///
    /// Denied when the job is disabled and when either window string is
    /// malformed — the one policy applied everywhere windows are read.
    pub fn is_operation_allowed(&self, now: u32) -> (r: bool)
        ensures
            r == spec_operation_allowed(self.enabled, self.start_time@, self.end_time@, now),
    {
        if !self.enabled {
            return false;
        }
        let start = parse_time_of_day(self.start_time.as_str());
        let end = parse_time_of_day(self.end_time.as_str());
        match (start, end) {
            (Some(s), Some(e)) => is_in_window(s, e, now),
            _ => false,
        }
    }
}

/// What a scheduler tick should do.
#[derive(Clone, Copy, Debug, PartialEq, Eq, Structural)]
pub enum TickAction {
    /// Run the job body now, then sleep the full interval.
    RunJob,
    /// Outside the window: sleep a short recheck delay, not the full
    /// interval, so the window is re-entered promptly.
    SleepRecheck,
}

impl ScheduleGate {
    /// Decides one scheduler tick at `now` seconds since UTC midnight.
    pub fn tick_action(&self, now: u32) -> (r: TickAction)
        ensures
            r == (if spec_operation_allowed(
                self.enabled, self.start_time@, self.end_time@, now) {
                TickAction::RunJob
            } else {
                TickAction::SleepRecheck
            }),
    {
        if self.is_operation_allowed(now) {
            TickAction::RunJob
        } else {
            TickAction::SleepRecheck
        }
    }
}

} // verus!
