use market_ingest::window::{is_in_window, parse_time_of_day, ScheduleGate, TickAction};

fn gate(enabled: bool, start: &str, end: &str) -> ScheduleGate {
    ScheduleGate {
        enabled,
        start_time: start.to_string(),
        end_time: end.to_string(),
    }
}

fn secs(h: u32, m: u32, s: u32) -> u32 {
    h * 3600 + m * 60 + s
}

#[test]
fn window_wrapping_midnight() {
    let g = gate(true, "21:00:00", "04:00:00");
    assert!(g.is_operation_allowed(secs(23, 0, 0)));
    assert!(g.is_operation_allowed(secs(2, 0, 0)));
    assert!(!g.is_operation_allowed(secs(12, 0, 0)));
}

#[test]
fn window_same_day_inclusive_bounds() {
    let g = gate(true, "09:00:00", "18:00:00");
    assert!(g.is_operation_allowed(secs(9, 0, 0)));
    assert!(g.is_operation_allowed(secs(18, 0, 0)));
    assert!(!g.is_operation_allowed(secs(8, 59, 59)));
}

#[test]
fn disabled_gate_denies_even_inside_window() {
    let g = gate(false, "00:00:00", "23:59:59");
    assert!(!g.is_operation_allowed(secs(12, 0, 0)));
}

#[test]
fn malformed_window_denies() {
    assert!(!gate(true, "nonsense", "18:00:00").is_operation_allowed(secs(12, 0, 0)));
    assert!(!gate(true, "09:00:00", "").is_operation_allowed(secs(12, 0, 0)));
    assert!(!gate(true, "25:00:00", "18:00:00").is_operation_allowed(secs(12, 0, 0)));
}

#[test]
fn parse_accepts_hh_mm_ss_and_hh_mm() {
    assert_eq!(parse_time_of_day("09:00:00"), Some(32400));
    assert_eq!(parse_time_of_day("23:59:59"), Some(86399));
    assert_eq!(parse_time_of_day("00:00:00"), Some(0));
    assert_eq!(parse_time_of_day("09:30"), Some(34200));
}

#[test]
fn parse_rejects_malformed_times() {
    assert_eq!(parse_time_of_day("9:00:00"), None);
    assert_eq!(parse_time_of_day("24:00:00"), None);
    assert_eq!(parse_time_of_day("09:60:00"), None);
    assert_eq!(parse_time_of_day("09:00:60"), None);
    assert_eq!(parse_time_of_day("09-00-00"), None);
    assert_eq!(parse_time_of_day(""), None);
    assert_eq!(parse_time_of_day("09:00:0x"), None);
}

#[test]
fn raw_window_check_edges() {
    // same-day window
    assert!(is_in_window(100, 200, 100));
    assert!(is_in_window(100, 200, 200));
    assert!(!is_in_window(100, 200, 99));
    assert!(!is_in_window(100, 200, 201));
    // wrapping window
    assert!(is_in_window(200, 100, 250));
    assert!(is_in_window(200, 100, 50));
    assert!(!is_in_window(200, 100, 150));
}

#[test]
fn tick_action_follows_the_gate() {
    let g = gate(true, "09:00:00", "18:00:00");
    assert_eq!(g.tick_action(secs(10, 0, 0)), TickAction::RunJob);
    assert_eq!(g.tick_action(secs(20, 0, 0)), TickAction::SleepRecheck);
}

#[test]
fn degenerate_single_point_window() {
    let g = gate(true, "12:00:00", "12:00:00");
    assert!(g.is_operation_allowed(secs(12, 0, 0)));
    assert!(!g.is_operation_allowed(secs(12, 0, 1)));
    assert!(!g.is_operation_allowed(secs(11, 59, 59)));
}

#[test]
fn hh_mm_window_form_is_accepted() {
    let g = gate(true, "09:30", "10:30");
    assert!(g.is_operation_allowed(secs(10, 0, 0)));
    assert!(!g.is_operation_allowed(secs(11, 0, 0)));
}
