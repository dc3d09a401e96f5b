use wip_git::clock::{now_timestamp, timestamp_since_epoch};
use wip_git::commands::gc::{duration_in_range, parse_duration};
use wip_git::commands::list::{relative_time, relative_time_at};
use wip_git::commands::save::next_increment;

#[test]
fn durations_in_days_and_hours() {
    assert_eq!(parse_duration("7d"), Ok(7 * 86400));
    assert_eq!(parse_duration("24h"), Ok(24 * 3600));
    assert_eq!(parse_duration("  30d \n"), Ok(30 * 86400));
    assert_eq!(parse_duration("+2h"), Ok(7200));
    assert_eq!(parse_duration("-1d"), Ok(-86400));
    assert_eq!(parse_duration("0h"), Ok(0));
}

#[test]
fn malformed_durations() {
    assert_eq!(parse_duration("7"), Err("invalid duration: 7 (use e.g. 7d, 24h)".to_string()));
    assert_eq!(parse_duration("d"), Err("invalid duration: d".to_string()));
    assert_eq!(parse_duration("1.5d"), Err("invalid duration: 1.5d".to_string()));
    assert_eq!(parse_duration(" 3w "), Err("invalid duration: 3w (use e.g. 7d, 24h)".to_string()));
    assert_eq!(parse_duration(""), Err("invalid duration:  (use e.g. 7d, 24h)".to_string()));
}

#[test]
fn duration_range_check() {
    assert!(duration_in_range("30d"));
    assert!(duration_in_range("nonsense"));
    assert!(!duration_in_range("9223372036854775807d"));
    assert!(duration_in_range("106751991167300d"));
    assert!(!duration_in_range("106751991167301d"));
}

#[test]
fn relative_times() {
    assert_eq!(relative_time_at(1000, 1000), "just now");
    assert_eq!(relative_time_at(1000, 1059), "just now");
    assert_eq!(relative_time_at(0, 60), "1m ago");
    assert_eq!(relative_time_at(0, 3599), "59m ago");
    assert_eq!(relative_time_at(0, 7200), "2h ago");
    assert_eq!(relative_time_at(0, 86400 * 3), "3d ago");
    assert_eq!(relative_time_at(0, 86400 * 29 + 5), "29d ago");
    assert_eq!(relative_time_at(0, 86400 * 30), "4w ago");
    assert_eq!(relative_time_at(2000, 1000), "just now");
}

#[test]
fn increments_start_at_one() {
    assert_eq!(next_increment("auth-fix", "alice", ""), "auth-fix-01");
}

#[test]
fn increments_follow_the_largest() {
    let listing = "abc123\trefs/wip/alice/auth-fix-01\n\
                   def456\trefs/wip/alice/auth-fix-09\n\
                   0a0b0c\trefs/wip/alice/auth-fix-3\n\
                   ffffff\trefs/wip/alice/auth-fix-old\n\
                   eeeeee\trefs/wip/bob/auth-fix-50";
    assert_eq!(next_increment("auth-fix", "alice", listing), "auth-fix-10");
}

#[test]
fn increments_past_two_digits() {
    let listing = "abc\trefs/wip/u/x-99";
    assert_eq!(next_increment("x", "u", listing), "x-100");
}

#[test]
fn relative_time_uses_the_clock() {
    assert_eq!(relative_time(i64::MAX).as_deref(), Some("just now"));
    assert!(relative_time(0).unwrap().ends_with("w ago"));
}

#[test]
fn clock_reading_becomes_seconds() {
    assert_eq!(timestamp_since_epoch(None), None);
    assert_eq!(timestamp_since_epoch(Some((1_700_000_000, 123))), Some(1_700_000_000));
    assert_eq!(timestamp_since_epoch(Some((u64::MAX, 0))), None);
    assert!(now_timestamp().unwrap() > 1_600_000_000);
}
