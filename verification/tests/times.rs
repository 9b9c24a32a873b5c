use subnet_lease::manager::LocalManager;
use subnet_lease::time::{
    expiry, expiry_in_range, margin_fits, time_until, Pause, Timestamp, MAX_SECS, MAX_SPAN_SECS,
    MIN_SECS,
};

fn at(secs: i64, nanos: u32) -> Timestamp {
    Timestamp { secs, nanos }
}

#[test]
fn calendar_is_that_of_chrono() {
    assert_eq!(MIN_SECS, chrono::DateTime::<chrono::Utc>::MIN_UTC.timestamp());
    assert_eq!(MAX_SECS, chrono::DateTime::<chrono::Utc>::MAX_UTC.timestamp());
    assert_eq!(MAX_SPAN_SECS, chrono::TimeDelta::MAX.num_seconds());
    assert_eq!(MAX_SPAN_SECS, -chrono::TimeDelta::MIN.num_seconds());
}

#[test]
fn default_time_is_that_of_chrono() {
    let epoch = chrono::DateTime::<chrono::Utc>::default();
    assert_eq!(Timestamp::default(), at(epoch.timestamp(), epoch.timestamp_subsec_nanos()));
}

#[test]
fn expiry_is_so_many_seconds_later() {
    assert_eq!(expiry(at(1_700_000_000, 5), 86_400), at(1_700_086_400, 5));
    assert_eq!(expiry(at(10, 999_999_999), -1), at(9, 999_999_999));
    assert_eq!(expiry(at(0, 0), MAX_SECS), at(MAX_SECS, 0));
    assert_eq!(expiry(at(MAX_SECS, 7), MIN_SECS - MAX_SECS), at(MIN_SECS, 7));
}

#[test]
fn expiry_stays_within_the_calendar() {
    assert!(expiry_in_range(at(0, 0), MAX_SECS));
    assert!(!expiry_in_range(at(1, 0), MAX_SECS));
    assert!(!expiry_in_range(at(0, 0), i64::MAX));
    assert!(!expiry_in_range(at(i64::MAX, 0), 0));
    assert!(!expiry_in_range(at(0, 1_000_000_000), 0));
    assert!(expiry_in_range(at(0, 0), MIN_SECS));
    assert!(!expiry_in_range(at(0, 0), MIN_SECS - 1));
}

#[test]
fn time_until_takes_the_margin_off() {
    assert_eq!(time_until(at(1_000, 0), at(100, 0), 5), Pause { secs: 600, nanos: 0 });
    assert_eq!(
        time_until(at(1_000, 250), at(100, 500), 5),
        Pause { secs: 599, nanos: 999_999_750 }
    );
    assert_eq!(time_until(at(1_000, 0), at(100, 0), 15), Pause { secs: 0, nanos: 0 });
    assert_eq!(time_until(at(1_000, 0), at(100, 1), 15), Pause { secs: 0, nanos: 0 });
    assert_eq!(time_until(at(1_000, 0), at(2_000, 0), 0), Pause { secs: 0, nanos: 0 });
    assert_eq!(time_until(at(1_000, 0), at(1_000, 0), -1), Pause { secs: 60, nanos: 0 });
}

#[test]
fn margin_has_to_fit() {
    assert!(margin_fits(at(1_000, 0), at(100, 0), 5));
    assert!(!margin_fits(at(1_000, 0), at(100, 0), i64::MAX));
    assert!(!margin_fits(at(1_000, 0), at(100, 0), i64::MIN));
    assert!(margin_fits(at(0, 0), at(0, 0), MAX_SPAN_SECS / 60));
    assert!(!margin_fits(at(0, 0), at(0, 0), MAX_SPAN_SECS / 60 + 1));
    assert!(!margin_fits(at(MIN_SECS, 0), at(MAX_SECS, 0), MAX_SPAN_SECS / 60));
    assert!(!margin_fits(at(MIN_SECS - 1, 0), at(0, 0), 0));
}

#[test]
fn later_renewal_expires_later() {
    let first = expiry(at(1_700_000_000, 1), 86_400);
    let second = expiry(at(1_700_000_000, 2), 86_400);
    assert!((first.secs, first.nanos) < (second.secs, second.nanos));
}

#[test]
fn renewal_margin_is_in_minutes() {
    let manager = LocalManager::new(None, None, 60);
    assert_eq!(
        manager.renewal_pause(at(86_400, 0), at(0, 0)),
        Pause { secs: 82_800, nanos: 0 }
    );
}
