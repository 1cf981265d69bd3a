use posebridge::battery::{estimate, Battery, BatteryError, STALE_AFTER_NS};
use posebridge::full_frame::FullFrameRate;
use posebridge::magnetic::cursor_number;
use posebridge::model::{Error, SampleTimeKind};
use posebridge::sample_clock::SampleClock;
use posebridge::text::decimal_text;

#[test]
fn vendor_thresholds_and_invalid_readings() {
    let levels = [
        (340, 5),
        (350, 10),
        (368, 15),
        (370, 20),
        (373, 30),
        (377, 40),
        (379, 50),
        (382, 60),
        (387, 75),
        (393, 90),
        (396, 100),
    ];
    let mut previous = 0;
    for (threshold, percent) in levels {
        assert_eq!(estimate(threshold - 1), Some(previous));
        assert_eq!(estimate(threshold), Some(percent));
        previous = percent;
    }
    assert_eq!(estimate(420), Some(100));
    for raw in [0, 199, 431, 483, 551, 32767, 65535] {
        assert_eq!(estimate(raw), None);
    }
}

fn volts(raw: Option<u16>) -> Option<f64> {
    raw.map(|v| f64::from(v) / 100.0)
}

#[test]
fn errors_expiration_and_disconnect_do_not_disguise_old_readings() {
    let now = 1_000_000_000_000u64;
    let second = 1_000_000_000u64;
    let mut battery = Battery::default();
    let empty = battery.snapshot(now, true);
    assert!(volts(empty.raw_register).is_none() && empty.estimated_percent.is_none());
    assert!(empty.age_ns.is_none() && !empty.fresh);
    battery.observe(382, now);
    assert!(battery.snapshot(now + STALE_AFTER_NS - 1, true).fresh);
    assert!(!battery.snapshot(now + STALE_AFTER_NS, true).fresh);
    assert!(!battery.snapshot(now, false).fresh);
    battery.observe(0, now + second);
    let failed = battery.snapshot(now + 2 * second, true);
    assert_eq!(volts(failed.raw_register), Some(3.82));
    assert_eq!(failed.estimated_percent, Some(60));
    assert_eq!(failed.age_ns, Some(2_000_000_000));
    assert!(failed.last_error.is_some() && !failed.fresh);
    battery.observe(379, now + 3 * second);
    let recovered = battery.snapshot(now + 3 * second, true);
    assert!(recovered.fresh && recovered.last_error.is_none());
    assert_eq!(recovered.estimated_percent, Some(50));
    assert_eq!(recovered.age_ns, Some(0));
    battery.observe(483, now + 4 * second);
    let supply = battery.snapshot(now + 4 * second, true);
    assert_eq!(volts(supply.raw_register), Some(4.83));
    assert!(supply.fresh && supply.last_error.is_none());
    assert!(supply.estimated_percent.is_none());
}

#[test]
fn battery_errors_name_the_reading() {
    let mut battery = Battery::default();
    battery.observe(551, 7);
    assert_eq!(
        battery.snapshot(7, true).last_error.unwrap().message(),
        "invalid battery register 0x64: 551 (expected 200..550 centivolts)"
    );
    battery.fail(BatteryError::TimedOut);
    assert_eq!(
        battery.snapshot(7, true).last_error.unwrap().message(),
        "battery read timed out (register 0x64)"
    );
    battery.fail(BatteryError::Request("x".into()));
    assert_eq!(battery.snapshot(7, true).last_error.unwrap().message(), "x");
}

#[test]
fn batches_duplicates_resets_and_forward_jumps() {
    let mut clock = SampleClock::default();
    let kind = SampleTimeKind::DeviceCalendar;
    assert_eq!(clock.observe(kind, 10000, 0).unwrap().clock_epoch, 1);
    assert_eq!(clock.observe(kind, 10005, 0).unwrap().clock_epoch, 1);
    assert_eq!(clock.observe(kind, 10005, 1_000_000_000), None);
    assert_eq!(clock.duplicates, 1);
    // Duplicate reception did not advance the host clock anchor.
    assert_eq!(clock.observe(kind, 11005, 1_000_000_000).unwrap().clock_epoch, 1);
    assert_eq!(clock.observe(kind, 5, 1_001_000_000).unwrap().clock_epoch, 2);
    assert_eq!(clock.observe(kind, 90000, 1_002_000_000).unwrap().clock_epoch, 3);
    assert_eq!(
        clock.observe(SampleTimeKind::SimulatedElapsed, 90000, 1_003_000_000).unwrap().clock_epoch,
        4
    );
    assert_eq!(clock.discontinuities, 3);
}

#[test]
fn a_clock_may_lead_by_two_seconds() {
    let kind = SampleTimeKind::DeviceCalendar;
    let mut clock = SampleClock::default();
    clock.observe(kind, 0, 0);
    assert_eq!(clock.observe(kind, 2000, 0).unwrap().clock_epoch, 1);
    assert_eq!(clock.observe(kind, 4001, 0).unwrap().clock_epoch, 2);
    assert_eq!(clock.observe(kind, 7001, 1_000_000_000).unwrap().clock_epoch, 2);
    assert_eq!(clock.observe(kind, 7000, 2_000_000_000).unwrap().clock_epoch, 3);
}

#[test]
fn full_frame_guard_refuses_high_rate_and_allows_clock_restart() {
    let mut rate = FullFrameRate::default();
    for t in [0, 50, 100, 150, 200, 250] {
        rate.observe(0xe4, Some(t)).unwrap();
    }
    rate.observe(0xe4, Some(0)).unwrap();
    for t in [5, 10, 15] {
        rate.observe(0xe4, Some(t)).unwrap();
    }
    assert!(rate.observe(0xe4, Some(20)).is_err());
}

#[test]
fn full_frame_guard_uses_the_median_of_the_last_eight_gaps() {
    let mut rate = FullFrameRate::default();
    let mut t = 0;
    rate.observe(0xe4, Some(t)).unwrap();
    // One late frame among seven on time is no reason to refuse.
    for gap in [50, 50, 400, 50, 50, 50, 50, 50] {
        t += gap;
        rate.observe(0xe4, Some(t)).unwrap();
    }
    // With four short gaps of eight the upper median is still 50.
    for gap in [40, 40, 40, 40] {
        t += gap;
        rate.observe(0xe4, Some(t)).unwrap();
    }
    t += 40;
    assert!(matches!(rate.observe(0xe4, Some(t)), Err(Error::Protocol(_))));
    // Another profile starts over.
    rate.observe(0x84, None).unwrap();
    for time in [0, 40, 80, 120] {
        rate.observe(0xe4, Some(time)).unwrap();
    }
    assert!(rate.observe(0xe4, Some(160)).is_err());
    let missing = FullFrameRate::default().observe(0xe4, None).unwrap_err();
    assert_eq!(missing.message(), "protocol error: full inertial frame lacks a clock");
}

#[test]
fn cursor_json_is_strict_and_roundtrips() {
    for value in [0u64, 1, 2, 3, 10, 473398726930, i64::MAX as u64] {
        assert_eq!(cursor_number(&decimal_text(value)).unwrap(), value);
        assert_eq!(decimal_text(value), value.to_string());
    }
    for text in ["-1", "+1", "9223372036854775808", "", "null", " 3", "3x", "18446744073709551616"] {
        assert!(cursor_number(text).is_err(), "{text}");
    }
    assert_eq!(
        cursor_number("9223372036854775808").unwrap_err().message(),
        "invalid argument: cursor exceeds positive int64 range"
    );
    assert_eq!(
        cursor_number("1.0").unwrap_err().message(),
        "invalid argument: cursor values must be decimal strings"
    );
    assert_eq!(cursor_number("007").unwrap(), 7);
}
