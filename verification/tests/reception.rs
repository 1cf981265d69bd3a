use posebridge::battery;
use posebridge::controller::{ConvertedPose, Signals};
use posebridge::model::{ConnectionState, Error, PoseInput, SampleTimeKind};
use posebridge::motion::OrientationSource;
use posebridge::number::Number;
use posebridge::pump::{Orientation, PreparedPose, Pump};
use posebridge::Controller;

const MS: u64 = 1_000_000;
const SECOND: u64 = 1_000_000_000;

fn number(v: f64) -> Number {
    Number { bits: v.to_bits() }
}

/// Stands for the conversion of counts to an orientation.
fn convert(p: &PreparedPose) -> Option<ConvertedPose> {
    Some(ConvertedPose {
        quaternion_xyzw: [0., 0., 0., 1.].map(number),
        euler_deg: [0.; 3].map(number),
        raw: p.raw,
        time: p.time,
        signals: Some(Signals {
            orientation: [0., 0., 0., 1.].map(number),
            gyro: p.angular_velocity.map(|v| v.map(|n| number(f64::from(n)))),
            acceleration: p.acceleration.map(|v| v.map(|n| number(f64::from(n)))),
            source: p.source,
            profile: p.profile,
        }),
    })
}

fn receive(pump: &mut Pump, c: &mut Controller, bytes: &[u8], now: u64) -> Vec<PreparedPose> {
    let prepared = pump.receive(c, bytes, now).unwrap();
    c.publish_batch(&prepared.iter().map(convert).collect(), pump.start, now);
    prepared
}

fn register(address: u8, word: u16) -> Vec<u8> {
    let mut bytes = vec![0x55, 0x71, address, 0];
    bytes.extend(word.to_le_bytes());
    bytes.extend([0; 14]);
    bytes
}

fn motion() -> Vec<u8> {
    let mut frame = vec![0u8; 20];
    frame[..2].copy_from_slice(&[0x55, 0x61]);
    frame
}

#[test]
fn unsupported_stream_after_reconnect_still_times_out() {
    let mut c = Controller::new();
    c.begin_session();
    let mut first = Pump::new(PoseInput::Euler, 0);
    receive(&mut first, &mut c, &motion(), MS);
    assert_eq!(c.status.pose_count, 1);

    c.begin_session();
    assert_eq!(c.status.frames_received, 1);
    let start = 5 * SECOND;
    let mut pump = Pump::new(PoseInput::Euler, start);
    let mut now = start;
    let mut error = None;
    for step in 1..=120u64 {
        now = start + step * 100 * MS;
        receive(&mut pump, &mut c, &[0u8; 16], now);
        if pump.battery_deadline().is_some_and(|d| u128::from(now) >= d) {
            pump.battery_sent(now);
            pump.written(&mut c, battery::REGISTER, Ok(())).unwrap();
            receive(&mut pump, &mut c, &register(0x64, 382), now);
        }
        if let Err(e) = pump.check(&mut c, now) {
            error = Some(e);
            break;
        }
    }
    assert!(matches!(error, Some(Error::Protocol(_))));
    assert!(now - start > 10 * SECOND && now - start < 11 * SECOND);
    let s = c.snapshot(now);
    assert_eq!(s.status.frames_received, 2);
    assert_eq!(s.status.battery.raw_register, Some(382));
    assert_eq!(s.status.pose_count, 1);
    assert_eq!(s.status.session_samples, 0);
    assert!(s.status.bytes_received > 20);
}

#[test]
fn timestamp_stream_duplicates_stale_reset_and_absent_metadata() {
    let mut c = Controller::new();
    c.begin_session();
    let start = SECOND;
    let mut pump = Pump::new(PoseInput::StreamQuaternion, start);
    let frame =
        |ms: u8| vec![0x55, 0x84, 15, 1, 1, 0, 0, 0, ms, 0, 0xff, 0x7f, 0, 0, 0, 0, 0, 0];
    let mut now = start + 10 * MS;
    receive(&mut pump, &mut c, &[frame(10), frame(15)].concat(), now);
    assert_eq!(c.status.pose_count, 2);
    let first = c.pose.unwrap();
    assert_eq!(first.sample_time.unwrap().clock_epoch, 1);
    assert_eq!(Some(first.received_ns), first.raw.quaternion_received_ns);
    assert_eq!(first.raw.euler_xyz, None);
    // Duplicates arriving throughout the timeout cannot refresh the pose.
    for _ in 0..12 {
        now += 50 * MS;
        receive(&mut pump, &mut c, &frame(15), now);
    }
    assert_eq!(c.status.pose_count, 2);
    assert_eq!(c.status.duplicate_sample_times, 12);
    assert!(!c.fresh(now));
    assert_eq!(c.pose.unwrap().received_ns, first.received_ns);
    receive(&mut pump, &mut c, &frame(5), now);
    assert!(c.fresh(now));
    assert_eq!(c.status.clock_discontinuities, 1);
    let time = c.pose.unwrap().sample_time.unwrap();
    assert_eq!((time.clock_epoch, time.kind), (2, SampleTimeKind::DeviceCalendar));
    receive(&mut pump, &mut c, &[0x55, 0x04, 0xff, 0x7f, 0, 0, 0, 0, 0, 0], now);
    assert!(c.pose.unwrap().sample_time.is_none());
    // Stream quaternion input does not poll quaternion registers. The first
    // low-frequency battery request is only due one second after connection.
    assert!(pump.request_deadline().is_none());
    assert_eq!(pump.battery_deadline(), Some(u128::from(start + SECOND)));
}

#[test]
fn quaternion_reads_wait_for_response_retry_timeout_and_cancel() {
    let mut c = Controller::new();
    c.begin_session();
    let start = SECOND;
    let mut pump = Pump::new(PoseInput::Quaternion, start);
    assert_eq!(pump.request_deadline(), Some(u128::from(start)));
    pump.request_sent(start);
    assert!(pump.request_deadline().is_none(), "more than one request in flight");
    pump.written(&mut c, 0x51, Ok(())).unwrap();
    // Withhold the first response: retry must use its timeout, not a fast poll loop.
    assert_eq!(pump.request_deadline(), Some(u128::from(start + 250 * MS)));
    let sent = start + 250 * MS;
    pump.request_sent(sent);
    pump.written(&mut c, 0x51, Ok(())).unwrap();
    // Same read, but different frames: even an identical host receipt time
    // cannot associate stream gyro/timestamp with a register quaternion.
    let stream = [
        0x55, 0xa4, 15, 1, 1, 0, 0, 0, 5, 0, 1, 0, 2, 0, 3, 0, 0xff, 0x7f, 0, 0, 0, 0, 0, 0,
    ];
    let now = sent + 5 * MS;
    let bytes = [stream.as_slice(), register(0x51, 32767).as_slice()].concat();
    let prepared = receive(&mut pump, &mut c, &bytes, now);
    assert!(matches!(
        prepared[0].orientation,
        Orientation::Quaternion { wxyz: [32767, 0, 0, 0] }
    ));
    assert_eq!(pump.request_deadline(), Some(u128::from(sent + 20 * MS)));
    assert_eq!(c.status.pose_count, 1);
    assert!(c.pose.unwrap().sample_time.is_none());
    let batch = c.motion.since(None, now, true);
    assert_eq!(batch.samples.len(), 1);
    let sample = &batch.samples[0];
    assert_eq!(sample.orientation_source, OrientationSource::RegisterQuaternion);
    assert!(sample.sample_time.is_none());
    assert!(sample.angular_velocity_rad_s.is_none());
    assert!(sample.acceleration_g.is_none());
    assert!(c.pose.unwrap().raw.angular_velocity.is_some());
    assert!(c.fresh(now));
    assert!(pump.written(&mut c, 0x51, Err(Error::Busy)).is_err());
}

#[test]
fn battery_reply_shares_parser_without_creating_poses_or_quaternion_retries() {
    let mut c = Controller::new();
    c.begin_session();
    let mut pump = Pump::new(PoseInput::Quaternion, 0);
    // Leave quaternion requests unanswered until the battery query is due.
    let mut now = 0;
    while pump.battery_deadline().is_none_or(|d| u128::from(now) < d) {
        if pump.request_deadline().is_some_and(|d| u128::from(now) >= d) {
            pump.request_sent(now);
            pump.written(&mut c, 0x51, Ok(())).unwrap();
        }
        now += 10 * MS;
    }
    assert_eq!(now, SECOND);
    pump.battery_sent(now);
    pump.written(&mut c, battery::REGISTER, Ok(())).unwrap();
    let mut response = register(0x64, 382);
    // Fragmented reply followed by a complete quaternion in the same read.
    receive(&mut pump, &mut c, &response[..7], now + MS);
    let rest = [&response[7..], register(0x51, 32767).as_slice()].concat();
    receive(&mut pump, &mut c, &rest, now + 2 * MS);
    let result = c.snapshot(now + 2 * MS);
    assert_eq!(result.status.pose_count, 1);
    assert_eq!(result.status.battery.raw_register, Some(382));
    assert_eq!(result.status.battery.estimated_percent, Some(60));
    assert!(result.status.battery.fresh);
    assert_eq!(result.status.discarded_bytes, 0);
    assert_eq!(result.status.invalid_frames, 0);
    // Extra unsolicited register replies cannot replace the requested reading.
    response[4..6].copy_from_slice(&420u16.to_le_bytes());
    receive(&mut pump, &mut c, &response, now + 30 * MS);
    assert_eq!(c.snapshot(now).status.battery.raw_register, Some(382));
}

#[test]
fn missing_battery_reply_does_not_interrupt_pose_reception_or_retry_flood() {
    let mut c = Controller::new();
    c.begin_session();
    let mut pump = Pump::new(PoseInput::Euler, 0);
    let mut request_count = 0;
    let mut sent = 0;
    let mut now = 0;
    while c.battery.last_error.is_none() {
        now += 10 * MS;
        if pump.battery_deadline().is_some_and(|d| u128::from(now) >= d) {
            pump.battery_sent(now);
            pump.written(&mut c, battery::REGISTER, Ok(())).unwrap();
            request_count += 1;
        }
        if pump.battery_timeout().is_some_and(|d| u128::from(now) >= d) {
            pump.battery_timed_out(&mut c);
        }
        receive(&mut pump, &mut c, &motion(), now);
        pump.check(&mut c, now).unwrap();
        sent += 1;
    }
    let result = c.snapshot(now);
    assert_eq!(request_count, 1);
    assert!(sent >= 300);
    assert_eq!(result.status.pose_count, sent);
    assert_eq!(result.status.state, ConnectionState::Active);
    assert_eq!(result.status.reconnect_count, 0);
    assert!(result.status.last_error.is_none());
    assert!(result.status.battery.raw_register.is_none());
    assert!(!result.status.battery.fresh);
    assert!(result.status.battery.last_error.unwrap().message().contains("timed out"));
}

#[test]
fn late_battery_replies_and_failed_requests_are_failures() {
    let mut c = Controller::new();
    let mut pump = Pump::new(PoseInput::Euler, 0);
    pump.battery_sent(SECOND);
    receive(&mut pump, &mut c, &register(0x64, 400), 4 * SECOND);
    assert!(c.battery.raw_register.is_none() && c.battery.last_error.is_some());
    pump.battery_sent(40 * SECOND);
    pump.written(&mut c, battery::REGISTER, Err(Error::Timeout("w".into()))).unwrap();
    assert!(pump.battery_timeout().is_none());
    assert_eq!(
        c.battery.snapshot(0, true).last_error.unwrap().message(),
        "operation timed out: w"
    );
}

#[test]
fn reception_goes_stale_and_is_given_up() {
    let mut c = Controller::new();
    c.begin_session();
    let mut pump = Pump::new(PoseInput::Euler, 0);
    pump.check(&mut c, 499 * MS).unwrap();
    assert_eq!(c.status.state, ConnectionState::Connecting);
    pump.check(&mut c, 500 * MS).unwrap();
    assert_eq!(c.status.state, ConnectionState::Stale);
    receive(&mut pump, &mut c, &motion(), 600 * MS);
    assert_eq!(c.status.state, ConnectionState::Active);
    pump.check(&mut c, 1099 * MS).unwrap();
    assert_eq!(c.status.state, ConnectionState::Active);
    pump.check(&mut c, 1100 * MS).unwrap();
    assert_eq!(c.status.state, ConnectionState::Stale);
    pump.check(&mut c, 10 * SECOND + 600 * MS).unwrap();
    let silent = pump.check(&mut c, 10 * SECOND + 600 * MS + 1).unwrap_err();
    assert_eq!(silent.message(), "operation timed out: no device bytes for 10 seconds");
}

#[test]
fn reads_are_counted_by_their_gaps() {
    let mut c = Controller::new();
    let mut pump = Pump::new(PoseInput::Euler, 0);
    for now in [0, 999_999, 2 * MS, 12 * MS, 42 * MS, 142 * MS] {
        receive(&mut pump, &mut c, &[0; 3], now);
    }
    let d = c.status.delivery;
    assert_eq!(d.gap_histogram, [1, 1, 1, 1, 1]);
    assert_eq!((d.reads, d.max_bytes_per_read, d.max_gap_ns), (6, 3, 100 * MS));
    receive(&mut pump, &mut c, &[motion(), motion()].concat(), 142 * MS);
    assert_eq!(c.status.delivery.max_frames_per_read, 2);
    assert_eq!(c.status.bytes_received, 58);
    assert!(!pump.link_due(999 * MS) && pump.link_due(SECOND));
    pump.link_checked(&mut c, None, SECOND);
    assert!(!pump.link_due(SECOND));
}

#[test]
fn zero_quaternions_are_invalid_poses() {
    let mut c = Controller::new();
    c.begin_session();
    let mut pump = Pump::new(PoseInput::Quaternion, 0);
    assert!(receive(&mut pump, &mut c, &register(0x51, 0), MS).is_empty());
    assert_eq!(c.status.invalid_poses, 1);
    assert_eq!(c.status.pose_count, 0);
}

#[test]
fn the_rate_guard_ends_reception_at_the_frame() {
    let frame = |ms: u8| {
        let mut bytes = vec![0x55, 0xe4, 15, 1, 1, 0, 0, 0, ms, 0];
        bytes.extend([0; 12]);
        bytes.extend([0xff, 0x7f, 0, 0, 0, 0, 0, 0]);
        bytes
    };
    let mut c = Controller::new();
    let mut pump = Pump::new(PoseInput::StreamQuaternion, 0);
    let bytes = [frame(0), frame(5), frame(10), frame(15), frame(20), frame(25)].concat();
    let refused = pump.receive(&mut c, &bytes, MS).unwrap_err();
    assert!(matches!(refused, Error::Protocol(_)));
    assert_eq!(c.status.frames_received, 5);
}

#[test]
fn a_frame_keeps_its_own_rates() {
    let mut c = Controller::new();
    let mut pump = Pump::new(PoseInput::Euler, 0);
    let mut first = motion();
    first[2] = 7;
    let prepared = receive(&mut pump, &mut c, &first, MS);
    assert_eq!(prepared[0].acceleration, Some([7, 0, 0]));
    assert_eq!(prepared[0].profile, 0x61);
    // A frame with Euler angles only has no rates, and leaves no old ones.
    let short = [0x55, 0x01, 1, 0, 2, 0, 3, 0];
    let prepared = receive(&mut pump, &mut c, &short, 2 * MS);
    assert_eq!(prepared[0].acceleration, None);
    assert!(matches!(prepared[0].orientation, Orientation::Euler { xyz: [1, 2, 3] }));
    assert_eq!(prepared[0].raw.acceleration, None);
    assert_eq!(prepared[0].raw.motion_received_ns, Some(2 * MS));
}
