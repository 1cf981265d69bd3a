use posebridge::acquisition::{
    backoff_after_session, inspected_battery, AfterAttempt, Reconnection, Simulation, Tick,
};
use posebridge::controller::{next_backoff, ConvertedPose, Dispatch, Signals, TaskOutcome};
use posebridge::device::{Conclusion, Progress};
use posebridge::model::{
    Config, ConnectionState, DeviceCommand, Error, OperationOutcome, Pattern, Platform, RawData,
    ReferenceReason, SampleTime, SampleTimeKind, Source,
};
use posebridge::motion::{History, MotionCursor, MotionSample, OrientationSource};
use posebridge::number::Number;
use posebridge::pose::Mounting;
use posebridge::Controller;

const SECOND: u64 = 1_000_000_000;
const MS: u64 = 1_000_000;

fn number(v: f64) -> Number {
    Number { bits: v.to_bits() }
}

fn pose(time: Option<SampleTime>, signals: Option<Signals>) -> ConvertedPose {
    ConvertedPose {
        quaternion_xyzw: [0., 0., 0., 1.].map(number),
        euler_deg: [0.; 3].map(number),
        raw: RawData::default(),
        time,
        signals,
    }
}

fn signals(gyro: Option<[f64; 3]>) -> Option<Signals> {
    Some(Signals {
        orientation: [0., 0., 0., 1.].map(number),
        gyro: gyro.map(|v| v.map(number)),
        acceleration: None,
        source: OrientationSource::NativeQuaternion,
        profile: 0xa4,
    })
}

fn simulator(rate_hz: u32, sample_clock: bool) -> Config {
    Config {
        source: Source::Simulate {
            pattern: Pattern::Combined,
            euler_deg: [0.; 3].map(number),
            rate_hz,
            sample_clock,
        },
        ..Config::default()
    }
}

#[test]
fn battery_age_is_independent_and_new_sessions_clear_old_voltage() {
    let mut c = Controller::new();
    c.begin_session();
    let now = 100 * SECOND;
    let before = c.snapshot(now);
    c.battery.observe(387, now);
    let reading = c.snapshot(now + 2 * SECOND);
    assert!(reading.pose.is_none());
    assert_eq!(reading.status.pose_count, 0);
    assert_eq!(reading.descriptor.metadata_revision, before.descriptor.metadata_revision);
    assert_eq!(reading.descriptor.reference_epoch, before.descriptor.reference_epoch);
    assert!(reading.status.battery.fresh);
    let battery = &reading.status.battery;
    assert_eq!(battery.raw_register.map(|v| f64::from(v) / 100.), Some(3.87));
    assert_eq!(battery.estimated_percent, Some(75));
    assert_eq!(battery.age_ns, Some(2000000000));
    for state in [ConnectionState::Reconnecting, ConnectionState::Stopped, ConnectionState::Failed] {
        c.status.state = state;
        let stopped = c.snapshot(now + 3 * SECOND);
        assert!(!stopped.status.battery.fresh);
        assert_eq!(stopped.status.battery.age_ns, Some(3_000_000_000));
    }
    c.begin_session();
    let reconnected = c.snapshot(now + 4 * SECOND);
    assert!(reconnected.status.battery.raw_register.is_none());
    assert!(reconnected.status.battery.age_ns.is_none());
    assert!(!reconnected.status.battery.fresh);
}

#[test]
fn query_age_freshness_and_stopped_pose_share_one_host_clock() {
    let mut c = Controller::new();
    c.begin_session();
    let start = 7 * SECOND;
    let received = start + 10 * MS;
    let sample = Some(SampleTime {
        kind: SampleTimeKind::DeviceCalendar,
        time_ms: 473398726930,
        clock_epoch: 1,
    });
    c.publish(&pose(sample, None), start, received);
    let original = c.snapshot(received).pose.unwrap();
    for age in [0, 1, 499_999_999, 500_000_000, 750_000_000] {
        let value = c.snapshot(received + age);
        let pose = value.pose.as_ref().unwrap();
        assert_eq!(pose.age_ns, age);
        assert_eq!(pose.fresh, age < 500_000_000);
        assert_eq!(
            value.status.state,
            if pose.fresh { ConnectionState::Active } else { ConnectionState::Stale }
        );
        assert_eq!(pose.sequence, original.sequence);
        assert_eq!(pose.received_ns, original.received_ns);
        assert_eq!(pose.metadata_revision, original.metadata_revision);
        assert_eq!(pose.sample_time, sample);
        assert_eq!(value.schema, 4);
    }
    c.status.state = ConnectionState::Stopped;
    for age in [1_000_000_000, 2_000_000_000] {
        let value = c.snapshot(received + age);
        let pose = value.pose.unwrap();
        assert!(!pose.fresh);
        assert_eq!(pose.age_ns, age);
        assert_eq!(pose.sequence, original.sequence);
        assert_eq!(value.status.state, ConnectionState::Stopped);
    }
}

#[test]
fn new_sessions_clear_age_and_device_calendar_does_not_define_it() {
    let mut c = Controller::new();
    let start = 50 * SECOND;
    assert!(c.snapshot(start).pose.is_none());
    c.begin_session();
    for (index, time_ms) in [473398726930, 0].into_iter().enumerate() {
        let received = start + index as u64 * SECOND;
        let time = SampleTime {
            kind: SampleTimeKind::DeviceCalendar,
            time_ms,
            clock_epoch: index as u64 + 1,
        };
        c.publish(&pose(Some(time), None), start, received);
        let value = c.snapshot(received + 20 * MS).pose.unwrap();
        assert_eq!(value.age_ns, 20_000_000);
        assert!(value.fresh);
    }
    let old_session = c.status.session_id;
    c.begin_session();
    let value = c.snapshot(start + 3 * SECOND);
    assert!(value.pose.is_none());
    assert_ne!(value.descriptor.session_id, old_session);
    let received = start + 4 * SECOND;
    c.publish(&pose(None, None), received, received);
    let value = c.snapshot(received).pose.unwrap();
    assert_eq!(value.age_ns, 0);
    assert_eq!(value.sequence, 1);
    assert!(value.fresh);
}

#[test]
fn batch_is_atomic_and_coherent_fields_do_not_use_legacy_cache() {
    let mut c = Controller::new();
    c.begin_session();
    let now = 3 * SECOND;
    let input = |gyro| {
        let mut p = pose(None, signals(gyro));
        p.raw.angular_velocity = Some([999; 3]);
        Some(p)
    };
    c.publish_batch(&vec![input(Some([1., 2., 3.])), input(None)], now, now);
    let b = c.motion.since(None, now, true);
    assert_eq!(b.samples.len(), 2);
    assert_eq!(b.samples[0].delivery_id, b.samples[1].delivery_id);
    assert_eq!(
        b.samples[0].angular_velocity_rad_s.map(|v| v.map(|n| f64::from_bits(n.bits))),
        Some([1., 2., 3.])
    );
    assert!(b.samples[1].angular_velocity_rad_s.is_none());
    assert_eq!(c.pose.as_ref().unwrap().sequence, b.cursor.unwrap().sequence);
    assert_eq!(c.pose.as_ref().unwrap().raw.angular_velocity, Some([999; 3]));
    c.publish_batch(&vec![None, input(None)], now, now + 1);
    assert_eq!(c.status.invalid_poses, 1);
    let again = c.motion.since(b.cursor, now + 1, true);
    assert_eq!(again.samples.len(), 1);
    assert_ne!(again.samples[0].delivery_id, b.samples[0].delivery_id);
}

fn sample(sequence: u64) -> MotionSample {
    MotionSample {
        source_id: "test".into(),
        cursor: MotionCursor { instance_id: 1, session_id: 1, sequence },
        reference_epoch: 1,
        metadata_revision: 1,
        delivery_id: 1,
        received_ns: 0,
        age_ns: 0,
        fresh: true,
        sample_time: None,
        orientation_xyzw: [0., 0., 0., 1.].map(number),
        euler_deg: [0.; 3].map(number),
        angular_velocity_rad_s: None,
        acceleration_g: None,
        orientation_source: OrientationSource::ConvertedEuler,
        profile: 0x61,
    }
}

#[test]
fn bounded_history_reports_loss_and_does_not_reanimate_stopped_data() {
    let mut h = History::default();
    let at = 9 * SECOND;
    for i in 1..=300 {
        h.push(at, sample(i));
    }
    let batch = h.since(Some(sample(1).cursor), at + 100 * MS, true);
    assert_eq!(batch.samples.len(), 256);
    assert_eq!(batch.history_overrun, 43);
    assert!(batch.samples.iter().all(|s| s.age_ns == 100_000_000 && s.fresh));
    assert!(h.since(batch.cursor, at, true).samples.is_empty());
    assert!(h.since(None, at + 500 * MS, true).samples.iter().all(|p| !p.fresh));
    assert!(h.since(None, at, false).samples.iter().all(|p| !p.fresh));
    let mut c = sample(1).cursor;
    c.session_id = 2;
    assert!(h.since(Some(c), at, true).reset);
}

#[test]
fn controller_snapshot_stale_recovery_and_lifecycle() {
    let platform = Platform::Other;
    let mut c = Controller::new();
    assert!(c.latest_pose(0).is_none());
    c.set_config(simulator(1, false), platform).unwrap();
    c.start(platform).unwrap();
    c.begin_session();
    let start = SECOND;
    c.publish(&pose(None, None), start, start);
    let first = c.latest_pose(start).unwrap();
    assert!(first.fresh);
    assert_eq!(c.latest_pose(start).unwrap().sequence, first.sequence);
    assert!(matches!(c.start(platform), Err(Error::Busy)));
    let later = start + 600 * MS;
    assert_eq!(c.status(later).state, ConnectionState::Stale);
    assert!(!c.latest_pose(later).unwrap().fresh);
    c.publish(&pose(None, None), start, start + SECOND);
    assert!(c.latest_pose(start + SECOND).unwrap().fresh);
    assert_eq!(c.status.interval_min_ns, SECOND);
    assert_eq!(c.status.session_span_ns, SECOND);
    c.stop(false, start + SECOND).unwrap();
    c.stop(false, start + SECOND).unwrap();
    assert!(!c.latest_pose(start + SECOND).unwrap().fresh);
    c.start(platform).unwrap();
    c.begin_session();
    c.publish(&pose(None, None), start, start + 2 * SECOND);
    let second = c.latest_pose(start + 2 * SECOND).unwrap();
    assert_ne!(first.session_id, second.session_id);
    c.stop(false, 0).unwrap();
}

#[test]
fn source_identity_snapshot_and_restart() {
    let platform = Platform::Other;
    let mut c = Controller::new();
    c.set_config(Config { source_id: Some("耳机".into()), ..Config::default() }, platform).unwrap();
    c.start(platform).unwrap();
    c.begin_session();
    c.publish(&pose(None, None), 0, SECOND);
    let s = c.snapshot(SECOND);
    let p = s.pose.as_ref().unwrap();
    assert_eq!(p.instance_id, s.descriptor.instance_id);
    assert_eq!(p.session_id, s.descriptor.session_id);
    assert_eq!(p.reference_epoch, s.descriptor.reference_epoch);
    assert_eq!(p.metadata_revision, s.descriptor.metadata_revision);
    assert_eq!(s.descriptor.device_model, None);
    assert!(!s.descriptor.device.valid);
    assert!(matches!(c.inspect_start(platform), Err(Error::Busy)));
    assert!(matches!(
        c.configure_device(DeviceCommand::ResetDefaults, platform, true),
        Err(Error::Busy)
    ));
    let instance = p.instance_id;
    c.stop(false, SECOND).unwrap();
    c.start(platform).unwrap();
    assert_ne!(c.snapshot(SECOND).descriptor.instance_id, instance);
    c.stop(false, SECOND).unwrap();
}

#[test]
fn cursor_polling_preserves_samples_and_restarts_reset_identity() {
    let platform = Platform::Other;
    let mut c = Controller::new();
    c.set_config(simulator(100, true), platform).unwrap();
    c.start(platform).unwrap();
    c.begin_session();
    let start = SECOND;
    let mut source = Simulation::new(true, start);
    let mut polled = Vec::new();
    let mut cursor = None;
    for step in 0..12u64 {
        let now = start + step * 10 * MS;
        let Tick::Sample { time, .. } = source.tick(&mut c, now) else { panic!("sample") };
        c.publish_batch(&vec![Some(pose(time, signals(Some([1.; 3]))))], start, now);
        if step % 5 == 4 {
            let b = c.motion_since(cursor, now);
            assert!(b.active && !b.reset && b.history_overrun == 0);
            polled.extend(b.samples.iter().map(|s| s.cursor.sequence));
            cursor = b.cursor;
        }
    }
    let now = start + 120 * MS;
    polled.extend(c.motion_since(cursor, now).samples.iter().map(|s| s.cursor.sequence));
    assert_eq!(polled, (1..=12).collect::<Vec<u64>>());
    let b = c.motion_since(None, now);
    assert!(b
        .samples
        .iter()
        .all(|p| p.angular_velocity_rad_s.is_some() && p.sample_time.is_some()));
    let cursor = b.cursor;
    c.stop(false, now).unwrap();
    assert!(c.motion_since(None, now).samples.iter().all(|p| !p.fresh));
    c.start(platform).unwrap();
    c.begin_session();
    c.publish_batch(&vec![Some(pose(None, signals(None)))], now, now);
    assert!(c.motion_since(cursor, now).reset);
    c.stop(false, now).unwrap();
}

#[test]
fn simulated_times_are_not_made_up() {
    let mut c = Controller::new();
    let mut s = Simulation::new(true, 0);
    assert!(matches!(s.tick(&mut c, 1_400_000), Tick::Sample { elapsed_ns: 1_400_000, time: Some(t) }
        if t.time_ms == 1 && t.clock_epoch == 1));
    assert_eq!(s.tick(&mut c, 1_900_000), Tick::Duplicate);
    assert_eq!(c.status.duplicate_sample_times, 1);
    assert!(matches!(s.tick(&mut c, 2_000_000), Tick::Sample { time: Some(t), .. }
        if t.time_ms == 2));
    let mut plain = Simulation::new(false, 5);
    assert_eq!(plain.tick(&mut c, 8), Tick::Sample { elapsed_ns: 3, time: None });
}

fn usb() -> Config {
    Config {
        source: Source::Usb { port: "p".into(), baud: 115200 },
        mounting: Some(Mounting { right: 1, forward: 2, up: 3 }),
        ..Config::default()
    }
}

#[test]
fn tasks_end_with_a_state_and_an_outcome() {
    let platform = Platform::Other;
    let mut c = Controller::new();
    assert!(matches!(c.inspect_start(platform), Err(Error::Invalid(_))));
    assert!(matches!(c.magnetic_start(platform), Err(Error::Invalid(_))));
    assert!(matches!(c.scan_start(0), Err(Error::Invalid(_))));
    assert!(matches!(c.scan_start(61), Err(Error::Invalid(_))));
    c.set_config(usb(), platform).unwrap();
    assert_eq!(
        c.configure_device(DeviceCommand::Save, platform, true).unwrap(),
        Dispatch::Launch
    );
    assert_eq!(c.status(0).state, ConnectionState::Configuring);
    c.task_finished(TaskOutcome::Failed { error: Error::Timeout("x".into()) }, 1);
    assert_eq!(c.status(0).state, ConnectionState::Failed);
    assert_eq!(c.status(0).last_error.as_deref(), Some("operation timed out: x"));
    let op = c.operation.clone().unwrap();
    assert_eq!(op.outcome, OperationOutcome::Failed);
    assert_eq!(op.action, "save");
    assert_eq!(op.source_id.as_deref(), Some("usb:p"));
    c.inspect_start(platform).unwrap();
    c.task_finished(TaskOutcome::Failed { error: Error::Cancelled }, 1);
    assert_eq!(c.operation.as_ref().unwrap().outcome, OperationOutcome::Cancelled);
    assert_eq!(c.status(0).state, ConnectionState::Stopped);
    c.scan_start(5).unwrap();
    c.task_finished(TaskOutcome::Completed, 1);
    assert_eq!(c.status(0).state, ConnectionState::Complete);
    c.magnetic_start(platform).unwrap();
    c.task_finished(TaskOutcome::Panicked, 1);
    assert_eq!(c.status(0).last_error.as_deref(), Some("internal worker panic"));
    // The session's own error is told once, then the slot is free.
    let told = c.start(platform).unwrap_err();
    assert_eq!(
        told.message(),
        "I/O error: internal worker panic; device calibration state unknown"
    );
    c.start(platform).unwrap();
    let late = c.stop(true, 2).unwrap_err();
    assert_eq!(late.message(), "operation timed out: stop; worker aborted");
    assert_eq!(c.status(0).state, ConnectionState::Failed);
}

#[test]
fn a_reference_moves_once_per_operation() {
    let platform = Platform::Other;
    let mut c = Controller::new();
    c.set_config(usb(), platform).unwrap();
    c.configure_device(DeviceCommand::AngleReference, platform, true).unwrap();
    let epoch = c.descriptor.reference_epoch;
    let write = Progress::WriteAttempt { reference: true, persistent: false };
    c.progress(write);
    c.progress(Progress::CommandSent);
    c.progress(Progress::WriteAttempt { reference: true, persistent: true });
    c.control_failed();
    assert_eq!(c.descriptor.reference_epoch, epoch + 1);
    assert_eq!(c.descriptor.reference_reason, ReferenceReason::DeviceControlUncertain);
    let op = c.operation.as_ref().unwrap();
    assert!(op.write_attempted && op.command_sent && op.reference_may_have_changed);
    assert_eq!(op.persistence, "unverified");
    c.control_finished(Conclusion::ReferenceSaved, None);
    assert_eq!(c.operation.as_ref().unwrap().outcome, OperationOutcome::Unverified);
    assert!(c.status.configuration_report.is_some());
}

#[test]
fn lost_connections_are_retried_unless_it_is_no_use() {
    let mut c = Controller::new();
    c.connection_lost(Error::Timeout("t".into())).unwrap();
    c.connection_lost(Error::Unavailable("u".into())).unwrap();
    assert_eq!(c.status.reconnect_count, 2);
    assert_eq!(c.status.state, ConnectionState::Reconnecting);
    for error in [
        Error::Cancelled,
        Error::Permission("p".into()),
        Error::Protocol("p".into()),
        Error::Invalid("i".into()),
    ] {
        assert!(c.connection_lost(error).is_err());
    }
    assert_eq!(c.status.reconnect_count, 2);
    let waits: Vec<u64> = std::iter::successors(Some(1), |s| Some(next_backoff(*s))).take(6).collect();
    assert_eq!(waits, [1, 2, 4, 8, 8, 8]);
    assert_eq!(backoff_after_session(8, 1), 1);
    assert_eq!(backoff_after_session(4, 0), 4);
    c.connecting();
    assert_eq!(c.status.state, ConnectionState::Connecting);
    let revision = c.descriptor.metadata_revision;
    c.device_named(Some("WT901".into()));
    c.device_named(Some("WT901".into()));
    assert_eq!(c.descriptor.metadata_revision, revision + 1);
}

#[test]
fn reconnections_have_a_reference_of_their_own() {
    let mut c = Controller::new();
    c.start(Platform::Other).unwrap();
    c.begin_session();
    let d = c.descriptor.clone();
    assert_eq!((d.reference_epoch, d.reference_reason), (1, ReferenceReason::NewContext));
    c.begin_session();
    assert_eq!(c.descriptor.reference_epoch, 2);
    assert_eq!(c.descriptor.reference_reason, ReferenceReason::Reconnected);
    assert_eq!(c.descriptor.instance_id, d.instance_id);
    assert_ne!(c.descriptor.session_id, d.session_id);
}

#[test]
fn sending_is_counted() {
    let mut c = Controller::new();
    c.note_output(true, 4, 1);
    c.note_output(false, 5, 0);
    assert_eq!((c.status.osc_sent, c.status.coalesced_samples, c.status.send_errors), (1, 5, 1));
    c.note_telemetry(Ok(2), 0);
    c.note_telemetry(Err(Error::Io("e".into())), 0);
    c.note_telemetry(Err(Error::Io("f".into())), 3);
    assert_eq!((c.status.telemetry_sent, c.status.send_errors), (2, 5));
    assert_eq!(c.status.last_error.as_deref(), Some("I/O error: f"));
    assert!(c.has_room());
}

#[test]
fn inspections_survive_a_silent_battery() {
    let good = inspected_battery(Ok([400, 0, 0, 0, 0, 0, 0, 0]), 3).unwrap();
    assert_eq!(good.snapshot(3, true).estimated_percent, Some(100));
    let silent = inspected_battery(Err(Error::Timeout("t".into())), 3).unwrap();
    assert_eq!(
        silent.snapshot(3, true).last_error.unwrap().message(),
        "operation timed out: t"
    );
    assert!(inspected_battery(Err(Error::Cancelled), 3).is_err());
}

#[test]
fn attempts_are_repeated_after_longer_and_longer_waits() {
    let mut c = Controller::new();
    c.start(Platform::Other).unwrap();
    let mut attempts = Reconnection::new();
    let mut waits = Vec::new();
    // Whether a connection was open, and how many samples it gave.
    for (opened, samples) in [
        (false, 0),
        (false, 0),
        (true, 0),
        (true, 0),
        (false, 0),
        (true, 3),
        (false, 0),
        (true, 0),
        (true, 1),
        (true, 2),
    ] {
        c.connecting();
        if opened {
            let epoch = c.descriptor.reference_epoch;
            let session = c.descriptor.session_id;
            c.begin_session();
            assert_eq!(c.descriptor.reference_epoch, epoch + u64::from(session != 0));
            assert_ne!(c.descriptor.session_id, session);
            for _ in 0..samples {
                c.publish(&pose(None, None), 0, SECOND);
            }
        }
        match attempts.attempt_ended(&mut c, opened, Err(Error::Unavailable("gone".into()))) {
            AfterAttempt::Retry { seconds } => waits.push(seconds),
            _ => panic!("not retried"),
        }
        assert_eq!(c.status.state, ConnectionState::Reconnecting);
        assert_eq!(c.status.reconnect_count, waits.len() as u64);
        assert_eq!(
            c.status.last_error.as_deref(),
            Some("device or adapter unavailable: gone")
        );
    }
    assert_eq!(waits, [1, 2, 4, 8, 8, 1, 2, 4, 1, 1]);
    for error in [
        Error::Cancelled,
        Error::Permission("p".into()),
        Error::Protocol("p".into()),
        Error::Invalid("i".into()),
    ] {
        let text = error.message();
        match attempts.attempt_ended(&mut c, true, Err(error)) {
            AfterAttempt::Failed { error } => assert_eq!(error.message(), text),
            _ => panic!("retried"),
        }
    }
    assert_eq!(c.status.reconnect_count, 10);
    assert!(matches!(attempts.attempt_ended(&mut c, true, Ok(())), AfterAttempt::Done));
}

#[test]
fn a_stopped_run_keeps_its_pose_and_lets_the_next_one_start() {
    let platform = Platform::Other;
    let mut c = Controller::new();
    c.start(platform).unwrap();
    c.begin_session();
    c.publish(&pose(None, None), 0, SECOND);
    let last = c.latest_pose(SECOND).unwrap();
    assert!(last.fresh);
    assert!(matches!(c.start(platform), Err(Error::Busy)));
    c.task_finished(TaskOutcome::Failed { error: Error::Cancelled }, SECOND);
    c.stop(false, SECOND).unwrap();
    let shown = format!("{c:?}");
    c.stop(false, 2 * SECOND).unwrap();
    assert_eq!(format!("{c:?}"), shown);
    assert_eq!(c.status(SECOND).state, ConnectionState::Stopped);
    let kept = c.latest_pose(SECOND + 1).unwrap();
    assert!(!kept.fresh && kept.age_ns == 1);
    assert_eq!((kept.session_id, kept.sequence), (last.session_id, last.sequence));
    c.start(platform).unwrap();
    assert!(c.latest_pose(SECOND).is_none());
    c.begin_session();
    c.publish(&pose(None, None), 0, 2 * SECOND);
    let next = c.latest_pose(2 * SECOND).unwrap();
    assert_ne!(next.instance_id, last.instance_id);
    assert_ne!(next.session_id, last.session_id);
}
