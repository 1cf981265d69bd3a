use posebridge::cli::{
    exit_status, stream_over, stream_result, stream_step, wait_step, Calibration, CalibrationStage,
    CalibrationStep, InputArgs, SessionView, WaitStep, Watch, WatchStep,
};
use posebridge::controller::action_name;
use posebridge::model::{
    default_rate, id_from_random, new_id, validate_rate, validate_source_id, BleConnectionMode,
    Config, ConnectionState, DeviceCommand, Endpoint, Error, OperationOutcome, OperationStatus,
    OscConfig, OscFormat, Pattern, Platform, PoseInput, ReferenceReason, Source, SourceDescriptor,
    SourceKind, TransportKind, SOFTWARE_CAPABILITIES,
};
use posebridge::number::Number;
use posebridge::pose::Mounting;
use posebridge::Controller;

fn number(v: f64) -> Number {
    Number { bits: v.to_bits() }
}

fn usb(port: &str) -> Source {
    Source::Usb { port: port.into(), baud: 115200 }
}

fn simulate(euler: [f64; 3], rate_hz: u32) -> Source {
    Source::Simulate {
        pattern: Pattern::Fixed,
        euler_deg: euler.map(number),
        rate_hz,
        sample_clock: false,
    }
}

fn osc(octets: [u8; 4], port: u16) -> Option<OscConfig> {
    Some(OscConfig {
        target: Endpoint::V4 { octets, port },
        max_rate_hz: 100,
        format: OscFormat::Quaternion,
    })
}

#[test]
fn configuration_validation_preserves_previous_config() {
    let mut c = Controller::new();
    let config = Config { osc: osc([192, 0, 2, 1], 9000), ..Config::default() };
    assert!(c.set_config(config, Platform::Other).is_err());
    assert!(c.config().osc.is_none());
    // A device may be inspected without a mounting; acquiring from it needs one.
    c.set_config(Config { source: usb("fake"), ..Config::default() }, Platform::Other).unwrap();
    assert!(c.start(Platform::Other).is_err());
}

#[test]
fn configuration_identity_and_legacy_version_rejection() {
    for id in ["", "\n", &"a".repeat(257)] {
        assert!(Config { source_id: Some(id.into()), ..Config::default() }
            .validate(Platform::Other)
            .is_err());
    }
    let config = Config { source: usb("COM4"), ..Config::default() };
    assert_eq!(config.logical_source_id(), "usb:COM4");
    assert!(config.validate(Platform::Other).is_ok());
    assert!(config.validate_acquisition(Platform::Other).is_err());
}

#[test]
fn source_identifiers_are_bounded_in_bytes() {
    assert!(validate_source_id(&"a".repeat(256)).is_ok());
    assert!(validate_source_id(&"é".repeat(128)).is_ok());
    assert!(validate_source_id(&"é".repeat(129)).is_err());
    assert!(validate_source_id("耳机").is_ok());
    for bad in [" \u{3000}", "a\u{7f}", "a\u{85}b", "\t"] {
        assert!(validate_source_id(bad).is_err());
    }
    assert!(validate_source_id(" a ").is_ok());
}

#[test]
fn rates_from_1_to_200_are_accepted() {
    assert_eq!(default_rate(), 100);
    assert!(validate_rate(0).is_err() && validate_rate(201).is_err());
    assert!(validate_rate(1).is_ok() && validate_rate(200).is_ok());
    assert_eq!(
        validate_rate(0).unwrap_err().message(),
        "invalid argument: rate must be between 1 and 200 Hz"
    );
}

#[test]
fn the_first_broken_rule_is_reported() {
    let text = |c: Config| c.validate(Platform::Other).unwrap_err().message();
    let with = |source| Config { source, ..Config::default() };
    assert_eq!(
        text(with(Source::Ble {
            device_id: " ".into(),
            connection_mode: BleConnectionMode::Throughput
        })),
        "invalid argument: BLE device_id is empty"
    );
    let fast = with(Source::Ble {
        device_id: "x".into(),
        connection_mode: BleConnectionMode::Throughput,
    });
    assert!(fast.validate(Platform::Windows).is_ok());
    assert_eq!(
        text(fast),
        "invalid argument: BLE throughput preference requires Windows 11 or later"
    );
    assert_eq!(
        text(with(Source::Usb { port: "p".into(), baud: 0 })),
        "invalid argument: USB port or baud is invalid"
    );
    assert_eq!(
        text(with(simulate([0.; 3], 201))),
        "invalid argument: rate must be between 1 and 200 Hz"
    );
    for bad in [f64::NAN, f64::INFINITY, -1_000_000.1, 1e300] {
        assert_eq!(
            text(with(simulate([0., bad, 0.], 100))),
            "invalid argument: Euler angles must be finite and within 1e6 degrees"
        );
    }
    for good in [1e6, -1e6, -0.0, 1e-310] {
        assert!(with(simulate([good; 3], 100)).validate(Platform::Other).is_ok());
    }
    let mounting = Some(Mounting { right: 1, forward: 1, up: 3 });
    assert_eq!(
        text(Config { mounting, ..Config::default() }),
        "invalid argument: mount must use each sensor axis once"
    );
    for target in [osc([127, 0, 0, 1], 0), osc([128, 0, 0, 1], 1)] {
        assert_eq!(
            text(Config { osc: target, ..Config::default() }),
            "invalid argument: OSC target must be a nonzero loopback port"
        );
    }
    let mut v6 = [0u8; 16];
    v6[15] = 1;
    let local = OscConfig {
        target: Endpoint::V6 { address: v6, scope_id: 0, port: 9000 },
        max_rate_hz: 200,
        format: OscFormat::Euler,
    };
    assert!(Config { osc: Some(local), ..Config::default() }.validate(Platform::Other).is_ok());
    v6[0] = 1;
    let remote = OscConfig {
        target: Endpoint::V6 { address: v6, scope_id: 0, port: 9000 },
        ..local
    };
    assert!(Config { osc: Some(remote), ..Config::default() }.validate(Platform::Other).is_err());
}

#[test]
fn changes_of_configuration_move_revisions() {
    let mut c = Controller::new();
    let mount = |text: &str| Some(Mounting::parse(text).unwrap());
    let base = || Config { source: usb("a"), mounting: mount("x,y,z"), ..Config::default() };
    c.set_config(base(), Platform::Other).unwrap();
    let d = c.descriptor.clone();
    assert_eq!((d.metadata_revision, d.reference_epoch), (2, 2));
    assert_eq!(d.reference_reason, ReferenceReason::ApplicationConfigurationChanged);
    assert_eq!(d.platform_id.as_deref(), Some("a"));
    assert_eq!(d.transport, SourceKind::Usb);
    // The same configuration changes nothing.
    c.set_config(base(), Platform::Other).unwrap();
    assert_eq!(c.descriptor.metadata_revision, 2);
    // Output has no bearing on the reference.
    c.set_config(Config { osc: osc([127, 0, 0, 1], 9000), ..base() }, Platform::Other).unwrap();
    assert_eq!((c.descriptor.metadata_revision, c.descriptor.reference_epoch), (3, 2));
    c.set_config(Config { mounting: mount("-y,x,z"), ..base() }, Platform::Other).unwrap();
    assert_eq!((c.descriptor.metadata_revision, c.descriptor.reference_epoch), (4, 3));
    // The two zeros are one number.
    c.set_config(Config { source: simulate([0.; 3], 50), ..Config::default() }, Platform::Other)
        .unwrap();
    let revision = c.descriptor.metadata_revision;
    c.set_config(Config { source: simulate([-0.0; 3], 50), ..Config::default() }, Platform::Other)
        .unwrap();
    assert_eq!(c.descriptor.metadata_revision, revision);
}

#[test]
fn mountings_are_read_and_checked() {
    assert_eq!(
        Mounting::parse("-y,+x,+z").unwrap(),
        Mounting { right: -2, forward: 1, up: 3 }
    );
    assert_eq!(
        Mounting::parse(" Z , -Y,\u{3000}x").unwrap(),
        Mounting { right: 3, forward: -2, up: 1 }
    );
    assert!(Mounting::parse("+x,+x,+z").is_err());
    assert!(Mounting::parse("+x,+z,+y").is_err());
    assert!(Mounting::parse("--x,-y,+z").is_err());
    assert!(Mounting { right: i8::MIN, forward: 1, up: 2 }.validate().is_err());
    let text = |t: &str| Mounting::parse(t).unwrap_err().message();
    assert_eq!(
        text("x,y"),
        "invalid argument: mount expects three signed axes, e.g. -y,+x,+z"
    );
    assert_eq!(
        text("x,y,z,"),
        "invalid argument: mount expects three signed axes, e.g. -y,+x,+z"
    );
    assert_eq!(text("x, ++y ,z"), "invalid argument: invalid axis ++y");
    assert_eq!(text("x,y,é"), "invalid argument: invalid axis é");
    assert_eq!(text("x,z,y"), "invalid argument: mount must be a right-handed basis");
    let mut valid = 0;
    for right in -4i8..=4 {
        for forward in -4i8..=4 {
            for up in -4i8..=4 {
                valid += u32::from(Mounting { right, forward, up }.validate().is_ok());
            }
        }
    }
    assert_eq!(valid, 24);
}

#[test]
fn mountings_turn_vectors() {
    let m = Mounting::parse("-y,+x,+z").unwrap();
    let value = |v: [Number; 3]| v.map(|n| f64::from_bits(n.bits));
    assert_eq!(value(m.vector([1., 2., 3.].map(number)).unwrap()), [-2., 1., 3.]);
    assert!(m.vector([f64::NAN, 0., 0.].map(number)).is_err());
    assert_eq!(m.matrix(), [[0, -1, 0], [1, 0, 0], [0, 0, 1]]);
    assert!(Mounting { right: 1, forward: 3, up: 2 }.vector([0.; 3].map(number)).is_err());
    // A right-handed pair of axes stays one.
    let x = value(m.vector([1., 0., 0.].map(number)).unwrap());
    let y = value(m.vector([0., 1., 0.].map(number)).unwrap());
    let z = value(m.vector([0., 0., 1.].map(number)).unwrap());
    let cross = [
        x[1] * y[2] - x[2] * y[1],
        x[2] * y[0] - x[0] * y[2],
        x[0] * y[1] - x[1] * y[0],
    ];
    assert_eq!(cross, z);
}

#[test]
fn identifiers_are_positive_and_differ() {
    assert_eq!(id_from_random(0), 1);
    assert_eq!(id_from_random(1 << 63), 1);
    assert_eq!(id_from_random(u128::MAX), i64::MAX as u64);
    assert_eq!(id_from_random((7 << 64) + 5), 5);
    let ids: Vec<u64> = (0..100).map(|_| new_id()).collect();
    for (i, id) in ids.iter().enumerate() {
        // The variant bits of a version 4 UUID leave 62 bits.
        assert!(*id >= 1 && *id < 1 << 62);
        assert!(!ids[..i].contains(id));
    }
}

#[test]
fn operations_begin_with_nothing_done() {
    let op = OperationStatus::new("save".to_string());
    assert_eq!(op.action, "save");
    assert_eq!(op.outcome, OperationOutcome::Running);
    assert_eq!(op.persistence, "not_requested");
    assert!(op.source_id.is_none() && op.message.is_none() && op.id > 0);
    assert!(!op.write_attempted && !op.command_sent && !op.register_verified);
    assert_eq!(action_name(&DeviceCommand::AngleReference), "angle_reference");
    assert_eq!(action_name(&DeviceCommand::Rate { hz: 1 }), "rate");
}

#[test]
fn descriptors_start_from_the_configuration() {
    let d = SourceDescriptor::new(&Config {
        source: Source::Ble {
            device_id: "AA".into(),
            connection_mode: BleConnectionMode::Default,
        },
        ..Config::default()
    });
    assert_eq!(d.source_id, "ble:AA");
    assert_eq!(d.platform_id.as_deref(), Some("AA"));
    assert_eq!((d.metadata_revision, d.reference_epoch), (1, 1));
    assert_eq!(d.reference_reason.as_str(), "new_context");
    assert!(!d.device.valid && d.device_model.is_none() && d.calibration_quality.is_none());
    assert_eq!(SOFTWARE_CAPABILITIES.len(), 12);
}

fn args(transport: TransportKind) -> InputArgs {
    InputArgs {
        source_id: None,
        transport,
        device: None,
        port: None,
        baud: 115200,
        mount: None,
        pose_input: PoseInput::StreamQuaternion,
        ble_mode: BleConnectionMode::Default,
    }
}

#[test]
fn command_line_options_give_a_configuration() {
    let text = |a: InputArgs| a.config(false).unwrap_err().message();
    let config =
        InputArgs { port: Some("COM3".into()), ..args(TransportKind::Usb) }.config(false).unwrap();
    assert_eq!(config.mounting, Some(Mounting { right: 1, forward: 2, up: 3 }));
    assert_eq!(config.pose_input, PoseInput::StreamQuaternion);
    assert!(matches!(config.source, Source::Usb { baud: 115200, .. }));
    assert_eq!(
        args(TransportKind::Usb).config(true).unwrap_err().message(),
        "invalid argument: bridge requires --mount (right,forward,up sensor axes); verify the mounting first"
    );
    assert_eq!(
        text(args(TransportKind::Usb)),
        "invalid argument: USB requires --port from scan"
    );
    assert_eq!(
        text(args(TransportKind::Ble)),
        "invalid argument: BLE requires --device from scan"
    );
    assert_eq!(
        text(InputArgs { port: Some("p".into()), ..args(TransportKind::Ble) }),
        "invalid argument: --port is only valid for USB"
    );
    assert_eq!(
        text(InputArgs { device: Some("d".into()), ..args(TransportKind::Usb) }),
        "invalid argument: --device is only valid for BLE"
    );
    assert_eq!(
        text(InputArgs {
            ble_mode: BleConnectionMode::Throughput,
            ..args(TransportKind::Usb)
        }),
        "invalid argument: --ble-mode is only valid for BLE"
    );
    assert_eq!(
        text(InputArgs { mount: Some("q".into()), ..args(TransportKind::Usb) }),
        "invalid argument: mount expects three signed axes, e.g. -y,+x,+z"
    );
}

#[test]
fn runs_end_with_a_result() {
    assert!(matches!(wait_step(true, ConnectionState::Complete, None), WaitStep::Stop));
    assert!(matches!(wait_step(false, ConnectionState::Complete, None), WaitStep::Finished));
    assert!(matches!(wait_step(false, ConnectionState::Inspecting, None), WaitStep::Wait));
    match wait_step(false, ConnectionState::Failed, None) {
        WaitStep::Failed(e) => assert_eq!(e.message(), "I/O error: operation failed"),
        _ => panic!("failed"),
    }
    let lost = stream_step(ConnectionState::Failed, Some("gone".into())).unwrap_err();
    assert_eq!(lost.message(), "I/O error: gone");
    assert!(stream_step(ConnectionState::Stale, Some("late".into())).is_ok());
    assert!(stream_result(1).is_ok());
    assert_eq!(
        stream_result(0).unwrap_err().message(),
        "device or adapter unavailable: no valid poses received during this run"
    );
    assert_eq!(exit_status(&Error::Cancelled), 130);
    assert_eq!(exit_status(&Error::Busy), 1);
}

#[test]
fn interrupted_wait_stops_worker_before_returning_snapshot() {
    let mut controller = Controller::new();
    controller.start(Platform::Other).unwrap();
    let status = controller.status(0);
    assert!(matches!(wait_step(true, status.state, status.last_error), WaitStep::Stop));
    controller.stop(false, 1).unwrap();
    let snapshot = controller.snapshot(2);
    assert_eq!(snapshot.status.state, ConnectionState::Stopped);
    assert!(snapshot.pose.is_none_or(|pose| !pose.fresh));
    // A returned cancellation must also have released the operation slot.
    controller.start(Platform::Other).unwrap();
    controller.stop(false, 3).unwrap();
}

fn view(outcome: Option<OperationOutcome>, seen: bool) -> SessionView {
    SessionView {
        active: true,
        last_error: None,
        outcome,
        register_verified: seen,
        completion_observed: seen,
        message: None,
    }
}

#[test]
fn timed_calibrations_save_only_after_a_verified_end() {
    let done = Some(OperationOutcome::Succeeded);
    let running = Some(OperationOutcome::Running);
    for save in [false, true] {
        let mut c = Calibration::new(50, save);
        let idle = SessionView { active: false, ..view(None, false) };
        assert!(matches!(c.step(idle, false, 0), CalibrationStep::Wait));
        let start = c.step(view(None, false), false, 1);
        assert!(matches!(start, CalibrationStep::Send(DeviceCommand::MagStart)));
        assert!(matches!(c.step(view(running, false), false, 2), CalibrationStep::Wait));
        assert!(matches!(c.step(view(done, true), false, 100), CalibrationStep::Wait));
        assert_eq!(c.stage, CalibrationStage::Running);
        assert!(matches!(c.step(view(done, true), false, 149), CalibrationStep::Wait));
        let stop = c.step(view(done, true), false, 150);
        assert!(matches!(stop, CalibrationStep::Send(DeviceCommand::MagStop)));
        let end = c.step(view(done, true), false, 160);
        if save {
            assert!(matches!(end, CalibrationStep::Send(DeviceCommand::Save)));
            let last = c.step(view(Some(OperationOutcome::Unverified), false), false, 170);
            assert!(matches!(last, CalibrationStep::Finished));
        } else {
            assert!(matches!(end, CalibrationStep::Finished));
        }
    }
    let mut c = Calibration::new(50, true);
    c.step(view(None, false), false, 1);
    c.step(view(done, true), false, 2);
    c.step(view(done, true), false, 60);
    // An end that was not observed is no end.
    match c.step(view(done, false), false, 61) {
        CalibrationStep::Failed(e) => assert_eq!(e.message(), "I/O error: magnetic operation failed"),
        _ => panic!("failed"),
    }
    let mut c = Calibration::new(50, true);
    assert!(matches!(c.step(view(None, false), true, 1), CalibrationStep::Interrupted));
    let mut c = Calibration::new(50, true);
    let lost = SessionView { last_error: Some("gone".into()), ..view(None, false) };
    assert!(matches!(c.step(lost, false, 1), CalibrationStep::Failed(Error::Io(_))));
}

#[test]
fn monitors_last_for_their_time_from_the_first_sample_on() {
    let mut w = Watch::new(50);
    assert!(matches!(w.step(false, None, false, 1000), WatchStep::Wait));
    assert!(matches!(w.step(true, None, false, 2000), WatchStep::Wait));
    assert!(matches!(w.step(false, None, false, 2049), WatchStep::Wait));
    assert!(matches!(w.step(true, Some("gone".into()), true, 2050), WatchStep::Interrupted));
    match w.step(true, Some("gone".into()), false, 2050) {
        WatchStep::Failed(e) => assert_eq!(e.message(), "I/O error: gone"),
        _ => panic!("not failed"),
    }
    assert!(matches!(w.step(false, None, false, 2050), WatchStep::Finished));
}

#[test]
fn streams_end_when_interrupted_or_when_their_time_has_passed() {
    assert!(stream_over(true, 0, 1000, 1000));
    assert!(!stream_over(false, 0, 1000, u64::MAX));
    assert!(!stream_over(false, 50, 1000, 1049));
    assert!(stream_over(false, 50, 1000, 1050));
    assert!(!stream_over(false, 50, 1000, 900));
    assert!(stream_over(true, 50, 1000, 1001));
    assert!(!stream_over(false, u64::MAX, 0, u64::MAX));
}
