use posebridge::controller::TaskOutcome;
use posebridge::device::{
    inspect, Action, Conclusion, Operation, Progress, ReadSchedule, ReadStep, RegisterRead, Reply,
    INSPECTED,
};
use posebridge::model::{
    AlgorithmMode, CalibrationState, Config, ConnectionState, DeviceCommand, DeviceObservation,
    Error, OperationOutcome, OutputFields, OutputProfile, Platform, ReferenceReason, Source,
};
use posebridge::protocol::{command_register, read_register, write_register, Parser, UNLOCK};
use posebridge::Controller;

/// A device by its registers and by every command that it was sent.
struct Device {
    registers: [u16; 128],
    commands: Vec<[u8; 5]>,
    parser: Parser,
}

impl Device {
    fn new(algorithm: u16) -> Device {
        let mut registers = [0u16; 128];
        registers[3] = 9;
        registers[0x0e] = 0x84;
        registers[0x1f] = 4;
        registers[0x24] = algorithm;
        registers[0x2e] = 13115;
        Device { registers, commands: Vec::new(), parser: Parser::default() }
    }

    fn send(&mut self, bytes: [u8; 5]) -> Vec<u8> {
        self.commands.push(bytes);
        let value = u16::from_le_bytes([bytes[3], bytes[4]]);
        if bytes[2] == 0x27 {
            let address = value as usize;
            let mut reply = vec![0x55, 0x71, bytes[3], bytes[4]];
            for i in 0..8 {
                reply.extend(self.registers[address + i].to_le_bytes());
            }
            if address == 1 && self.registers[1] == 1 {
                self.registers[1] = 0;
            }
            return reply;
        }
        let address = bytes[2] as usize;
        if bytes[2] != 0x69 {
            if address == 0 && value == 1 {
                self.registers[3] = 6;
                self.registers[0x0e] = 0x61;
                self.registers[0x24] = 0;
            } else if address == 1 && [4, 8].contains(&value) {
                self.registers[1] = 0;
            } else {
                self.registers[address] = value;
            }
        }
        Vec::new()
    }

    fn read(&mut self, address: u16, expected: Option<u16>) -> Result<[u16; 8], Error> {
        let mut read = RegisterRead::new(address, expected);
        let mut schedule = ReadSchedule::new(0, true);
        let mut now = 0;
        loop {
            match schedule.step(now) {
                ReadStep::Send => {
                    let bytes = self.send(read_register(address));
                    schedule.request_sent(now);
                    let frames = self.parser.push(&bytes);
                    if let Some(words) = read.observe(&frames) {
                        return Ok(words);
                    }
                }
                ReadStep::Wait => now = schedule.deadline() as u64,
                ReadStep::GiveUp => return Err(read.timed_out()),
            }
        }
    }

    fn inspect(&mut self) -> DeviceObservation {
        let replies = INSPECTED.map(|address| self.read(address, None).unwrap());
        inspect(&replies[0], &replies[1], &replies[2], &replies[3], 1_700_000_000_000)
    }

    fn writes(&self) -> Vec<[u8; 5]> {
        self.commands.iter().copied().filter(|c| c[2] != 0x27 && c[2] != 0x69).collect()
    }
}

type Outcome = Result<(Conclusion, Option<DeviceObservation>), Error>;

fn execute(
    device: &mut Device,
    command: DeviceCommand,
    mut progress: impl FnMut(Progress),
) -> Outcome {
    let mut operation = Operation::new(&command)?;
    let mut now = 0u64;
    let mut action = operation.start();
    loop {
        let reply = match action {
            Action::Read { address, expected } => match device.read(address, expected) {
                Ok(words) => Reply::Registers { words },
                Err(error) => Reply::Failed { error },
            },
            Action::Write { bytes } => {
                device.send(bytes);
                Reply::Done
            }
            Action::Delay { millis } => {
                now += millis * 1_000_000;
                match operation.deadline() {
                    Some(deadline) if u128::from(now) >= deadline => Reply::Expired,
                    _ => Reply::Done,
                }
            }
            Action::Report { progress: p } => {
                progress(p);
                Reply::Done
            }
            Action::Finish { conclusion, observation } => return Ok((conclusion, observation)),
            Action::Fail { error } => return Err(error),
        };
        action = operation.step(reply, now, 1_700_000_000_000);
    }
}

fn control(c: &mut Controller, device: &mut Device, command: DeviceCommand) -> Result<(), Error> {
    match execute(device, command, |p| c.progress(p)) {
        Ok((conclusion, observation)) => {
            c.control_finished(conclusion, observation);
            Ok(())
        }
        Err(error) => {
            c.control_failed();
            Err(error)
        }
    }
}

fn configured() -> Controller {
    let mut c = Controller::new();
    c.set_config(
        Config {
            source: Source::Usb { port: "p".into(), baud: 115200 },
            ..Config::default()
        },
        Platform::Other,
    )
    .unwrap();
    c
}

#[test]
fn inspection_is_read_only_and_device_controls_have_explicit_effects() {
    let mut device = Device::new(0);
    let observation = device.inspect();
    assert!(observation.valid);
    assert_eq!(observation.rate_millihertz, Some(100_000));
    assert_eq!(observation.algorithm, Some(AlgorithmMode::NineAxis));
    assert_eq!(observation.firmware_version, Some(13115));
    assert_eq!(device.commands.iter().map(|c| c[2]).collect::<Vec<_>>(), vec![0x27; 4]);
    device.commands.clear();
    assert!(matches!(
        execute(&mut device, DeviceCommand::ZeroYaw, |_| {}),
        Err(Error::Invalid(_))
    ));
    assert_eq!(device.commands, vec![read_register(0x24)]);
    for command in [
        DeviceCommand::Algorithm { mode: AlgorithmMode::SixAxis },
        DeviceCommand::ZeroYaw,
        DeviceCommand::AngleReference,
        DeviceCommand::ResetDefaults,
    ] {
        device.commands.clear();
        let mut c = configured();
        let epoch = c.descriptor.reference_epoch;
        c.configure_device(command, Platform::Other, true).unwrap();
        c.descriptor.device = observation;
        control(&mut c, &mut device, command).unwrap();
        let op = c.operation.as_ref().unwrap();
        assert!(op.command_sent && op.reference_may_have_changed);
        assert_eq!(c.descriptor.reference_epoch, epoch + 1);
        let writes = device.writes();
        match command {
            DeviceCommand::Algorithm { .. } => {
                assert_eq!(writes, vec![write_register(0x24, 1)]);
                assert!(op.register_verified);
                assert!(!c.descriptor.device.valid);
            }
            DeviceCommand::ZeroYaw => {
                assert_eq!(writes, vec![write_register(1, 4)]);
                assert_eq!(op.outcome, OperationOutcome::Unverified);
            }
            DeviceCommand::AngleReference => {
                assert_eq!(writes, vec![write_register(1, 8), write_register(0, 0)]);
                assert_eq!(op.persistence, "unverified");
            }
            DeviceCommand::ResetDefaults => {
                assert_eq!(writes, vec![write_register(0, 1)]);
                assert!(op.register_verified && c.descriptor.device.valid);
                assert_eq!(c.descriptor.device.rate_millihertz, Some(10_000));
            }
            _ => unreachable!(),
        }
    }
}

#[test]
fn experimental_output_rejects_unsupported_rate_before_any_write() {
    let mut device = Device::new(0);
    let output = DeviceCommand::Output { format: OutputProfile::ExperimentalFullInertial20Hz };
    assert!(execute(&mut device, output, |_| {}).is_err());
    assert!(device.commands.iter().all(|c| c[2] == 0x27));
    execute(&mut device, DeviceCommand::Rate { hz: 20 }, |_| {}).unwrap();
    execute(&mut device, output, |_| {}).unwrap();
    device.commands.clear();
    assert!(execute(&mut device, DeviceCommand::Rate { hz: 100 }, |_| {}).is_err());
    assert!(device.commands.iter().all(|c| c[2] == 0x27));
}

#[test]
fn cancellation_after_write_invalidates_reference_without_repeating_write() {
    let mut c = configured();
    let epoch = c.descriptor.reference_epoch;
    c.configure_device(DeviceCommand::Rate { hz: 100 }, Platform::Other, true).unwrap();
    c.descriptor.device.valid = true;
    let mut operation = Operation::new(&DeviceCommand::Rate { hz: 100 }).unwrap();
    assert!(matches!(operation.start(), Action::Read { address: 0x0e, expected: None }));
    let words = [0x61, 0, 0, 0, 0, 0, 0, 0];
    let unlock = operation.step(Reply::Registers { words }, 0, 0);
    assert!(matches!(unlock, Action::Write { bytes } if bytes == UNLOCK));
    assert!(matches!(operation.step(Reply::Done, 0, 0), Action::Delay { millis: 200 }));
    let Action::Report { progress } = operation.step(Reply::Done, 0, 0) else { panic!("report") };
    c.progress(progress);
    let write = operation.step(Reply::Done, 0, 0);
    assert!(matches!(write, Action::Write { bytes } if bytes == write_register(3, 9)));
    let end = operation.step(Reply::Failed { error: Error::Cancelled }, 0, 0);
    assert!(matches!(end, Action::Fail { error: Error::Cancelled }));
    c.control_failed();
    c.task_finished(TaskOutcome::Failed { error: Error::Cancelled }, 0);
    c.stop(false, 0).unwrap();
    let s = c.snapshot(0);
    assert_eq!(s.status.state, ConnectionState::Stopped);
    let operation = s.operation.unwrap();
    assert_eq!(operation.outcome, OperationOutcome::Cancelled);
    assert!(operation.write_attempted && operation.reference_may_have_changed);
    assert!(!s.descriptor.device.valid);
    assert_eq!(s.descriptor.reference_epoch, epoch + 1);
    assert_eq!(s.descriptor.reference_reason, ReferenceReason::DeviceControlUncertain);
}

#[test]
fn reset_observation_advances_metadata_revision() {
    let mut device = Device::new(1);
    let mut c = configured();
    c.configure_device(DeviceCommand::ResetDefaults, Platform::Other, true).unwrap();
    let (conclusion, observation) =
        execute(&mut device, DeviceCommand::ResetDefaults, |p| c.progress(p)).unwrap();
    let before = c.snapshot(0).descriptor;
    c.control_finished(conclusion, observation);
    let after = c.snapshot(0).descriptor;
    assert!(!before.device.valid && after.device.valid);
    assert_eq!(after.device.rate_millihertz, Some(10_000));
    assert!(after.metadata_revision > before.metadata_revision);
    assert_eq!(after.reference_epoch, before.reference_epoch);
}

#[test]
fn defaults_that_change_during_verification_are_an_error() {
    let mut operation = Operation::new(&DeviceCommand::ResetDefaults).unwrap();
    let words = |first: u16| Reply::Registers { words: [first, 0, 6, 0, 0, 0, 0, 0] };
    let mut action = operation.start();
    let mut observed = 0;
    loop {
        let reply = match action {
            Action::Read { address: 0x0e, expected: None } => words(0x61),
            Action::Read { expected: Some(v), .. } => words(v),
            // The last words of the options say six-axis meanwhile.
            Action::Read { address: 0x1f, .. } => {
                observed += 1;
                Reply::Registers { words: [4, 0, 0, 0, 0, 1, 0, 0] }
            }
            Action::Read { .. } => words(0),
            Action::Fail { error } => {
                assert_eq!(
                    error.message(),
                    "protocol error: default configuration changed during verification"
                );
                break;
            }
            Action::Finish { .. } => panic!("finished"),
            _ => Reply::Done,
        };
        action = operation.step(reply, 0, 0);
    }
    assert_eq!(observed, 1);
}

#[test]
fn configuration_readback_retries_only_read_requests() {
    let mut read = RegisterRead::new(0x0e, Some(0x84));
    let mut schedule = ReadSchedule::new(1000, true);
    let mut parser = Parser::default();
    let mut response = [0u8; 20];
    response[..6].copy_from_slice(&[0x55, 0x71, 0x0e, 0, 0x81, 0]);
    let mut now = 1000;
    let mut commands = Vec::new();
    let mut sent_at = Vec::new();
    let words = loop {
        match schedule.step(now) {
            ReadStep::Send => {
                commands.push(read_register(0x0e));
                sent_at.push(now);
                schedule.request_sent(now);
                // Silence, then the old value, then the new one.
                if commands.len() == 2 {
                    assert!(read.observe(&parser.push(&response)).is_none());
                    assert_eq!(
                        read.timed_out().message(),
                        "protocol error: register 0x0e: requested 132, read back 129 after verification timeout"
                    );
                    response[4] = 0x84;
                } else if commands.len() == 3 {
                    break read.observe(&parser.push(&response)).unwrap();
                }
            }
            ReadStep::Wait => now = schedule.deadline() as u64,
            ReadStep::GiveUp => panic!("given up"),
        }
    };
    assert_eq!(words[0], 0x84);
    assert_eq!(commands, [[0xff, 0xaa, 0x27, 0x0e, 0]; 3]);
    assert_eq!(sent_at, [1000, 250_001_000, 500_001_000]);
    assert_eq!(
        RegisterRead::new(0x2e, None).timed_out().message(),
        "operation timed out: readback register 0x2e"
    );
}

#[test]
fn reads_are_repeated_for_three_seconds() {
    for (resends, expected) in [(true, 12), (false, 1)] {
        let mut schedule = ReadSchedule::new(5, resends);
        let mut now = 5;
        let mut sent = Vec::new();
        loop {
            match schedule.step(now) {
                ReadStep::Send => {
                    sent.push(now);
                    schedule.request_sent(now);
                }
                ReadStep::Wait => {
                    assert!(u128::from(now) < schedule.deadline());
                    now = schedule.deadline() as u64;
                    assert_ne!(schedule.step(now), ReadStep::Wait);
                }
                ReadStep::GiveUp => break,
            }
        }
        assert_eq!(sent.len(), expected);
        assert!(sent.windows(2).all(|w| w[1] - w[0] == 250_000_000));
        assert_eq!(now, 3_000_000_005);
        // A request that took long to write is repeated later.
        let mut slow = ReadSchedule::new(5, resends);
        slow.request_sent(100_000_005);
        assert_eq!(slow.step(350_000_004), ReadStep::Wait);
        let again = slow.step(350_000_005);
        assert_eq!(again == ReadStep::Send, resends);
    }
}

#[test]
fn nothing_is_verified_that_was_not_read_back() {
    let first = |word: u16| Reply::Registers { words: [word, 0, 0, 0, 0, 0, 0, 0] };
    for (command, held, verified) in [
        (DeviceCommand::Rate { hz: 20 }, 7, true),
        (DeviceCommand::Rate { hz: 20 }, 9, false),
        (DeviceCommand::Algorithm { mode: AlgorithmMode::SixAxis }, 0, false),
        (DeviceCommand::MagStart, 7, true),
        (DeviceCommand::MagStart, 0, false),
        (DeviceCommand::MagStop, 7, false),
        (DeviceCommand::MagStop, 0, true),
    ] {
        let mut operation = Operation::new(&command).unwrap();
        let mut reports = Vec::new();
        let mut action = operation.start();
        let result = loop {
            let reply = match action {
                Action::Read { .. } => first(held),
                Action::Report { progress } => {
                    reports.push(progress);
                    Reply::Done
                }
                Action::Finish { conclusion, .. } => break Ok(conclusion),
                Action::Fail { error } => break Err(error),
                _ => Reply::Done,
            };
            action = operation.step(reply, 0, 0);
        };
        assert_eq!(reports.contains(&Progress::RegisterVerified), verified);
        let stop = matches!(command, DeviceCommand::MagStop);
        assert_eq!(reports.contains(&Progress::CompletionObserved), verified && stop);
        let (address, value) = command_register(&command).unwrap();
        match result {
            Ok(conclusion) => {
                assert!(verified);
                assert_eq!(conclusion, Conclusion::ReadBack { address, value });
            }
            Err(error) => {
                assert!(!verified && reports.contains(&Progress::CommandSent));
                let text = format!(
                    "protocol error: register 0x{address:02x}: requested {value}, read back {held} after verification timeout"
                );
                assert_eq!(error.message(), text);
            }
        }
    }
}

#[test]
fn the_first_answer_among_frames_counts() {
    let reply = |address: u8, word: u16| {
        let mut bytes = vec![0x55, 0x71, address, 0];
        bytes.extend(word.to_le_bytes());
        bytes.extend([0; 14]);
        bytes
    };
    let frames = Parser::default()
        .push(&[reply(3, 9), reply(1, 5), reply(1, 0xfffe), reply(1, 7)].concat());
    let mut any = RegisterRead::new(1, None);
    assert_eq!(any.observe(&frames).unwrap()[0], 5);
    let mut high = RegisterRead::new(1, Some(0xfffe));
    assert_eq!(high.observe(&frames).unwrap()[0], 0xfffe);
    let mut none = RegisterRead::new(1, Some(4));
    assert!(none.observe(&frames).is_none());
    assert_eq!(none.last_observed, Some(7));
}

#[test]
fn output_profile_requires_new_firmware_and_matching_readback() {
    for (current, wrong) in [(0x61u16, false), (0x61, true), (0x01, false)] {
        let command = DeviceCommand::Output { format: OutputProfile::TimestampQuaternion };
        let mut operation = Operation::new(&command).unwrap();
        let mut sent = Vec::new();
        let mut reads = 0;
        let mut action = operation.start();
        let result = loop {
            let reply = match action {
                Action::Read { address, expected } => {
                    assert_eq!(address, 0x0e);
                    let mut read = RegisterRead::new(address, expected);
                    let mut reply = None;
                    for _ in 0..3 {
                        sent.push(read_register(address));
                        reads += 1;
                        let observed = if reads == 1 || wrong { current } else { 0x84 };
                        let mut bytes = [0u8; 20];
                        bytes[..4].copy_from_slice(&[0x55, 0x71, 0x0e, 0]);
                        bytes[4..6].copy_from_slice(&observed.to_le_bytes());
                        if let Some(words) = read.observe(&Parser::default().push(&bytes)) {
                            reply = Some(Reply::Registers { words });
                            break;
                        }
                    }
                    reply.unwrap_or(Reply::Failed { error: read.timed_out() })
                }
                Action::Write { bytes } => {
                    sent.push(bytes);
                    Reply::Done
                }
                Action::Finish { .. } => break Ok(()),
                Action::Fail { error } => break Err(error),
                _ => Reply::Done,
            };
            action = operation.step(reply, 0, 0);
        };
        assert_eq!(result.is_err(), current == 1 || wrong);
        assert_eq!(sent[0], read_register(0x0e));
        if current == 1 {
            assert_eq!(sent.len(), 1, "ambiguous firmware must receive no writes");
            assert_eq!(
                result.unwrap_err().message(),
                "protocol error: operation requires verified new-format firmware (0x0E=0x0001)"
            );
        } else {
            assert_eq!(sent[1], UNLOCK);
            assert_eq!(sent[2], write_register(0x0e, 0x84));
            assert!(sent.len() >= 4);
            assert!(
                sent[3..].iter().all(|command| *command == read_register(0x0e)),
                "verification may repeat reads only; no implicit write or save"
            );
        }
    }
}

#[test]
fn usb_configuration_readback_mismatch_and_no_implicit_save() {
    for (command, wrong) in [
        (DeviceCommand::Rate { hz: 100 }, false),
        (DeviceCommand::Rate { hz: 100 }, true),
        (DeviceCommand::MagStart, false),
        (DeviceCommand::MagStop, false),
        (DeviceCommand::AccelCalibrate, false),
        (DeviceCommand::Save, false),
    ] {
        let (address, value) = command_register(&command).unwrap();
        let accel = matches!(command, DeviceCommand::AccelCalibrate);
        let mut operation = Operation::new(&command).unwrap();
        let mut sent = Vec::new();
        let mut reads = 0;
        let mut action = operation.start();
        let result = loop {
            let reply = match action {
                Action::Read { address: 0x0e, .. } => {
                    sent.push(read_register(0x0e));
                    Reply::Registers { words: [0x61, 0, 0, 0, 0, 0, 0, 0] }
                }
                Action::Read { address: asked, .. } => {
                    sent.push(read_register(asked));
                    reads += 1;
                    assert_eq!(asked, u16::from(address));
                    let observed = if wrong {
                        value + 1
                    } else if accel && reads > 1 {
                        0
                    } else {
                        value
                    };
                    Reply::Registers { words: [observed, 0, 0, 0, 0, 0, 0, 0] }
                }
                Action::Write { bytes } => {
                    sent.push(bytes);
                    Reply::Done
                }
                Action::Finish { conclusion, .. } => break Ok(conclusion),
                Action::Fail { error } => break Err(error),
                _ => Reply::Done,
            };
            action = operation.step(reply, 0, 0);
        };
        assert_eq!(result.is_err(), wrong, "{result:?}");
        if wrong {
            assert_eq!(
                result.unwrap_err().message(),
                "protocol error: register 0x03: requested 9, read back 10 after verification timeout"
            );
        }
        let writes: Vec<_> = sent.iter().filter(|c| c[2] != 0x27).copied().collect();
        assert_eq!(writes[0], UNLOCK);
        assert_eq!(writes[1], write_register(address, value));
        if address != 0 {
            assert!(sent.iter().all(|c| c[2] != 0), "implicit SAVE");
        }
    }
}

#[test]
fn calibrations_are_followed_to_their_end() {
    let run = |first: u16, ends: bool| {
        let mut operation = Operation::new(&DeviceCommand::AccelCalibrate).unwrap();
        let mut reports = Vec::new();
        let mut now = 0u64;
        let mut polls = 0;
        let mut action = operation.start();
        loop {
            let reply = match action {
                Action::Read { .. } => {
                    polls += 1;
                    let word = if polls == 1 {
                        first
                    } else if ends && polls > 4 {
                        0
                    } else {
                        1
                    };
                    Reply::Registers { words: [word, 0, 0, 0, 0, 0, 0, 0] }
                }
                Action::Delay { millis } => {
                    now += millis * 1_000_000;
                    match operation.deadline() {
                        Some(deadline) if u128::from(now) >= deadline => Reply::Expired,
                        _ => Reply::Done,
                    }
                }
                Action::Report { progress } => {
                    reports.push(progress);
                    Reply::Done
                }
                Action::Finish { conclusion, .. } => {
                    return (Ok(conclusion.message()), reports, now)
                }
                Action::Fail { error } => return (Err(error.message()), reports, now),
                Action::Write { .. } => Reply::Done,
            };
            action = operation.step(reply, now, 0);
        }
    };
    let (done, reports, _) = run(1, true);
    assert_eq!(
        done.unwrap(),
        "CALSW start and completion observed; accuracy unverified, no SAVE sent"
    );
    assert_eq!(
        reports[2..],
        [Progress::RegisterVerified, Progress::CompletionObserved]
    );
    let (unseen, _, _) = run(0, true);
    assert_eq!(
        unseen.unwrap(),
        "calibration command sent; start was not observed, completion and accuracy unverified"
    );
    let (late, _, now) = run(1, false);
    assert_eq!(late.unwrap_err(), "operation timed out: calibration completion");
    assert_eq!(now, 8_200_000_000);
}

#[test]
fn conclusions_say_what_was_seen() {
    assert_eq!(
        Conclusion::ReadBack { address: 3, value: 9 }.message(),
        "register 0x03 readback verified: 9; accuracy/persistence not inferred; no SAVE sent"
    );
    assert_eq!(Conclusion::CommandSent.outcome(), OperationOutcome::Unverified);
    assert_eq!(Conclusion::Calibrated.outcome(), OperationOutcome::Succeeded);
    let mut operation = Operation::new(&DeviceCommand::Save).unwrap();
    let odd = operation.step(Reply::Expired, 0, 0);
    assert!(matches!(odd, Action::Fail { error: Error::Internal(_) }));
}

#[test]
fn registers_are_told_in_words() {
    let seen = inspect(
        &[7, 0, 1, 0, 0, 0, 0, 0],
        &[0xe4, 0, 0, 0, 0, 0, 0, 0],
        &[4, 0, 0, 0, 8, 1, 0, 0],
        &[10, 2, 0, 0, 0, 0, 0, 0],
        u64::MAX,
    );
    assert_eq!(seen.observed_unix_ms, Some(i64::MAX as u64));
    assert_eq!(seen.calibration_state, Some(CalibrationState::MagneticActive));
    assert_eq!(seen.rate_millihertz, Some(100));
    assert_eq!(
        seen.output_fields,
        Some(OutputFields {
            sample_time: true,
            acceleration: true,
            angular_velocity: true,
            euler: false,
            quaternion: true
        })
    );
    assert_eq!(seen.algorithm, Some(AlgorithmMode::SixAxis));
    assert_eq!(seen.firmware_version, None);
    assert_eq!(seen.firmware_registers, Some([10, 2]));
    assert_eq!((seen.bandwidth_register, seen.orientation_register), (Some(4), Some(8)));
}
