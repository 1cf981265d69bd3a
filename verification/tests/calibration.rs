use posebridge::device::ReadStep;
use posebridge::magnetic::{
    is_magnetic_command, read_schedule, read_timed_out, retries, Answer, Execution, MagneticCursor,
    MagneticPhase, Mark, Scale, State, Task, Window,
};
use posebridge::model::{Config, DeviceCommand, Error, OperationOutcome, Platform, Source};
use posebridge::monitor::Monitor;
use posebridge::protocol::{read_register, write_register, Parser, UNLOCK};
use posebridge::Controller;

const MS: u64 = 1_000_000;

#[test]
fn units_are_signed_and_unknown_types_do_not_invent_microteslas() {
    for (kind, expected) in
        [(2, 0.15), (3, 0.013), (4, 0.058), (5, 0.098), (6, 1.0 / 120.0), (7, 0.02)]
    {
        let mut s = State::new(1, 2);
        s.sensor_type = Some(kind);
        s.observe([-120, 240, i16::MIN], 5, 5);
        let sample = &s.records[0].sample;
        let Scale { numerator, denominator } = sample.scale.unwrap();
        let scale = f64::from(numerator) / f64::from(denominator);
        assert_eq!(
            sample.register_xyz.map(|v| f64::from(v) * scale),
            [-120.0 * expected, 240.0 * expected, f64::from(i16::MIN) * expected]
        );
    }
    for kind in [None, Some(0), Some(1), Some(65535)] {
        let mut s = State::new(1, 2);
        s.sensor_type = kind;
        s.observe([0, -1, 32767], 5, 5);
        assert!(s.records[0].sample.scale.is_none());
    }
}

#[test]
fn bounded_queries_windows_and_age_are_independent_of_poses() {
    let now = 77_000 * MS;
    let mut s = State::new(1, 2);
    s.phase = MagneticPhase::Monitoring;
    for n in 0..300u64 {
        s.observe([n as i16, -(n as i16), 7], now + n * 200 * MS, now);
    }
    let cursor = MagneticCursor { instance_id: 1, session_id: 2, sequence: 1 };
    let query = now + 60_000 * MS;
    let batch = s.since(Some(cursor), "test".into(), None, query);
    assert_eq!(batch.history_overrun, 43);
    assert_eq!(batch.samples.len(), 256);
    assert_eq!(batch.statistics.sample_count, 300);
    assert_eq!(batch.statistics.span_counts, Some([299, 299, 0]));
    let rate = (batch.statistics.sample_count - 1) as f64 / (batch.statistics.span_ns as f64 / 1e9);
    assert!((rate - 5.0).abs() < 1e-10);
    assert!(batch.active && batch.latest.as_ref().unwrap().fresh);
    assert!(!batch.samples[0].fresh);
    assert!(s.since(batch.cursor, "test".into(), None, query).samples.is_empty());
    let old_window = batch.statistics.window_id;
    s.window = Window::default();
    s.observe([i16::MIN, 0, 0], query, now);
    s.observe([i16::MAX, 0, 0], query, now);
    let reset_window = s.since(batch.cursor, "test".into(), None, query);
    assert_ne!(reset_window.statistics.window_id, old_window);
    assert_eq!(reset_window.samples[0].cursor.sequence, 301);
    assert_eq!(reset_window.statistics.span_counts, Some([65535, 0, 0]));
    s.running = false;
    s.window.end = Some(query);
    let stopped = s.since(None, "test".into(), None, query + 3_000 * MS);
    assert!(!stopped.active && stopped.samples.iter().all(|s| !s.fresh));
    assert_eq!(stopped.latest.unwrap().age_ns, 3_000_000_000);
    assert_eq!(stopped.statistics.elapsed_ns, 0);
    let replacement = State::new(3, 4).since(batch.cursor, "test".into(), None, query);
    assert!(replacement.reset && replacement.samples.is_empty());
}

/// A device whose replies come back at once, and a session with it.
struct Session {
    controller: Controller,
    parser: Parser,
    monitor: Monitor,
    now: u64,
    calsw: u16,
    commands: Vec<[u8; 5]>,
    ignore_stop: bool,
    hide_start: bool,
    silence_mag: bool,
    silence_type: bool,
    gone: bool,
}

impl Session {
    fn open(calsw: u16, silence_type: bool) -> Session {
        let mut controller = Controller::new();
        let config = Config {
            source: Source::Usb { port: "p".into(), baud: 115200 },
            ..Config::default()
        };
        controller.set_config(config, Platform::Other).unwrap();
        controller.magnetic_start(Platform::Other).unwrap();
        controller.magnetic_opened();
        let mut s = Session {
            controller,
            parser: Parser::default(),
            monitor: Monitor::new(),
            now: 0,
            calsw,
            commands: Vec::new(),
            ignore_stop: false,
            hide_start: false,
            silence_mag: false,
            silence_type,
            gone: false,
        };
        while let Some(address) = s.monitor.opening_read() {
            let result = s.read(address, None);
            let now = s.now;
            s.monitor.read_finished(&mut s.controller, result, now).unwrap();
        }
        s
    }

    fn send(&mut self, cmd: [u8; 5]) -> Vec<u8> {
        self.commands.push(cmd);
        if cmd[2] == 1 {
            let value = u16::from_le_bytes([cmd[3], cmd[4]]);
            if value != 0 || !self.ignore_stop {
                self.calsw = value;
            }
        }
        if cmd[2] != 0x27
            || self.gone
            || (cmd[3] == 0x3a && self.silence_mag)
            || (cmd[3] == 0x72 && self.silence_type)
        {
            return Vec::new();
        }
        let mut words = [0i16; 8];
        match cmd[3] {
            0x72 => words[0] = 6,
            1 => words[0] = if self.hide_start && self.calsw == 7 { 0 } else { self.calsw as i16 },
            0x3a => words[..3].copy_from_slice(&[120, -240, 60]),
            _ => {}
        }
        let mut bytes = vec![0x55, 0x61];
        bytes.extend([0; 18]); // a pose that is of no use here
        bytes.extend([0x55, 0x71, cmd[3], cmd[4]]);
        for word in words {
            bytes.extend(word.to_le_bytes());
        }
        bytes
    }

    fn read(&mut self, address: u16, expected: Option<u16>) -> Result<[u16; 8], Error> {
        let mut wait = posebridge::device::RegisterRead::new(address, expected);
        let mut schedule = read_schedule(address, self.now);
        loop {
            match schedule.step(self.now) {
                ReadStep::Send => {
                    let bytes = self.send(read_register(address));
                    schedule.request_sent(self.now);
                    // A reply split over two reads.
                    for part in [&bytes[..bytes.len().min(23)], &bytes[bytes.len().min(23)..]] {
                        let now = self.now;
                        let frames =
                            self.controller.magnetic_receive(&mut self.parser, part, now, 0);
                        if let Some(words) = wait.observe(&frames) {
                            return Ok(words);
                        }
                    }
                }
                ReadStep::Wait => self.now = schedule.deadline() as u64,
                ReadStep::GiveUp => return Err(read_timed_out(address, expected)),
            }
        }
    }

    /// One poll, as the timer asks for it.
    fn poll(&mut self) -> Result<(), Error> {
        self.now = self.monitor.deadline() as u64;
        let address = self.monitor.due(self.now);
        let result = self.read(address, None);
        self.monitor.read_finished(&mut self.controller, result, self.now)
    }

    fn execute(&mut self, command: DeviceCommand, cleanup: bool, cancel_at: usize) -> Result<(), Error> {
        let previous = self.controller.magnetic.phase;
        let mut execution = Execution::new(command);
        let mut task = execution.start();
        let mut done = 0;
        loop {
            let answer = match task {
                Task::Read { address, expected } => match self.read(address, expected) {
                    Ok(words) => Answer::Registers { words },
                    Err(error) => Answer::Failed { error },
                },
                Task::Write { bytes } => {
                    self.send(bytes);
                    Answer::Done
                }
                Task::Delay { millis } => {
                    self.now += millis * MS;
                    Answer::Done
                }
                Task::Mark { mark } => {
                    self.controller.magnetic_mark(mark, &command, cleanup, previous, self.now);
                    Answer::Done
                }
                Task::Finish => return Ok(()),
                Task::Fail { error } => return Err(error),
            };
            done += 1;
            let answer =
                if done == cancel_at { Answer::Failed { error: Error::Cancelled } } else { answer };
            task = execution.step(answer);
        }
    }

    fn command(&mut self, command: DeviceCommand) -> Result<(), Error> {
        self.controller.configure_device(command, Platform::Other, true).unwrap();
        let result = self.execute(command, false, 0);
        self.controller.magnetic_command_finished(result)
    }

    fn finish(&mut self, mut result: Result<(), Error>) -> Result<(), Error> {
        if self.controller.monitoring_ended() {
            if let Err(e) = self.execute(DeviceCommand::MagStop, true, 0) {
                result = Err(self.controller.cleanup_failed(e));
            }
        }
        self.controller.magnetic_finished(&result, self.now);
        result
    }

    fn writes(&self, address: u8, value: u16) -> usize {
        self.commands.iter().filter(|c| **c == write_register(address, value)).count()
    }
}

#[test]
fn monitor_and_external_calibration_are_read_only() {
    for calsw in [0, 7] {
        let mut f = Session::open(calsw, false);
        while f.controller.magnetic.sequence < 7 {
            f.poll().unwrap();
        }
        assert!(f.controller.pose.is_none());
        assert_eq!(f.controller.status.pose_count, 0);
        assert_eq!(
            f.controller.magnetic.phase,
            if calsw == 7 { MagneticPhase::ExternalCalibration } else { MagneticPhase::Monitoring }
        );
        assert!(matches!(f.finish(Err(Error::Cancelled)), Err(Error::Cancelled)));
        assert!(f.commands.iter().all(|c| c[2] == 0x27));
        let s = &f.controller.magnetic;
        assert!(!s.running);
        assert_eq!(s.phase, MagneticPhase::Closed);
        let last = &s.records[s.records.len() - 1].sample;
        let scale = last.scale.unwrap();
        assert_eq!(
            last.register_xyz
                .map(|v| f64::from(v) * (f64::from(scale.numerator) / f64::from(scale.denominator))),
            [1.0, -2.0, 0.5]
        );
        assert_eq!(s.calsw, Some(calsw));
    }
}

#[test]
fn full_control_flow_freezes_window_and_only_saves_explicitly() {
    let mut f = Session::open(0, false);
    f.command(DeviceCommand::MagStart).unwrap();
    assert_eq!(f.controller.magnetic.phase, MagneticPhase::Calibrating);
    assert!(f.controller.magnetic_since(None, f.now).device_may_be_calibrating);
    while f.controller.magnetic.window.count < 2 {
        f.poll().unwrap();
    }
    let reference = f.controller.descriptor.reference_epoch;
    f.command(DeviceCommand::MagStop).unwrap();
    assert!(f.controller.descriptor.reference_epoch > reference);
    let count = f.controller.magnetic.window.count;
    let sequence = f.controller.magnetic.sequence;
    while f.controller.magnetic.sequence <= sequence {
        f.poll().unwrap();
    }
    assert_eq!(f.controller.magnetic.window.count, count);
    f.command(DeviceCommand::Save).unwrap();
    assert_eq!(f.controller.operation.as_ref().unwrap().outcome, OperationOutcome::Unverified);
    assert_eq!(f.controller.operation.as_ref().unwrap().persistence, "unverified");
    assert_eq!(f.controller.magnetic.phase, MagneticPhase::Calibrated);
    let _ = f.finish(Err(Error::Cancelled));
    assert!(f.controller.magnetic.cleanup.is_none());
    assert_eq!(f.writes(1, 7), 1);
    assert_eq!(f.writes(1, 0), 1);
    assert_eq!(f.writes(0, 0), 1);
}

#[test]
fn cancel_owned_calibration_stops_but_never_saves() {
    let mut f = Session::open(0, false);
    f.command(DeviceCommand::MagStart).unwrap();
    assert!(matches!(f.finish(Err(Error::Cancelled)), Err(Error::Cancelled)));
    let s = &f.controller.magnetic;
    assert_eq!(s.cleanup.as_ref().unwrap().outcome, OperationOutcome::Succeeded);
    assert_eq!(s.cleanup.as_ref().unwrap().action, "mag_stop_cleanup");
    assert!(!s.owned);
    assert_eq!(f.writes(1, 7), 1);
    assert_eq!(f.writes(1, 0), 1);
    assert_eq!(f.writes(0, 0), 0);
}

#[test]
fn ambiguous_start_cleans_up_without_repeating_start() {
    let mut f = Session::open(0, false);
    f.hide_start = true;
    let failed = f.command(DeviceCommand::MagStart).unwrap_err();
    assert_eq!(
        failed.message(),
        "operation timed out: magnetic register 0x01, expected Some(7)"
    );
    assert!(f.finish(Err(failed)).is_err());
    let op = f.controller.operation.as_ref().unwrap();
    assert_eq!(op.outcome, OperationOutcome::Failed);
    assert!(op.write_attempted);
    let cleanup = f.controller.magnetic.cleanup.as_ref().unwrap();
    assert_eq!(cleanup.outcome, OperationOutcome::Succeeded);
    assert_eq!(f.writes(1, 7), 1);
    assert_eq!(f.writes(1, 0), 1);
    assert_eq!(f.writes(0, 0), 0);
}

#[test]
fn cleanup_failure_is_bounded_and_preserves_uncertainty() {
    let mut f = Session::open(0, false);
    f.command(DeviceCommand::MagStart).unwrap();
    f.ignore_stop = true;
    let before = f.now;
    assert!(f.finish(Err(Error::Cancelled)).is_err());
    assert!(f.now - before < posebridge::magnetic::CLEANUP_TIMEOUT_NS);
    let s = &f.controller.magnetic;
    assert_eq!(s.phase, MagneticPhase::Failed);
    assert!(s.owned && s.last_error.as_ref().unwrap().contains("may still be calibrating"));
    assert_eq!(s.cleanup.as_ref().unwrap().outcome, OperationOutcome::Failed);
    assert_eq!(f.writes(1, 0), 1);
    assert_eq!(f.writes(0, 0), 0);
}

#[test]
fn cleanup_does_not_end_a_calibration_of_another_kind() {
    let mut f = Session::open(0, false);
    f.command(DeviceCommand::MagStart).unwrap();
    f.calsw = 1;
    let error = f.finish(Err(Error::Cancelled)).unwrap_err();
    assert_eq!(
        error.message(),
        "I/O error: invalid argument: magnetic command not allowed with CALSW=1; device may still be calibrating; reconnect and explicitly mag_stop"
    );
    assert_eq!(f.writes(1, 0), 0);
}

#[test]
fn preconditions_and_cancel_before_start_write_do_not_calibrate() {
    let mut f = Session::open(7, false);
    f.command(DeviceCommand::MagStart).unwrap();
    assert_eq!(
        f.controller.operation.as_ref().unwrap().message.as_deref(),
        Some("invalid argument: magnetic command not allowed with CALSW=7")
    );
    f.command(DeviceCommand::Save).unwrap();
    let _ = f.finish(Err(Error::Cancelled));
    assert!(f.commands.iter().all(|c| c[2] == 0x27));

    let mut f = Session::open(0, false);
    f.controller.configure_device(DeviceCommand::MagStart, Platform::Other, true).unwrap();
    // Cancelled while waiting after the unlock.
    let result = f.execute(DeviceCommand::MagStart, false, 5);
    assert!(f.commands.contains(&UNLOCK));
    let result = f.controller.magnetic_command_finished(result);
    assert_eq!(f.controller.operation.as_ref().unwrap().outcome, OperationOutcome::Cancelled);
    let _ = f.finish(result);
    assert!(f.controller.magnetic.cleanup.is_none());
    assert_eq!(f.writes(1, 7), 0);
    assert_eq!(f.writes(1, 0), 0);
}

#[test]
fn magnetic_timeout_does_not_retry_or_reconnect() {
    let mut f = Session::open(0, false);
    f.silence_mag = true;
    let error = f.poll().unwrap_err();
    let result = f.finish(Err(error));
    assert!(matches!(result, Err(Error::Timeout(_))));
    assert_eq!(f.controller.magnetic.phase, MagneticPhase::Failed);
    assert_eq!(f.commands.iter().filter(|c| c[2] == 0x27 && c[3] == 0x3a).count(), 2);
}

#[test]
fn unavailable_type_still_delivers_counts_without_writes() {
    let mut f = Session::open(0, true);
    {
        let s = &f.controller.magnetic;
        assert_eq!(
            s.type_error.as_deref(),
            Some("operation timed out: magnetic register 0x72, expected None")
        );
        assert!(s.sensor_type.is_none());
        assert!(s.records[s.records.len() - 1].sample.scale.is_none());
    }
    let _ = f.finish(Err(Error::Cancelled));
    assert!(f.commands.iter().all(|c| c[2] == 0x27));
}

#[test]
fn disconnect_keeps_owned_calibration_uncertain_without_restart_or_save() {
    let mut f = Session::open(0, false);
    f.command(DeviceCommand::MagStart).unwrap();
    f.gone = true;
    let error = f.poll().unwrap_err();
    assert!(f.finish(Err(error)).is_err());
    let s = &f.controller.magnetic;
    assert!(s.owned && !s.running);
    assert_eq!(s.cleanup.as_ref().unwrap().outcome, OperationOutcome::Failed);
    assert_eq!(f.writes(1, 7), 1);
    assert_eq!(f.writes(0, 0), 0);
}

#[test]
fn sessions_take_magnetic_commands_only() {
    let mut f = Session::open(0, false);
    let busy = |c: &mut Controller, command, free| {
        matches!(c.configure_device(command, Platform::Other, free), Err(Error::Busy))
    };
    assert!(busy(&mut f.controller, DeviceCommand::ZeroYaw, true));
    assert!(busy(&mut f.controller, DeviceCommand::MagStart, false));
    f.controller.configure_device(DeviceCommand::MagStart, Platform::Other, true).unwrap();
    assert!(busy(&mut f.controller, DeviceCommand::MagStop, true));
    // An end that comes by itself is seen by the next poll of the switch.
    let result = f.execute(DeviceCommand::MagStart, false, 0);
    f.controller.magnetic_command_finished(result).unwrap();
    f.calsw = 0;
    while f.controller.magnetic.phase == MagneticPhase::Calibrating {
        f.poll().unwrap();
    }
    assert_eq!(f.controller.magnetic.phase, MagneticPhase::Calibrated);
    assert!(!f.controller.magnetic.owned);
    assert!(f.controller.magnetic_since(None, f.now).statistics.frozen);
}

#[test]
fn unknown_types_are_reported() {
    let mut s = State::new(1, 2);
    s.observe_type(9);
    assert_eq!(
        s.type_error.as_deref(),
        Some("unknown magnetic sensor type 9; units unavailable")
    );
    s.observe_calsw(7, 4);
    assert_eq!(s.phase, MagneticPhase::Opening);
    s.finish(Some("x".into()), 9);
    assert_eq!(s.phase, MagneticPhase::Failed);
    assert!(!s.ready());
}

#[test]
fn failed_disconnections_are_errors_of_the_session() {
    let mut f = Session::open(0, false);
    let result = f.finish(Err(Error::Cancelled));
    let closed = Err(Error::Timeout("BLE disconnect".into()));
    let result = f.controller.magnetic_disconnected(result, closed);
    assert_eq!(result.unwrap_err().message(), "I/O error: operation timed out: BLE disconnect");
    assert_eq!(f.controller.magnetic.phase, MagneticPhase::Failed);
    let told = f.controller.stop(false, f.now).unwrap_err();
    assert_eq!(told.message(), "I/O error: operation timed out: BLE disconnect");

    let mut g = Session::open(0, false);
    let result = g.finish(Err(Error::Timeout("first".into())));
    let result = g.controller.magnetic_disconnected(result, Err(Error::Busy));
    assert_eq!(result.unwrap_err().message(), "operation timed out: first");
    assert_eq!(
        g.controller.magnetic.last_error.as_deref(),
        Some("operation timed out: first")
    );
    assert!(g.controller.magnetic_disconnected(Ok(()), Ok(())).is_ok());
}

#[test]
fn the_field_is_polled_five_times_a_second_and_the_switch_once() {
    let mut f = Session::open(0, false);
    let opened = f.now;
    let mut fields = Vec::new();
    let mut switches = Vec::new();
    for _ in 0..60 {
        let before = f.commands.len();
        f.poll().unwrap();
        assert_eq!(f.commands.len(), before + 1);
        match f.commands[before][3] {
            0x3a => fields.push(f.now - opened),
            _ => switches.push(f.now - opened),
        }
    }
    assert_eq!(&fields[..5], [200 * MS, 400 * MS, 600 * MS, 800 * MS, 1000 * MS]);
    assert_eq!(&switches[..2], [1000 * MS, 2000 * MS]);
    assert!(fields.windows(2).all(|w| w[1] - w[0] >= 200 * MS));
    assert!(switches.windows(2).all(|w| w[1] - w[0] >= 1000 * MS));
}

#[test]
fn windows_take_in_every_sample_until_they_end() {
    let mut s = State::new(1, 2);
    s.phase = MagneticPhase::Calibrating;
    s.owned = true;
    for xyz in [[5, -5, 0], [-7, 3, 0], [1, 1, 9]] {
        s.observe(xyz, 10, 0);
        let t = s.window.snapshot(10);
        let (low, high) = (t.minimum_counts.unwrap(), t.maximum_counts.unwrap());
        for i in 0..3 {
            assert!(low[i] <= xyz[i] && xyz[i] <= high[i]);
        }
    }
    s.observe_calsw(0, 20);
    assert_eq!(s.phase, MagneticPhase::Calibrated);
    assert!(!s.owned);
    s.observe([999, 999, 999], 30, 0);
    let t = s.window.snapshot(40);
    assert_eq!(t.minimum_counts, Some([-7, -5, 0]));
    assert_eq!(t.maximum_counts, Some([5, 3, 9]));
    assert_eq!(t.span_counts, Some([12, 8, 9]));
    assert!(t.frozen && t.sample_count == 3 && t.elapsed_ns == 10);
    assert_eq!(s.records.len(), 4);
}

#[test]
fn magnetic_commands_are_start_stop_and_save() {
    for command in [DeviceCommand::MagStart, DeviceCommand::MagStop, DeviceCommand::Save] {
        assert!(is_magnetic_command(&command));
    }
    for command in [DeviceCommand::ZeroYaw, DeviceCommand::Rate { hz: 10 }] {
        assert!(!is_magnetic_command(&command));
    }
}

#[test]
fn a_switch_that_does_not_follow_is_not_verified() {
    let first = |word: u16| Answer::Registers { words: [word, 0, 0, 0, 0, 0, 0, 0] };
    for (command, before, after) in
        [(DeviceCommand::MagStart, 0, 0), (DeviceCommand::MagStop, 7, 7), (DeviceCommand::MagStop, 7, 1)]
    {
        let mut execution = Execution::new(command);
        let mut task = execution.start();
        let mut marks = Vec::new();
        let error = loop {
            let answer = match task {
                Task::Read { address: 1, expected: Some(_) } => first(after),
                Task::Read { .. } => first(before),
                Task::Mark { mark } => {
                    marks.push(mark);
                    Answer::Done
                }
                Task::Finish => panic!("finished"),
                Task::Fail { error } => break error,
                _ => Answer::Done,
            };
            task = execution.step(answer);
        };
        assert_eq!(marks, [Mark::Enter, Mark::Announce, Mark::Sent]);
        let wanted = if matches!(command, DeviceCommand::MagStart) { 7 } else { 0 };
        assert_eq!(
            error.message(),
            format!("operation timed out: magnetic register 0x01, expected Some({wanted})")
        );
    }
    assert!(!retries(0x3a) && retries(0x01) && retries(0x72));
}
