//! What the command line decides.

use crate::clock::{elapsed, elapsed_ns};
use crate::model::{
    BleConnectionMode, Config, ConnectionState, DeviceCommand, Error, OperationOutcome, PoseInput,
    Source, TransportKind,
};
use crate::pose::{parsed, Mounting};
use vstd::prelude::*;

verus! {

/// The options that describe a device.
#[derive(Debug)]
pub struct InputArgs {
    pub source_id: Option<String>,
    pub transport: TransportKind,
    pub device: Option<String>,
    pub port: Option<String>,
    pub baud: u32,
    pub mount: Option<String>,
    pub pose_input: PoseInput,
    pub ble_mode: BleConnectionMode,
}

impl InputArgs {
    /// The mounting, or the message that refuses it. Without one the sensor's
    /// own axes are taken, unless a mounting is required.
    pub open spec fn mounting(self, required: bool) -> Result<Mounting, Seq<char>> {
        match self.mount {
            Some(text) => parsed(text@),
            None => if required {
                Err(
                    "bridge requires --mount (right,forward,up sensor axes); verify the mounting first"@,
                )
            } else {
                Ok(Mounting { right: 1, forward: 2, up: 3 })
            },
        }
    }

    /// The message that refuses the options for the source.
    pub open spec fn source_problem(self) -> Option<Seq<char>> {
        match self.transport {
            TransportKind::Ble => if self.port is Some {
                Some("--port is only valid for USB"@)
            } else if self.device is None {
                Some("BLE requires --device from scan"@)
            } else {
                None
            },
            TransportKind::Usb => if self.device is Some {
                Some("--device is only valid for BLE"@)
            } else if self.ble_mode != BleConnectionMode::Default {
                Some("--ble-mode is only valid for BLE"@)
            } else if self.port is None {
                Some("USB requires --port from scan"@)
            } else {
                None
            },
        }
    }

    pub open spec fn source(self) -> Source {
        match self.transport {
            TransportKind::Ble => Source::Ble {
                device_id: self.device->0,
                connection_mode: self.ble_mode,
            },
            TransportKind::Usb => Source::Usb { port: self.port->0, baud: self.baud },
        }
    }

    /// The configuration that the options give, without OSC output.
    pub fn config(self, require_mount: bool) -> (r: Result<Config, Error>)
        ensures
            match r {
                Ok(c) => {
                    &&& self.mounting(require_mount) is Ok
                    &&& self.source_problem() is None
                    &&& c == (Config {
                        source: self.source(),
                        source_id: self.source_id,
                        pose_input: self.pose_input,
                        mounting: Some(self.mounting(require_mount)->Ok_0),
                        osc: None,
                    })
                },
                Err(e) => if self.mounting(require_mount) is Err {
                    e.is_invalid(self.mounting(require_mount)->Err_0)
                } else {
                    self.source_problem() is Some && e.is_invalid(self.source_problem()->0)
                },
            },
    {
        let mounting = match &self.mount {
            Some(text) => Mounting::parse(text.as_str())?,
            None => {
                if require_mount {
                    return Err(
                        Error::invalid(
                            "bridge requires --mount (right,forward,up sensor axes); verify the mounting first",
                        ),
                    );
                }
                Mounting { right: 1, forward: 2, up: 3 }
            },
        };
        let source = match self.transport {
            TransportKind::Ble => {
                if self.port.is_some() {
                    return Err(Error::invalid("--port is only valid for USB"));
                }
                match self.device {
                    Some(device_id) => Source::Ble { device_id, connection_mode: self.ble_mode },
                    None => {
                        return Err(Error::invalid("BLE requires --device from scan"));
                    },
                }
            },
            TransportKind::Usb => {
                if self.device.is_some() {
                    return Err(Error::invalid("--device is only valid for BLE"));
                }
                if self.ble_mode != BleConnectionMode::Default {
                    return Err(Error::invalid("--ble-mode is only valid for BLE"));
                }
                match self.port {
                    Some(port) => Source::Usb { port, baud: self.baud },
                    None => {
                        return Err(Error::invalid("USB requires --port from scan"));
                    },
                }
            },
        };
        Ok(
            Config {
                source,
                source_id: self.source_id,
                pose_input: self.pose_input,
                mounting: Some(mounting),
                osc: None,
            },
        )
    }
}

/// What to do while an operation runs.
#[derive(Debug)]
pub enum WaitStep {
    /// Stop the operation, and report that it was cancelled.
    Stop,
    Finished,
    Failed(Error),
    Wait,
}

/// Looks at an operation that runs in the background. An interruption comes
/// before anything else.
pub fn wait_step(interrupted: bool, state: ConnectionState, last_error: Option<String>) -> (r:
    WaitStep)
    ensures
        if interrupted {
            r is Stop
        } else if state == ConnectionState::Complete {
            r is Finished
        } else if state == ConnectionState::Failed {
            r matches WaitStep::Failed(e) && (e matches Error::Io(m) && m@ == (match last_error {
                Some(t) => t@,
                None => "operation failed"@,
            }))
        } else {
            r is Wait
        },
{
    if interrupted {
        return WaitStep::Stop;
    }
    match state {
        ConnectionState::Complete => WaitStep::Finished,
        ConnectionState::Failed => WaitStep::Failed(
            Error::Io(
                match last_error {
                    Some(t) => t,
                    None => "operation failed".to_string(),
                },
            ),
        ),
        _ => WaitStep::Wait,
    }
}

/// Whether a run goes on after its state was shown.
pub fn stream_step(state: ConnectionState, last_error: Option<String>) -> (r: Result<(), Error>)
    ensures
        if state == ConnectionState::Failed {
            r matches Err(e) && (e matches Error::Io(m) && m@ == (match last_error {
                Some(t) => t@,
                None => "acquisition failed"@,
            }))
        } else {
            r is Ok
        },
{
    if state == ConnectionState::Failed {
        return Err(
            Error::Io(
                match last_error {
                    Some(t) => t,
                    None => "acquisition failed".to_string(),
                },
            ),
        );
    }
    Ok(())
}

/// Whether a run is over: it was interrupted, or its time has passed. Zero sets
/// no limit.
pub fn stream_over(interrupted: bool, duration_ns: u64, started: u64, now: u64) -> (r: bool)
    ensures
        r == (interrupted || (duration_ns > 0 && elapsed(started, now) >= duration_ns)),
{
    interrupted || (duration_ns > 0 && elapsed_ns(started, now) >= duration_ns)
}

/// A run that was stopped has failed if it gave no pose at all.
pub fn stream_result(pose_count: u64) -> (r: Result<(), Error>)
    ensures
        r is Ok <==> pose_count > 0,
        r matches Err(e) ==> e.is_unavailable("no valid poses received during this run"@),
{
    if pose_count == 0 {
        return Err(Error::unavailable("no valid poses received during this run"));
    }
    Ok(())
}

/// The exit status of the program for an error.
pub fn exit_status(error: &Error) -> (r: i32)
    ensures
        r == (if *error is Cancelled {
            130
        } else {
            1int
        }),
{
    match error {
        Error::Cancelled => 130,
        _ => 1,
    }
}

/// What a timed monitor does next.
#[derive(Debug)]
pub enum WatchStep {
    Wait,
    Finished,
    Interrupted,
    Failed(Error),
}

/// A magnetic monitor for a given time.
#[derive(Clone, Copy, Debug)]
pub struct Watch {
    pub duration_ns: u64,
    /// When samples were first seen to come in.
    pub ready: Option<u64>,
}

impl Watch {
    pub fn new(duration_ns: u64) -> (r: Watch)
        ensures
            r == (Watch { duration_ns, ready: None }),
    {
        Watch { duration_ns, ready: None }
    }

    /// With what the session shows at `now`.
    pub open spec fn seen(self, active: bool, now: u64) -> Watch {
        if active && self.ready is None {
            Watch { ready: Some(now), ..self }
        } else {
            self
        }
    }

    pub open spec fn is_over(self, now: u64) -> bool {
        self.ready matches Some(t) && elapsed(t, now) >= self.duration_ns
    }

    /// Looks at the session: an interruption comes before an error, and an error
    /// before the end of the time.
    pub fn step(
        &mut self,
        active: bool,
        last_error: Option<String>,
        interrupted: bool,
        now: u64,
    ) -> (r: WatchStep)
        ensures
            if interrupted {
                r is Interrupted && *final(self) == *old(self)
            } else if last_error is Some {
                r == WatchStep::Failed(Error::Io(last_error->0)) && *final(self) == *old(self)
            } else {
                &&& *final(self) == old(self).seen(active, now)
                &&& r == (if final(self).is_over(now) {
                    WatchStep::Finished
                } else {
                    WatchStep::Wait
                })
            },
    {
        if interrupted {
            return WatchStep::Interrupted;
        }
        if let Some(text) = last_error {
            return WatchStep::Failed(Error::Io(text));
        }
        if active && self.ready.is_none() {
            self.ready = Some(now);
        }
        match self.ready {
            Some(t) if elapsed_ns(t, now) >= self.duration_ns => WatchStep::Finished,
            _ => WatchStep::Wait,
        }
    }
}

/// The time of a monitor runs from the first sample on, also where samples fail
/// to come in later: it is over once the duration has passed since then.
pub proof fn monitors_last_from_their_first_sample(w: Watch, first: u64, active: bool, now: u64)
    requires
        w.ready is None,
        w.duration_ns <= crate::clock::MAX_AGE_NS,
        first <= now,
    ensures
        w.seen(true, first).seen(active, now).ready == Some(first),
        w.seen(true, first).seen(active, now).is_over(now) <==> now - first >= w.duration_ns,
        !w.seen(false, now).is_over(now),
{
}

/// Where a timed calibration stands.
#[derive(Clone, Copy, Debug, PartialEq, Eq, Structural)]
pub enum CalibrationStage {
    Opening,
    Starting,
    Running,
    Stopping,
    Saving,
    Over,
}

/// What a magnetic session shows of itself.
#[derive(Debug)]
pub struct SessionView {
    pub active: bool,
    pub last_error: Option<String>,
    pub outcome: Option<OperationOutcome>,
    pub register_verified: bool,
    pub completion_observed: bool,
    pub message: Option<String>,
}

/// What a timed calibration does next.
#[derive(Debug)]
pub enum CalibrationStep {
    Wait,
    Send(DeviceCommand),
    Finished,
    Interrupted,
    Failed(Error),
}

/// A calibration for a given time, saved at the end or not.
#[derive(Clone, Copy, Debug)]
pub struct Calibration {
    pub stage: CalibrationStage,
    pub duration_ns: u64,
    pub save: bool,
    /// When the calibration was seen to run.
    pub started: u64,
}

impl Calibration {
    pub fn new(duration_ns: u64, save: bool) -> (r: Calibration)
        ensures
            r == (Calibration { stage: CalibrationStage::Opening, duration_ns, save, started: 0 }),
    {
        Calibration { stage: CalibrationStage::Opening, duration_ns, save, started: 0 }
    }

    /// The operation that the present stage waits for has ended as it should.
    pub open spec fn settled(self, view: SessionView) -> bool {
        match self.stage {
            CalibrationStage::Starting => view.outcome == Some(OperationOutcome::Succeeded)
                && view.register_verified,
            CalibrationStage::Stopping => view.outcome == Some(OperationOutcome::Succeeded)
                && view.completion_observed,
            CalibrationStage::Saving => view.outcome == Some(OperationOutcome::Succeeded)
                || view.outcome == Some(OperationOutcome::Unverified),
            _ => false,
        }
    }

    /// The calibration and what it does, given what the session shows at `now`.
    pub open spec fn after(
        self,
        view: SessionView,
        interrupted: bool,
        now: u64,
        step: CalibrationStep,
        next: Calibration,
    ) -> bool {
        let over = Calibration { stage: CalibrationStage::Over, ..self };
        if interrupted {
            step is Interrupted && next == over
        } else if view.last_error is Some {
            next == over && (step matches CalibrationStep::Failed(e) && e == Error::Io(
                view.last_error->0,
            ))
        } else {
            match self.stage {
                CalibrationStage::Opening => if view.active {
                    &&& step == CalibrationStep::Send(DeviceCommand::MagStart)
                    &&& next == (Calibration { stage: CalibrationStage::Starting, ..self })
                } else {
                    step is Wait && next == self
                },
                CalibrationStage::Running => if elapsed(self.started, now) >= self.duration_ns {
                    &&& step == CalibrationStep::Send(DeviceCommand::MagStop)
                    &&& next == (Calibration { stage: CalibrationStage::Stopping, ..self })
                } else {
                    step is Wait && next == self
                },
                CalibrationStage::Over => step is Finished && next == self,
                _ => if self.settled(view) {
                    match self.stage {
                        CalibrationStage::Starting => step is Wait && next == (Calibration {
                            stage: CalibrationStage::Running,
                            started: now,
                            ..self
                        }),
                        CalibrationStage::Stopping if self.save => {
                            &&& step == CalibrationStep::Send(DeviceCommand::Save)
                            &&& next == (Calibration { stage: CalibrationStage::Saving, ..self })
                        },
                        _ => step is Finished && next == over,
                    }
                } else if view.outcome == Some(OperationOutcome::Running) {
                    step is Wait && next == self
                } else {
                    &&& next == over
                    &&& step matches CalibrationStep::Failed(e) && (e matches Error::Io(m) && m@
                        == (match view.message {
                        Some(t) => t@,
                        None => "magnetic operation failed"@,
                    }))
                },
            }
        }
    }

    pub fn step(&mut self, view: SessionView, interrupted: bool, now: u64) -> (r: CalibrationStep)
        ensures
            old(self).after(view, interrupted, now, r, *final(self)),
    {
        if interrupted {
            self.stage = CalibrationStage::Over;
            return CalibrationStep::Interrupted;
        }
        if let Some(text) = view.last_error {
            self.stage = CalibrationStage::Over;
            return CalibrationStep::Failed(Error::Io(text));
        }
        match self.stage {
            CalibrationStage::Opening => {
                if view.active {
                    self.stage = CalibrationStage::Starting;
                    return CalibrationStep::Send(DeviceCommand::MagStart);
                }
                return CalibrationStep::Wait;
            },
            CalibrationStage::Running => {
                if elapsed_ns(self.started, now) >= self.duration_ns {
                    self.stage = CalibrationStage::Stopping;
                    return CalibrationStep::Send(DeviceCommand::MagStop);
                }
                return CalibrationStep::Wait;
            },
            CalibrationStage::Over => {
                return CalibrationStep::Finished;
            },
            _ => {},
        }
        let succeeded = match view.outcome {
            Some(o) => o == OperationOutcome::Succeeded,
            None => false,
        };
        let unverified = match view.outcome {
            Some(o) => o == OperationOutcome::Unverified,
            None => false,
        };
        let running = match view.outcome {
            Some(o) => o == OperationOutcome::Running,
            None => false,
        };
        let settled = match self.stage {
            CalibrationStage::Starting => succeeded && view.register_verified,
            CalibrationStage::Stopping => succeeded && view.completion_observed,
            _ => succeeded || unverified,
        };
        if settled {
            if self.stage == CalibrationStage::Starting {
                self.stage = CalibrationStage::Running;
                self.started = now;
                return CalibrationStep::Wait;
            }
            if self.stage == CalibrationStage::Stopping && self.save {
                self.stage = CalibrationStage::Saving;
                return CalibrationStep::Send(DeviceCommand::Save);
            }
            self.stage = CalibrationStage::Over;
            return CalibrationStep::Finished;
        }
        if running {
            return CalibrationStep::Wait;
        }
        self.stage = CalibrationStage::Over;
        CalibrationStep::Failed(
            Error::Io(
                match view.message {
                    Some(t) => t,
                    None => "magnetic operation failed".to_string(),
                },
            ),
        )
    }
}

/// A calibration is saved only if that was asked for, once its end has been
/// verified, and not where it was interrupted.
pub proof fn saving_follows_a_verified_end(
    c: Calibration,
    view: SessionView,
    interrupted: bool,
    now: u64,
    step: CalibrationStep,
    next: Calibration,
)
    requires
        c.after(view, interrupted, now, step, next),
        step == CalibrationStep::Send(DeviceCommand::Save),
    ensures
        c.save,
        !interrupted,
        c.stage == CalibrationStage::Stopping,
        view.outcome == Some(OperationOutcome::Succeeded),
        view.completion_observed,
{
}

/// The options of a transport name its device: a Bluetooth identifier and no port,
/// or a port and neither an identifier nor a connection preference.
pub proof fn options_name_the_device_of_their_transport(a: InputArgs)
    ensures
        a.source_problem() is None <==> match a.transport {
            TransportKind::Ble => a.device is Some && a.port is None,
            TransportKind::Usb => a.port is Some && a.device is None && a.ble_mode
                == BleConnectionMode::Default,
        },
        a.source_problem() is None ==> match a.source() {
            Source::Ble { device_id, connection_mode } => a.transport == TransportKind::Ble
                && a.device == Some(device_id) && connection_mode == a.ble_mode,
            Source::Usb { port, baud } => a.transport == TransportKind::Usb && a.port == Some(port)
                && baud == a.baud,
            Source::Simulate { .. } => false,
        },
{
}

/// A mounting that is given is the one that its text denotes; without one the
/// sensor's axes are the head's, unless one is required.
pub proof fn mountings_are_given_or_the_sensors_own(a: InputArgs, required: bool)
    ensures
        a.mount matches Some(text) ==> a.mounting(required) == parsed(text@),
        a.mount is None && required ==> a.mounting(required) is Err,
        a.mount is None && !required ==> (a.mounting(required) matches Ok(m) && m.problem() is None
            && forall|v: crate::pose::Vector| #[trigger] m.rotate(v) == v),
{
    if a.mount is None && !required {
        let m = a.mounting(required)->Ok_0;
        crate::pose::mountings_are_right_handed_bases(m);
        let x = crate::pose::unit_along(1);
        let y = crate::pose::unit_along(2);
        assert(x.x == 1 && x.y == 0 && x.z == 0);
        assert(y.x == 0 && y.y == 1 && y.z == 0);
        assert(x.x * y.y == 1 && x.y * y.x == 0 && x.y * y.z == 0 && x.z * y.y == 0 && x.z * y.x
            == 0 && x.x * y.z == 0) by (nonlinear_arith)
            requires
                x.x == 1,
                x.y == 0,
                x.z == 0,
                y.x == 0,
                y.y == 1,
                y.z == 0,
        ;
        assert(crate::pose::cross(x, y) == crate::pose::unit_along(3));
        assert forall|v: crate::pose::Vector| #[trigger] m.rotate(v) == v by {
            assert(m.rotate(v).x == 1 * v.x + 0 * v.y + 0 * v.z);
            assert(m.rotate(v).y == 0 * v.x + 1 * v.y + 0 * v.z);
            assert(m.rotate(v).z == 0 * v.x + 0 * v.y + 1 * v.z);
        }
    }
}

/// A calibration that nothing disturbs sends a start once samples come in, a stop
/// once its time has passed since the start was verified, and a saving only where
/// that was asked for; then it is finished.
pub proof fn calibrations_run_their_course(
    c: Calibration,
    view: SessionView,
    now: u64,
    step: CalibrationStep,
    next: Calibration,
)
    requires
        view.last_error is None,
        c.after(view, false, now, step, next),
    ensures
        step == CalibrationStep::Send(DeviceCommand::MagStart) <==> c.stage
            == CalibrationStage::Opening && view.active,
        step == CalibrationStep::Send(DeviceCommand::MagStop) <==> c.stage
            == CalibrationStage::Running && elapsed(c.started, now) >= c.duration_ns,
        next.stage == CalibrationStage::Running && c.stage != CalibrationStage::Running ==> {
            &&& c.stage == CalibrationStage::Starting
            &&& view.outcome == Some(OperationOutcome::Succeeded)
            &&& view.register_verified
            &&& next.started == now
        },
        c.stage == CalibrationStage::Stopping && view.outcome == Some(OperationOutcome::Succeeded)
            && view.completion_observed ==> if c.save {
            step == CalibrationStep::Send(DeviceCommand::Save)
        } else {
            step is Finished
        },
        step is Failed ==> view.outcome != Some(OperationOutcome::Running),
        next.save == c.save && next.duration_ns == c.duration_ns,
{
}

/// An interruption ends a calibration at once, and so does an error of the
/// session, and neither sends anything.
pub proof fn disturbed_calibrations_send_nothing(
    c: Calibration,
    view: SessionView,
    interrupted: bool,
    now: u64,
    step: CalibrationStep,
    next: Calibration,
)
    requires
        interrupted || view.last_error is Some,
        c.after(view, interrupted, now, step, next),
    ensures
        next.stage == CalibrationStage::Over,
        step is Interrupted <==> interrupted,
        !interrupted ==> step == CalibrationStep::Failed(Error::Io(view.last_error->0)),
{
}

} // verus!
