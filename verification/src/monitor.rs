//! How a magnetic session proceeds: opening reads, polling, commands and the
//! cleanup at its end.

use crate::controller::Controller;
use crate::magnetic::{
    self, is_magnetic, scale_of, verified_only_if_read_back, Answer, Execution, MagneticPhase, Mark,
    Step, Window, CALSW_REGISTER, CONTROL_INTERVAL_NS, FIELD_REGISTER, POLL_INTERVAL_NS,
    TYPE_REGISTER,
};
use crate::model::{
    is_identifier, ConnectionState, DeviceCommand, DeviceObservation, Error, OperationOutcome,
    OperationStatus, ReferenceReason, SourceDescriptor, StatusSnapshot,
};
use crate::text::decimal;
use vstd::prelude::*;

verus! {

/// The phase that a command enters.
pub open spec fn phase_of(command: DeviceCommand) -> MagneticPhase {
    if command is MagStart {
        MagneticPhase::Starting
    } else if command is MagStop {
        MagneticPhase::Stopping
    } else {
        MagneticPhase::Saving
    }
}

/// What a mark leaves of the operation that it belongs to.
pub open spec fn marked(
    before: OperationStatus,
    after: OperationStatus,
    mark: Mark,
    command: DeviceCommand,
) -> bool {
    match mark {
        Mark::Enter => after == before,
        Mark::Announce => {
            &&& after == (OperationStatus {
                write_attempted: true,
                reference_may_have_changed: !(command is Save),
                persistence: after.persistence,
                ..before
            })
            &&& after.persistence@ == (if command is Save {
                "unverified"@
            } else {
                before.persistence@
            })
        },
        Mark::Sent => after == (OperationStatus { command_sent: true, ..before }),
        Mark::Saved => {
            &&& after == (OperationStatus {
                outcome: OperationOutcome::Unverified,
                message: after.message,
                ..before
            })
            &&& after.message matches Some(m) && m@
                == "SAVE sent; power-cycle persistence unverified"@
        },
        Mark::Verified => {
            &&& after == (OperationStatus {
                register_verified: true,
                completion_observed: command is MagStop,
                outcome: OperationOutcome::Succeeded,
                message: after.message,
                ..before
            })
            &&& after.message matches Some(m) && m@
                == "CALSW verified; accuracy unverified; no SAVE sent"@
        },
    }
}

pub open spec fn marked_option(
    before: Option<OperationStatus>,
    after: Option<OperationStatus>,
    mark: Mark,
    command: DeviceCommand,
) -> bool {
    match before {
        None => after is None,
        Some(b) => after matches Some(a) && marked(b, a, mark, command),
    }
}

fn mark_operation(operation: &mut Option<OperationStatus>, mark: Mark, command: &DeviceCommand)
    ensures
        marked_option(*old(operation), *final(operation), mark, *command),
{
    if let Some(op) = operation {
        match mark {
            Mark::Enter => {},
            Mark::Announce => {
                let saving = matches!(command, DeviceCommand::Save);
                op.write_attempted = true;
                op.reference_may_have_changed = !saving;
                if saving {
                    op.persistence = "unverified".to_string();
                }
            },
            Mark::Sent => {
                op.command_sent = true;
            },
            Mark::Saved => {
                op.outcome = OperationOutcome::Unverified;
                op.message = Some("SAVE sent; power-cycle persistence unverified".to_string());
            },
            Mark::Verified => {
                op.register_verified = true;
                op.completion_observed = matches!(command, DeviceCommand::MagStop);
                op.outcome = OperationOutcome::Succeeded;
                op.message = Some("CALSW verified; accuracy unverified; no SAVE sent".to_string());
            },
        }
    }
}

/// The session after a mark. A start is owned before it is written; a new
/// window opens once a calibration is seen to run, and ends with it.
pub open spec fn session_marked(
    b: magnetic::State,
    a: magnetic::State,
    mark: Mark,
    command: DeviceCommand,
    previous: MagneticPhase,
    now: u64,
) -> bool {
    match mark {
        Mark::Enter => a == (magnetic::State { phase: phase_of(command), ..b }),
        Mark::Announce => a == (magnetic::State { owned: b.owned || command is MagStart, ..b }),
        Mark::Sent => a == b,
        Mark::Saved => a == (magnetic::State { phase: previous, ..b }),
        Mark::Verified => if command is MagStart {
            &&& a == (magnetic::State { window: a.window, phase: MagneticPhase::Calibrating, ..b })
            &&& a.window == Window::opened(a.window.id)
            &&& is_identifier(a.window.id)
        } else {
            a == (magnetic::State {
                owned: false,
                window: b.window.ended(now),
                phase: MagneticPhase::Calibrated,
                ..b
            })
        },
    }
}

impl Controller {
    /// Records that a magnetic command has come to a mark. `previous` is the
    /// phase in which the command was taken up.
    pub fn magnetic_mark(
        &mut self,
        mark: Mark,
        command: &DeviceCommand,
        cleanup: bool,
        previous: MagneticPhase,
        now: u64,
    )
        requires
            old(self).wf(),
            mark == Mark::Announce ==> old(self).descriptor.metadata_revision < u64::MAX,
            mark == Mark::Announce ==> old(self).descriptor.reference_epoch < u64::MAX,
            is_magnetic(*command),
        ensures
            final(self).wf(),
            ({
                let b = *old(self);
                let a = *final(self);
                &&& a == (Controller {
                    descriptor: if mark == Mark::Announce {
                        SourceDescriptor {
                            device: DeviceObservation { valid: false, ..b.descriptor.device },
                            metadata_revision: (b.descriptor.metadata_revision + 1) as u64,
                            reference_epoch: if command is Save {
                                b.descriptor.reference_epoch
                            } else {
                                (b.descriptor.reference_epoch + 1) as u64
                            },
                            reference_reason: if command is Save {
                                b.descriptor.reference_reason
                            } else if cleanup {
                                ReferenceReason::MagneticCleanup
                            } else {
                                ReferenceReason::MagneticControl
                            },
                            ..b.descriptor
                        }
                    } else {
                        b.descriptor
                    },
                    operation: a.operation,
                    magnetic: a.magnetic,
                    ..b
                })
                &&& session_marked(
                    magnetic::State { cleanup: a.magnetic.cleanup, ..b.magnetic },
                    a.magnetic,
                    mark,
                    *command,
                    previous,
                    now,
                )
                &&& if cleanup {
                    &&& marked_option(b.magnetic.cleanup, a.magnetic.cleanup, mark, *command)
                    &&& a.operation == b.operation
                } else {
                    &&& marked_option(b.operation, a.operation, mark, *command)
                    &&& a.magnetic.cleanup == b.magnetic.cleanup
                }
            }),
    {
        let starting = matches!(command, DeviceCommand::MagStart);
        let saving = matches!(command, DeviceCommand::Save);
        match mark {
            Mark::Enter => {
                self.magnetic.phase = match command {
                    DeviceCommand::MagStart => MagneticPhase::Starting,
                    DeviceCommand::MagStop => MagneticPhase::Stopping,
                    _ => MagneticPhase::Saving,
                };
            },
            Mark::Announce => {
                self.descriptor.device.valid = false;
                self.descriptor.metadata_revision = self.descriptor.metadata_revision + 1;
                if !saving {
                    self.descriptor.reference_epoch = self.descriptor.reference_epoch + 1;
                    self.descriptor.reference_reason = if cleanup {
                        ReferenceReason::MagneticCleanup
                    } else {
                        ReferenceReason::MagneticControl
                    };
                }
                if starting {
                    self.magnetic.owned = true;
                }
            },
            Mark::Sent => {},
            Mark::Saved => {
                self.magnetic.phase = previous;
            },
            Mark::Verified => {
                if starting {
                    self.magnetic.window = Window::default();
                    self.magnetic.phase = MagneticPhase::Calibrating;
                } else {
                    self.magnetic.owned = false;
                    if self.magnetic.window.end.is_none() {
                        self.magnetic.window.end = Some(now);
                    }
                    self.magnetic.phase = MagneticPhase::Calibrated;
                }
            },
        }
        if cleanup {
            mark_operation(&mut self.magnetic.cleanup, mark, command);
        } else {
            mark_operation(&mut self.operation, mark, command);
        }
    }

    /// The connection of a magnetic session is open.
    pub fn magnetic_opened(&mut self)
        requires
            old(self).wf(),
        ensures
            final(self).wf(),
            *final(self) == (Controller {
                status: StatusSnapshot { state: ConnectionState::Magnetic, ..old(self).status },
                ..*old(self)
            }),
    {
        self.status.state = ConnectionState::Magnetic;
    }

    /// What the end of a magnetic command gives, and leaves.
    pub open spec fn command_ends_as(
        self,
        result: Result<(), Error>,
        r: Result<(), Error>,
        after: Controller,
    ) -> bool {
        &&& match result {
            Ok(()) => r is Ok && after == self,
            Err(e) => {
                &&& if e is Invalid {
                    r is Ok
                } else {
                    r == Err::<(), Error>(e)
                }
                &&& after == (Controller {
                    operation: after.operation,
                    ..self
                })
                &&& match self.operation {
                    None => after.operation is None,
                    Some(before) => after.operation matches Some(op) && op == (
                    OperationStatus {
                        outcome: if e is Cancelled {
                            OperationOutcome::Cancelled
                        } else {
                            OperationOutcome::Failed
                        },
                        message: op.message,
                        ..before
                    }) && (op.message matches Some(m) && m@ == e.text()),
                }
            },
        }
    }

    /// A magnetic command has ended. One that was not allowed leaves the session
    /// open; any other failure ends it.
    pub fn magnetic_command_finished(&mut self, result: Result<(), Error>) -> (r: Result<
        (),
        Error,
    >)
        requires
            old(self).wf(),
        ensures
            final(self).wf(),
            old(self).command_ends_as(result, r, *final(self)),
    {
        match result {
            Ok(()) => Ok(()),
            Err(error) => {
                if let Some(op) = &mut self.operation {
                    op.outcome = if matches!(error, Error::Cancelled) {
                        OperationOutcome::Cancelled
                    } else {
                        OperationOutcome::Failed
                    };
                    op.message = Some(error.message());
                }
                if matches!(error, Error::Invalid(_)) {
                    Ok(())
                } else {
                    Err(error)
                }
            },
        }
    }

    /// Whether the end of monitoring calls for a cleanup, and what it leaves.
    pub open spec fn monitoring_ends_as(
        self,
        r: bool,
        after: Controller,
    ) -> bool {
        &&& r == self.magnetic.owned
        &&& after == (Controller {
            magnetic: magnetic::State {
                running: false,
                cleanup: after.magnetic.cleanup,
                ..self.magnetic
            },
            ..self
        })
        &&& if r {
            after.magnetic.cleanup matches Some(op) && op.begins(
                Some(self.descriptor.source_id),
            ) && op.action@ == "mag_stop_cleanup"@
        } else {
            after.magnetic.cleanup == self.magnetic.cleanup
        }
    }

    /// Monitoring is over. Whether a calibration of this session must be ended.
    pub fn monitoring_ended(&mut self) -> (r: bool)
        requires
            old(self).wf(),
        ensures
            final(self).wf(),
            old(self).monitoring_ends_as(r, *final(self)),
    {
        self.magnetic.running = false;
        if self.magnetic.owned {
            let mut op = OperationStatus::new("mag_stop_cleanup".to_string());
            op.source_id = Some(self.descriptor.source_id.clone());
            self.magnetic.cleanup = Some(op);
            return true;
        }
        false
    }

    /// A cleanup has failed: what it leaves open, and the error of the session.
    pub fn cleanup_failed(&mut self, error: Error) -> (r: Error)
        requires
            old(self).wf(),
        ensures
            final(self).wf(),
            r matches Error::Io(m) && m@ == error.text()
                + "; device may still be calibrating; reconnect and explicitly mag_stop"@,
            *final(self) == (Controller {
                magnetic: magnetic::State {
                    cleanup: final(self).magnetic.cleanup,
                    ..old(self).magnetic
                },
                ..*old(self)
            }),
            match old(self).magnetic.cleanup {
                None => final(self).magnetic.cleanup is None,
                Some(before) => final(self).magnetic.cleanup matches Some(op) && op == (
                OperationStatus {
                    outcome: OperationOutcome::Failed,
                    message: op.message,
                    ..before
                }) && (op.message matches Some(m) && m@ == error.text()
                    + "; device may still be calibrating; reconnect and explicitly mag_stop"@),
            },
    {
        let mut text = error.message();
        text.append("; device may still be calibrating; reconnect and explicitly mag_stop");
        if let Some(op) = &mut self.magnetic.cleanup {
            op.outcome = OperationOutcome::Failed;
            op.message = Some(text.clone());
        }
        Error::Io(text)
    }

    /// What the end of a magnetic session leaves.
    pub open spec fn session_ends_as(
        self,
        result: Result<(), Error>,
        now: u64,
        after: Controller,
    ) -> bool {
        &&& ({
            let failed = result is Err && !(result->Err_0 is Cancelled);
            &&& after == (Controller {
                magnetic: magnetic::State {
                    running: false,
                    window: self.magnetic.window.ended(now),
                    phase: if failed {
                        MagneticPhase::Failed
                    } else {
                        MagneticPhase::Closed
                    },
                    last_error: after.magnetic.last_error,
                    ..self.magnetic
                },
                ..self
            })
            &&& if failed {
                after.magnetic.last_error matches Some(m) && m@ == result->Err_0.text()
            } else {
                after.magnetic.last_error is None
            }
        })
    }

    /// A magnetic session is over; cancelling it is no failure.
    pub fn magnetic_finished(&mut self, result: &Result<(), Error>, now: u64)
        requires
            old(self).wf(),
        ensures
            final(self).wf(),
            old(self).session_ends_as(*result, now, *final(self)),
    {
        let error = match result {
            Ok(()) => None,
            Err(e) => {
                if matches!(e, Error::Cancelled) {
                    None
                } else {
                    Some(e.message())
                }
            },
        };
        self.magnetic.finish(error, now);
    }

    /// The connection of a magnetic session was closed after the session ended
    /// with `result`. A failure to disconnect is an error of the session, unless
    /// it has one already.
    pub fn magnetic_disconnected(
        &mut self,
        result: Result<(), Error>,
        closed: Result<(), Error>,
    ) -> (r: Result<(), Error>)
        requires
            old(self).wf(),
        ensures
            final(self).wf(),
            match closed {
                Err(e) if old(self).magnetic.last_error is None => {
                    &&& r matches Err(f) && (f matches Error::Io(m) && m@ == e.text())
                    &&& final(self).magnetic.last_error matches Some(m) && m@ == e.text()
                    &&& *final(self) == (Controller {
                        magnetic: magnetic::State {
                            phase: MagneticPhase::Failed,
                            last_error: final(self).magnetic.last_error,
                            ..old(self).magnetic
                        },
                        ..*old(self)
                    })
                },
                _ => r == result && *final(self) == *old(self),
            },
    {
        match closed {
            Ok(()) => result,
            Err(error) => {
                if self.magnetic.last_error.is_some() {
                    return result;
                }
                let text = error.message();
                self.magnetic.phase = MagneticPhase::Failed;
                self.magnetic.last_error = Some(text.clone());
                Err(Error::Io(text))
            },
        }
    }
}

/// Where a monitor stands.
#[derive(Clone, Copy, Debug, PartialEq, Eq, Structural)]
pub enum Stage {
    Type,
    Calsw,
    Field,
    Watching,
}

/// The register reads of a magnetic session that is left to itself. It asks for
/// one register at a time, and never for a write.
#[derive(Clone, Copy, Debug)]
pub struct Monitor {
    pub stage: Stage,
    /// When the field, and when the calibration switch, is read next.
    pub next_field: u128,
    pub next_control: u128,
}

impl Monitor {
    /// The first read is that of the sensor's type.
    pub fn new() -> (r: Monitor)
        ensures
            r == (Monitor { stage: Stage::Type, next_field: 0, next_control: 0 }),
    {
        Monitor { stage: Stage::Type, next_field: 0, next_control: 0 }
    }

    pub open spec fn wanted(self) -> Option<u16> {
        match self.stage {
            Stage::Type => Some(TYPE_REGISTER),
            Stage::Calsw => Some(CALSW_REGISTER),
            Stage::Field => Some(FIELD_REGISTER),
            Stage::Watching => None,
        }
    }

    /// The register to read while the session opens; then `None`.
    pub fn opening_read(&self) -> (r: Option<u16>)
        ensures
            r == self.wanted(),
    {
        match self.stage {
            Stage::Type => Some(TYPE_REGISTER),
            Stage::Calsw => Some(CALSW_REGISTER),
            Stage::Field => Some(FIELD_REGISTER),
            Stage::Watching => None,
        }
    }

    /// What a read gives, and leaves.
    pub open spec fn reads_as(
        self,
        before_c: Controller,
        after_c: Controller,
        result: Result<[u16; 8], Error>,
        now: u64,
        r: Result<(), Error>,
        after: Monitor,
    ) -> bool {
        &&& match result {
            Err(e) => if self.stage == Stage::Type && !(e is Cancelled) {
                &&& r is Ok
                &&& after == (Monitor { stage: Stage::Calsw, ..self })
                &&& after_c == (Controller {
                    magnetic: magnetic::State {
                        type_error: after_c.magnetic.type_error,
                        ..before_c.magnetic
                    },
                    ..before_c
                })
                &&& after_c.magnetic.type_error matches Some(m) && m@ == e.text()
            } else {
                r == Err::<(), Error>(e) && after == self && after_c
                    == before_c
            },
            Ok(words) => {
                &&& r is Ok
                &&& match self.stage {
                    Stage::Type => {
                        &&& after == (Monitor { stage: Stage::Calsw, ..self })
                        &&& after_c == (Controller {
                            magnetic: magnetic::State {
                                sensor_type: Some(words[0]),
                                type_error: after_c.magnetic.type_error,
                                ..before_c.magnetic
                            },
                            ..before_c
                        })
                        &&& if scale_of(words[0]) is None {
                            after_c.magnetic.type_error matches Some(m) && m@
                                == "unknown magnetic sensor type "@ + decimal(words[0] as nat)
                                + "; units unavailable"@
                        } else {
                            after_c.magnetic.type_error == before_c.magnetic.type_error
                        }
                    },
                    Stage::Calsw => {
                        &&& after == (Monitor { stage: Stage::Field, ..self })
                        &&& after_c == (Controller {
                            magnetic: magnetic::State {
                                phase: if words[0] == 7 {
                                    MagneticPhase::ExternalCalibration
                                } else {
                                    MagneticPhase::Monitoring
                                },
                                ..before_c.magnetic
                            },
                            ..before_c
                        })
                    },
                    Stage::Field => {
                        &&& after == (Monitor {
                            stage: Stage::Watching,
                            next_field: (now + POLL_INTERVAL_NS) as u128,
                            next_control: (now + CONTROL_INTERVAL_NS) as u128,
                        })
                        &&& after_c == before_c
                    },
                    Stage::Watching => after == self && after_c == before_c,
                }
            },
        }
    }

    /// Takes how a read went. A sensor whose type cannot be read is monitored
    /// in counts; any other failure ends the session.
    pub fn read_finished(
        &mut self,
        controller: &mut Controller,
        result: Result<[u16; 8], Error>,
        now: u64,
    ) -> (r: Result<(), Error>)
        requires
            old(controller).wf(),
        ensures
            final(controller).wf(),
            old(self).reads_as(*old(controller), *final(controller), result, now, r, *final(self)),
    {
        match result {
            Err(error) => {
                if self.stage == Stage::Type && !matches!(error, Error::Cancelled) {
                    controller.magnetic.type_error = Some(error.message());
                    self.stage = Stage::Calsw;
                    Ok(())
                } else {
                    Err(error)
                }
            },
            Ok(words) => {
                match self.stage {
                    Stage::Type => {
                        controller.magnetic.observe_type(words[0]);
                        self.stage = Stage::Calsw;
                    },
                    Stage::Calsw => {
                        controller.magnetic.phase = if words[0] == 7 {
                            MagneticPhase::ExternalCalibration
                        } else {
                            MagneticPhase::Monitoring
                        };
                        self.stage = Stage::Field;
                    },
                    Stage::Field => {
                        self.stage = Stage::Watching;
                        self.next_field = now as u128 + POLL_INTERVAL_NS as u128;
                        self.next_control = now as u128 + CONTROL_INTERVAL_NS as u128;
                    },
                    Stage::Watching => {},
                }
                Ok(())
            },
        }
    }

    /// Whether the calibration switch is read next, and not the field.
    pub open spec fn control_next(self) -> bool {
        self.next_control <= self.next_field
    }

    pub open spec fn next_time(self) -> u128 {
        if self.control_next() {
            self.next_control
        } else {
            self.next_field
        }
    }

    /// When the next read is due.
    pub fn deadline(&self) -> (r: u128)
        ensures
            r == self.next_time(),
    {
        if self.next_control <= self.next_field {
            self.next_control
        } else {
            self.next_field
        }
    }

    /// With the read that was due done at `now`.
    pub open spec fn polled(self, now: u64) -> Monitor {
        if self.control_next() {
            Monitor { next_control: (now + CONTROL_INTERVAL_NS) as u128, ..self }
        } else {
            Monitor { next_field: (now + POLL_INTERVAL_NS) as u128, ..self }
        }
    }

    /// A read is due: which register it is. The calibration switch goes first.
    pub fn due(&mut self, now: u64) -> (r: u16)
        ensures
            r == (if old(self).control_next() {
                CALSW_REGISTER
            } else {
                FIELD_REGISTER
            }),
            *final(self) == old(self).polled(now),
    {
        if self.next_control <= self.next_field {
            self.next_control = now as u128 + CONTROL_INTERVAL_NS as u128;
            CALSW_REGISTER
        } else {
            self.next_field = now as u128 + POLL_INTERVAL_NS as u128;
            FIELD_REGISTER
        }
    }
}

/// The field is read 200 ms after it was read last, or later, and the calibration
/// switch a second after.
pub proof fn polls_are_spaced(m: Monitor, read_at: u64, now: u64)
    requires
        now >= m.next_time(),
    ensures
        !m.control_next() && m.next_field == read_at + POLL_INTERVAL_NS ==> now >= read_at
            + 200_000_000,
        m.control_next() && m.next_control == read_at + CONTROL_INTERVAL_NS ==> now >= read_at
            + 1_000_000_000,
{
}

/// A command gives up the session's ownership of a calibration only at the mark
/// that follows a reading of the calibration switch as idle, and takes it before
/// a start is written. Until then a cleanup ends what this session has begun.
pub proof fn ownership_lasts_until_the_end_is_seen(
    e: Execution,
    answer: Answer,
    b: magnetic::State,
    a: magnetic::State,
    mark: Mark,
    previous: MagneticPhase,
    now: u64,
)
    requires
        e.wf(),
        e.proceeds(answer),
        e.steps@[e.index + 1] == (Step::Mark { mark }),
        session_marked(b, a, mark, e.command, previous, now),
    ensures
        mark == Mark::Announce && e.command is MagStart ==> a.owned,
        b.owned && !a.owned ==> {
            &&& e.command is MagStop
            &&& e.steps@[e.index as int] == (Step::Expect { value: 0 })
            &&& answer matches Answer::Registers { words } && words[0] == 0
        },
{
    if mark == Mark::Verified {
        verified_only_if_read_back(e, answer);
    }
}

/// While the session's own calibration runs, only the calibration switch
/// showing its end gives up ownership.
pub proof fn readings_give_up_ownership_only_at_the_end(
    r: magnetic::Readings,
    identity: magnetic::Identity,
    frame: crate::protocol::Frame,
    at: u64,
    start: u64,
)
    requires
        r.owned,
        !r.with_frame(identity, frame, at, start).owned,
    ensures
        r.phase == MagneticPhase::Calibrating,
        r.with_frame(identity, frame, at, start).phase == MagneticPhase::Calibrated,
        r.with_frame(identity, frame, at, start).calsw == Some(0u16),
        r.with_frame(identity, frame, at, start).window.end is Some,
{
}

/// What was read is due again 200 ms later if it is the field, and a second later
/// if it is the calibration switch; the switch goes first where both are due, and
/// a read leaves the time of the other as it was.
pub proof fn polls_come_in_turn(m: Monitor, now: u64)
    ensures
        ({
            let n = m.polled(now);
            &&& m.next_control <= m.next_field ==> n.next_control == now + 1_000_000_000
                && n.next_field == m.next_field
            &&& m.next_field < m.next_control ==> n.next_field == now + 200_000_000
                && n.next_control == m.next_control
            &&& n.stage == m.stage
            &&& m.next_time() <= m.next_control && m.next_time() <= m.next_field
            &&& m.next_time() == m.next_control || m.next_time() == m.next_field
        }),
{
}

/// A session opens by reading the sensor's type, register 0x72, then the
/// calibration switch, register 1, then the field, register 0x3a.
pub proof fn sessions_open_in_order(m: Monitor)
    ensures
        m.stage == Stage::Type ==> m.wanted() == Some(0x72u16),
        m.stage == Stage::Calsw ==> m.wanted() == Some(0x01u16),
        m.stage == Stage::Field ==> m.wanted() == Some(0x3au16),
        m.stage == Stage::Watching ==> m.wanted() is None,
{
}

/// A magnetic command is in its own phase while it is carried out, and leaves the
/// session calibrating after a start, calibrated after a stop, and as it was
/// after saving.
pub proof fn commands_go_through_their_phases(
    b: magnetic::State,
    a: magnetic::State,
    mark: Mark,
    command: DeviceCommand,
    previous: MagneticPhase,
    now: u64,
)
    requires
        is_magnetic(command),
        session_marked(b, a, mark, command, previous, now),
    ensures
        mark == Mark::Enter && command is MagStart ==> a.phase == MagneticPhase::Starting,
        mark == Mark::Enter && command is MagStop ==> a.phase == MagneticPhase::Stopping,
        mark == Mark::Enter && command is Save ==> a.phase == MagneticPhase::Saving,
        mark == Mark::Saved ==> a.phase == previous,
        mark == Mark::Verified && command is MagStart ==> {
            &&& a.phase == MagneticPhase::Calibrating
            &&& a.window.count == 0 && a.window.end is None && a.window.minimum is None
        },
        mark == Mark::Verified && command is MagStop ==> {
            &&& a.phase == MagneticPhase::Calibrated
            &&& a.window.end is Some
            &&& !a.owned
        },
        mark == Mark::Announce || mark == Mark::Sent ==> a.phase == b.phase,
        a.records@ == b.records@ && a.sequence == b.sequence && a.calsw == b.calsw,
{
}

/// What the operation of a magnetic command says: that a write was attempted from
/// before it is sent, that it was sent once it is, and that it was verified only
/// at its verification. A saving is never verified, and only a saving touches what
/// the device keeps.
pub proof fn operations_say_how_far_they_came(
    b: OperationStatus,
    a: OperationStatus,
    mark: Mark,
    command: DeviceCommand,
)
    requires
        is_magnetic(command),
        marked(b, a, mark, command),
    ensures
        a.write_attempted <==> b.write_attempted || mark == Mark::Announce,
        a.command_sent <==> b.command_sent || mark == Mark::Sent,
        a.register_verified <==> b.register_verified || mark == Mark::Verified,
        a.completion_observed && !b.completion_observed ==> mark == Mark::Verified && command
            is MagStop,
        mark == Mark::Verified && command is MagStop ==> a.completion_observed,
        mark == Mark::Verified ==> a.outcome == OperationOutcome::Succeeded,
        mark == Mark::Saved ==> a.outcome == OperationOutcome::Unverified,
        mark != Mark::Verified && mark != Mark::Saved ==> a.outcome == b.outcome && a.message
            == b.message,
        mark == Mark::Announce ==> a.reference_may_have_changed == !(command is Save),
        mark == Mark::Announce && command is Save ==> a.persistence@ == "unverified"@,
        mark != Mark::Announce || !(command is Save) ==> a.persistence@ == b.persistence@,
        a.id == b.id && a.action == b.action && a.source_id == b.source_id,
{
}

/// A command that was not allowed leaves the session open, any other failure ends
/// it; the operation says which of being cancelled or failing it was.
pub proof fn refused_commands_leave_the_session_open(
    c: Controller,
    result: Result<(), Error>,
    r: Result<(), Error>,
    after: Controller,
)
    requires
        c.command_ends_as(result, r, after),
    ensures
        r is Ok <==> result is Ok || result->Err_0 is Invalid,
        result is Ok ==> after == c,
        r is Err ==> r == result,
        result is Err && c.operation is Some ==> {
            &&& after.operation is Some
            &&& after.operation->0.outcome == (if result->Err_0 is Cancelled {
                OperationOutcome::Cancelled
            } else {
                OperationOutcome::Failed
            })
            &&& after.operation->0.message is Some && after.operation->0.message->0@
                == result->Err_0.text()
        },
        after.magnetic == c.magnetic,
{
}

/// A cleanup is called for exactly where a calibration of this session may still
/// run; it is an operation of its own beside the requested one.
pub proof fn owned_calibrations_call_for_a_cleanup(c: Controller, r: bool, after: Controller)
    requires
        c.monitoring_ends_as(r, after),
    ensures
        r == c.magnetic.owned,
        !after.magnetic.running,
        after.magnetic.owned == c.magnetic.owned,
        after.operation == c.operation,
        r ==> after.magnetic.cleanup is Some && after.magnetic.cleanup->0.outcome
            == OperationOutcome::Running && after.magnetic.cleanup->0.action@
            == "mag_stop_cleanup"@,
        !r ==> after.magnetic.cleanup == c.magnetic.cleanup,
{
}

/// A session that was cancelled is closed, one that failed has failed and says
/// why; its samples stay, and nothing of it is active any more.
pub proof fn sessions_end_closed_or_failed(
    c: Controller,
    result: Result<(), Error>,
    now: u64,
    after: Controller,
    later: u64,
)
    requires
        c.session_ends_as(result, now, after),
    ensures
        result is Ok || result->Err_0 is Cancelled ==> after.magnetic.phase == MagneticPhase::Closed
            && after.magnetic.last_error is None,
        result is Err && !(result->Err_0 is Cancelled) ==> after.magnetic.phase
            == MagneticPhase::Failed && after.magnetic.last_error is Some
            && after.magnetic.last_error->0@ == result->Err_0.text(),
        after.magnetic.records@ == c.magnetic.records@,
        after.magnetic.window.end is Some,
        !after.magnetic.is_active(later),
{
}

/// A session that opens goes on to its next read with every reply; a type that
/// cannot be read, or is not known, leaves it without a unit and is told. A switch
/// that reads 7 shows somebody else's calibration. Any other failure, and being
/// cancelled, ends it.
pub proof fn sessions_open_step_by_step(
    m: Monitor,
    c: Controller,
    after_c: Controller,
    result: Result<[u16; 8], Error>,
    now: u64,
    r: Result<(), Error>,
    after: Monitor,
)
    requires
        m.reads_as(c, after_c, result, now, r, after),
    ensures
        r is Ok <==> result is Ok || (m.stage == Stage::Type && !(result->Err_0 is Cancelled)),
        r is Ok && m.stage == Stage::Type ==> after.stage == Stage::Calsw,
        r is Ok && m.stage == Stage::Calsw ==> after.stage == Stage::Field,
        r is Ok && m.stage == Stage::Field ==> {
            &&& after.stage == Stage::Watching
            &&& after.next_field == now + 200_000_000
            &&& after.next_control == now + 1_000_000_000
        },
        m.stage == Stage::Watching ==> after == m,
        r is Err ==> after == m && after_c == c && r->Err_0 == result->Err_0,
        result is Ok && m.stage == Stage::Type ==> {
            &&& after_c.magnetic.sensor_type == Some((result->Ok_0)[0])
            &&& (result->Ok_0)[0] < 2 || (result->Ok_0)[0] > 7 ==> after_c.magnetic.type_error
                is Some
        },
        result is Err && m.stage == Stage::Type && r is Ok ==> {
            &&& after_c.magnetic.sensor_type == c.magnetic.sensor_type
            &&& after_c.magnetic.type_error is Some
        },
        result is Ok && m.stage == Stage::Calsw ==> after_c.magnetic.phase == (if (
        result->Ok_0)[0] == 7 {
            MagneticPhase::ExternalCalibration
        } else {
            MagneticPhase::Monitoring
        }),
        after_c.magnetic.owned == c.magnetic.owned,
{
}

} // verus!
