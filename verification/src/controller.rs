//! The state that acquisition, device operations and queries share.
//!
//! `Controller` decides what each request may do and what it changes; the
//! program around it opens connections, runs one task at a time, and reports
//! back what happened.

use crate::battery::Battery;
use crate::clock::{elapsed, elapsed_ns};
use crate::device::{Conclusion, Progress};
use crate::magnetic::{self, is_magnetic, MagneticBatch, MagneticCursor, MagneticPhase};
use crate::model::{
    copy_operation, copy_text, is_identifier, new_id, Config, ConnectionState, DeviceCommand,
    DeviceInfo, DeviceObservation, Endpoint, Error, OperationOutcome, OperationStatus, Platform,
    PoseSnapshot, RawData, ReferenceReason, SampleTime, Snapshot, Source,
    SourceDescriptor, StatusSnapshot, SNAPSHOT_SCHEMA_VERSION,
};
use crate::motion::{
    pushed, History, MotionBatch, MotionCursor, MotionRecord, MotionSample, OrientationSource,
};
use crate::number::Number;
use crate::protocol::{command_register, register_of, Frame, Parser, MAX_FRAME_BYTES};
use vstd::prelude::*;

verus! {

/// From this age on, a pose is stale.
pub const STALE_AFTER_NS: u64 = 500_000_000;

/// Up to this value a counter has room to grow.
pub const COUNTER_LIMIT: u64 = 0x7FFF_FFFF_FFFF_FFFF;

/// What became of the task that was started last.
#[derive(Clone, Copy, Debug, PartialEq, Eq, Structural)]
pub enum TaskState {
    Absent,
    Running,
    /// It has ended, but has not been stopped.
    Finished,
}

/// How a task ended.
#[derive(Debug)]
pub enum TaskOutcome {
    Completed,
    Failed { error: Error },
    Panicked,
}

/// What to do with a device command that was accepted.
#[derive(Clone, Copy, Debug, PartialEq, Eq, Structural)]
pub enum Dispatch {
    /// Hand it to the magnetic session that is open.
    Queue,
    /// Start a task for it.
    Launch,
}

/// The quantities of one frame in head axes.
#[derive(Clone, Copy, Debug)]
pub struct Signals {
    pub orientation: [Number; 4],
    pub gyro: Option<[Number; 3]>,
    pub acceleration: Option<[Number; 3]>,
    pub source: OrientationSource,
    pub profile: u8,
}

/// A pose that is ready to be published.
#[derive(Clone, Copy, Debug)]
pub struct ConvertedPose {
    pub quaternion_xyzw: [Number; 4],
    pub euler_deg: [Number; 3],
    pub raw: RawData,
    pub time: Option<SampleTime>,
    pub signals: Option<Signals>,
}

#[derive(Debug)]
pub struct Controller {
    pub config: Config,
    pub task: TaskState,
    /// The task is, or was, a magnetic session.
    pub monitoring: bool,
    pub status: StatusSnapshot,
    pub descriptor: SourceDescriptor,
    pub operation: Option<OperationStatus>,
    pub pose: Option<PoseSnapshot>,
    pub devices: Vec<DeviceInfo>,
    pub last_pose: Option<u64>,
    pub first_pose: Option<u64>,
    pub motion: History,
    pub battery: Battery,
    pub magnetic: magnetic::State,
}

pub open spec fn same_endpoint(a: Endpoint, b: Endpoint) -> bool {
    match (a, b) {
        (Endpoint::V4 { octets: x, port: p }, Endpoint::V4 { octets: y, port: q }) => x@ == y@ && p
            == q,
        (
            Endpoint::V6 { address: x, scope_id: s, port: p },
            Endpoint::V6 { address: y, scope_id: t, port: q },
        ) => x@ == y@ && s == t && p == q,
        _ => false,
    }
}

pub open spec fn same_angles(a: [Number; 3], b: [Number; 3]) -> bool {
    forall|i: int| 0 <= i < 3 ==> (#[trigger] a[i]).value() == b[i].value()
}

/// Two sources denote the same: the same words and the same numbers.
pub open spec fn same_source(a: Source, b: Source) -> bool {
    match (a, b) {
        (
            Source::Ble { device_id: x, connection_mode: m },
            Source::Ble { device_id: y, connection_mode: n },
        ) => x@ == y@ && m == n,
        (Source::Usb { port: x, baud: m }, Source::Usb { port: y, baud: n }) => x@ == y@ && m == n,
        (
            Source::Simulate { pattern: p, euler_deg: e, rate_hz: r, sample_clock: c },
            Source::Simulate { pattern: q, euler_deg: f, rate_hz: s, sample_clock: d },
        ) => p == q && same_angles(e, f) && r == s && c == d,
        _ => false,
    }
}

pub open spec fn same_text(a: Option<String>, b: Option<String>) -> bool {
    match (a, b) {
        (Some(x), Some(y)) => x@ == y@,
        (None, None) => true,
        _ => false,
    }
}

pub open spec fn same_config(a: Config, b: Config) -> bool {
    &&& same_source(a.source, b.source)
    &&& same_text(a.source_id, b.source_id)
    &&& a.pose_input == b.pose_input
    &&& a.mounting == b.mounting
    &&& match (a.osc, b.osc) {
        (Some(x), Some(y)) => same_endpoint(x.target, y.target) && x.max_rate_hz == y.max_rate_hz
            && x.format == y.format,
        (None, None) => true,
        _ => false,
    }
}

pub open spec fn finite_angles(s: Source) -> bool {
    s matches Source::Simulate { euler_deg, .. } ==> forall|i: int|
        0 <= i < 3 ==> (#[trigger] euler_deg[i]).finite()
}

fn equal_bytes(a: &[u8], b: &[u8]) -> (r: bool)
    ensures
        r == (a@ == b@),
{
    if a.len() != b.len() {
        return false;
    }
    let mut i: usize = 0;
    while i < a.len()
        invariant
            i <= a@.len(),
            a@.len() == b@.len(),
            forall|j: int| 0 <= j < i ==> a@[j] == b@[j],
        decreases a@.len() - i,
    {
        if a[i] != b[i] {
            return false;
        }
        i = i + 1;
    }
    assert(a@ =~= b@);
    true
}

fn equal_endpoints(a: &Endpoint, b: &Endpoint) -> (r: bool)
    ensures
        r == same_endpoint(*a, *b),
{
    match (a, b) {
        (
            Endpoint::V4 { octets: x, port: p },
            Endpoint::V4 { octets: y, port: q },
        ) => equal_bytes(x.as_slice(), y.as_slice()) && *p == *q,
        (
            Endpoint::V6 { address: x, scope_id: s, port: p },
            Endpoint::V6 { address: y, scope_id: t, port: q },
        ) => equal_bytes(x.as_slice(), y.as_slice()) && *s == *t && *p == *q,
        _ => false,
    }
}

fn equal_sources(a: &Source, b: &Source) -> (r: bool)
    requires
        finite_angles(*a),
        finite_angles(*b),
    ensures
        r == same_source(*a, *b),
{
    match (a, b) {
        (
            Source::Ble { device_id: x, connection_mode: m },
            Source::Ble { device_id: y, connection_mode: n },
        ) => *x == *y && *m == *n,
        (Source::Usb { port: x, baud: m }, Source::Usb { port: y, baud: n }) => *x == *y && *m
            == *n,
        (
            Source::Simulate { pattern: p, euler_deg: e, rate_hz: r, sample_clock: c },
            Source::Simulate { pattern: q, euler_deg: f, rate_hz: s, sample_clock: d },
        ) => *p == *q && e[0].equals(f[0]) && e[1].equals(f[1]) && e[2].equals(f[2]) && *r == *s
            && *c == *d,
        _ => false,
    }
}

fn equal_texts(a: &Option<String>, b: &Option<String>) -> (r: bool)
    ensures
        r == same_text(*a, *b),
{
    match (a, b) {
        (Some(x), Some(y)) => *x == *y,
        (None, None) => true,
        _ => false,
    }
}

fn equal_mountings(
    a: &Option<crate::pose::Mounting>,
    b: &Option<crate::pose::Mounting>,
) -> (r: bool)
    ensures
        r == (*a == *b),
{
    match (a, b) {
        (Some(x), Some(y)) => *x == *y,
        (None, None) => true,
        _ => false,
    }
}

fn equal_configs(a: &Config, b: &Config) -> (r: bool)
    requires
        finite_angles(a.source),
        finite_angles(b.source),
    ensures
        r == same_config(*a, *b),
{
    let osc = match (&a.osc, &b.osc) {
        (Some(x), Some(y)) => equal_endpoints(&x.target, &y.target) && x.max_rate_hz
            == y.max_rate_hz && x.format == y.format,
        (None, None) => true,
        _ => false,
    };
    equal_sources(&a.source, &b.source) && equal_texts(&a.source_id, &b.source_id) && a.pose_input
        == b.pose_input && equal_mountings(&a.mounting, &b.mounting) && osc
}

/// The name of a device command.
pub open spec fn action_of(command: DeviceCommand) -> Seq<char> {
    match command {
        DeviceCommand::Rate { .. } => "rate"@,
        DeviceCommand::Output { .. } => "output"@,
        DeviceCommand::AccelCalibrate => "accel_calibrate"@,
        DeviceCommand::MagStart => "mag_start"@,
        DeviceCommand::MagStop => "mag_stop"@,
        DeviceCommand::Save => "save"@,
        DeviceCommand::Algorithm { .. } => "algorithm"@,
        DeviceCommand::ZeroYaw => "zero_yaw"@,
        DeviceCommand::AngleReference => "angle_reference"@,
        DeviceCommand::ResetDefaults => "reset_defaults"@,
    }
}

pub fn action_name(command: &DeviceCommand) -> (r: &'static str)
    ensures
        r@ == action_of(*command),
{
    match command {
        DeviceCommand::Rate { .. } => "rate",
        DeviceCommand::Output { .. } => "output",
        DeviceCommand::AccelCalibrate => "accel_calibrate",
        DeviceCommand::MagStart => "mag_start",
        DeviceCommand::MagStop => "mag_stop",
        DeviceCommand::Save => "save",
        DeviceCommand::Algorithm { .. } => "algorithm",
        DeviceCommand::ZeroYaw => "zero_yaw",
        DeviceCommand::AngleReference => "angle_reference",
        DeviceCommand::ResetDefaults => "reset_defaults",
    }
}

/// What publishing a pose changes.
#[verifier::ext_equal]
pub struct Feed {
    pub status: StatusSnapshot,
    pub pose: Option<PoseSnapshot>,
    pub last_pose: Option<u64>,
    pub first_pose: Option<u64>,
    pub records: Seq<MotionRecord>,
    pub delivery: u64,
}

impl Feed {
    /// The counters and intervals after one more pose.
    pub open spec fn status_with(self, now: u64) -> StatusSnapshot {
        let s = self.status;
        let gap = match self.last_pose {
            Some(last) => elapsed(last, now),
            None => 0,
        };
        StatusSnapshot {
            state: ConnectionState::Active,
            pose_count: (s.pose_count + 1) as u64,
            session_samples: (s.session_samples + 1) as u64,
            session_span_ns: match self.first_pose {
                Some(first) => elapsed(first, now),
                None => 0,
            },
            interval_min_ns: if self.last_pose is Some && (s.session_samples == 1 || gap
                < s.interval_min_ns) {
                gap
            } else {
                s.interval_min_ns
            },
            interval_max_ns: if self.last_pose is Some && gap > s.interval_max_ns {
                gap
            } else {
                s.interval_max_ns
            },
            ..s
        }
    }

    pub open spec fn pose_with(
        self,
        d: SourceDescriptor,
        p: ConvertedPose,
        start: u64,
        now: u64,
    ) -> PoseSnapshot {
        PoseSnapshot {
            instance_id: d.instance_id,
            reference_epoch: d.reference_epoch,
            metadata_revision: d.metadata_revision,
            session_id: self.status.session_id,
            sequence: (self.status.session_samples + 1) as u64,
            received_ns: elapsed(start, now),
            age_ns: 0,
            sample_time: p.time,
            quaternion_xyzw: p.quaternion_xyzw,
            euler_deg: p.euler_deg,
            raw: p.raw,
            fresh: true,
        }
    }

    pub open spec fn record_with(
        self,
        d: SourceDescriptor,
        p: ConvertedPose,
        signals: Signals,
        start: u64,
        now: u64,
    ) -> MotionRecord {
        MotionRecord {
            received: now,
            sample: MotionSample {
                source_id: d.source_id,
                cursor: MotionCursor {
                    instance_id: d.instance_id,
                    session_id: self.status.session_id,
                    sequence: (self.status.session_samples + 1) as u64,
                },
                reference_epoch: d.reference_epoch,
                metadata_revision: d.metadata_revision,
                delivery_id: self.delivery,
                received_ns: elapsed(start, now),
                age_ns: 0,
                fresh: true,
                sample_time: p.time,
                orientation_xyzw: signals.orientation,
                euler_deg: p.euler_deg,
                angular_velocity_rad_s: signals.gyro,
                acceleration_g: signals.acceleration,
                orientation_source: signals.source,
                profile: signals.profile,
            },
        }
    }

    /// After one pose, which may have turned out invalid.
    pub open spec fn with(
        self,
        d: SourceDescriptor,
        p: Option<ConvertedPose>,
        start: u64,
        now: u64,
    ) -> Feed {
        match p {
            None => Feed {
                status: StatusSnapshot {
                    invalid_poses: (self.status.invalid_poses + 1) as u64,
                    ..self.status
                },
                ..self
            },
            Some(p) => Feed {
                status: self.status_with(now),
                pose: Some(self.pose_with(d, p, start, now)),
                last_pose: Some(now),
                first_pose: if self.first_pose is Some {
                    self.first_pose
                } else {
                    Some(now)
                },
                records: match p.signals {
                    Some(signals) => pushed(
                        self.records,
                        self.record_with(d, p, signals, start, now),
                    ),
                    None => self.records,
                },
                delivery: self.delivery,
            },
        }
    }

    /// After the poses of one read.
    pub open spec fn with_all(
        self,
        d: SourceDescriptor,
        poses: Seq<Option<ConvertedPose>>,
        start: u64,
        now: u64,
    ) -> Feed
        decreases poses.len(),
    {
        if poses.len() == 0 {
            self
        } else {
            self.with_all(d, poses.drop_last(), start, now).with(d, poses.last(), start, now)
        }
    }
}

impl Controller {
    /// The records are bounded, and a magnetic session has a task.
    pub open spec fn wf(&self) -> bool {
        &&& self.motion.wf()
        &&& self.magnetic.wf()
        &&& self.task == TaskState::Absent ==> !self.monitoring
        &&& finite_angles(self.config.source)
    }

    /// Every counter has room to grow.
    pub open spec fn roomy(&self) -> bool {
        let s = self.status;
        let d = self.descriptor;
        &&& d.metadata_revision <= COUNTER_LIMIT
        &&& d.reference_epoch <= COUNTER_LIMIT
        &&& s.bytes_received <= COUNTER_LIMIT
        &&& s.frames_received <= COUNTER_LIMIT
        &&& s.discarded_bytes <= COUNTER_LIMIT
        &&& s.invalid_poses <= COUNTER_LIMIT
        &&& s.invalid_frames <= COUNTER_LIMIT
        &&& s.duplicate_sample_times <= COUNTER_LIMIT
        &&& s.clock_discontinuities <= COUNTER_LIMIT
        &&& s.pose_count <= COUNTER_LIMIT
        &&& s.session_samples <= COUNTER_LIMIT
        &&& s.osc_sent <= COUNTER_LIMIT
        &&& s.send_errors <= COUNTER_LIMIT
        &&& s.telemetry_sent <= COUNTER_LIMIT
        &&& s.reconnect_count <= COUNTER_LIMIT
        &&& s.delivery.reads <= COUNTER_LIMIT
        &&& forall|i: int| 0 <= i < 5 ==> #[trigger] s.delivery.gap_histogram[i] <= COUNTER_LIMIT
        &&& self.motion.delivery <= COUNTER_LIMIT
        &&& self.magnetic.sequence <= COUNTER_LIMIT
    }

    /// The counters of a read of `n` bytes have room for it.
    pub open spec fn room_to_read(&self, n: int) -> bool {
        let s = self.status;
        &&& s.bytes_received + n <= u64::MAX
        &&& s.frames_received + MAX_FRAME_BYTES + n <= u64::MAX
        &&& s.discarded_bytes + MAX_FRAME_BYTES + n <= u64::MAX
        &&& s.invalid_frames + MAX_FRAME_BYTES + n <= u64::MAX
    }

    /// Whether every counter is far from its end: then no call that takes in
    /// less than 2^62 bytes, poses or messages can exceed it.
    pub fn has_room(&self) -> (r: bool)
        ensures
            r == self.roomy(),
    {
        let s = &self.status;
        let d = &self.descriptor;
        let g = &s.delivery.gap_histogram;
        d.metadata_revision <= COUNTER_LIMIT && d.reference_epoch <= COUNTER_LIMIT
            && s.bytes_received <= COUNTER_LIMIT && s.frames_received <= COUNTER_LIMIT
            && s.discarded_bytes <= COUNTER_LIMIT && s.invalid_poses <= COUNTER_LIMIT
            && s.invalid_frames <= COUNTER_LIMIT && s.duplicate_sample_times <= COUNTER_LIMIT
            && s.clock_discontinuities <= COUNTER_LIMIT && s.pose_count <= COUNTER_LIMIT
            && s.session_samples <= COUNTER_LIMIT && s.osc_sent <= COUNTER_LIMIT && s.send_errors
            <= COUNTER_LIMIT && s.telemetry_sent <= COUNTER_LIMIT && s.reconnect_count
            <= COUNTER_LIMIT && s.delivery.reads <= COUNTER_LIMIT && g[0] <= COUNTER_LIMIT && g[1]
            <= COUNTER_LIMIT && g[2] <= COUNTER_LIMIT && g[3] <= COUNTER_LIMIT && g[4]
            <= COUNTER_LIMIT && self.motion.delivery <= COUNTER_LIMIT && self.magnetic.sequence
            <= COUNTER_LIMIT
    }

    /// A controller at rest, configured for the simulator.
    pub fn new() -> (r: Controller)
        ensures
            r.wf(),
            r.roomy(),
            r.task == TaskState::Absent,
            r.status == StatusSnapshot::initial(),
            r.descriptor.describes(r.config),
            r.descriptor.device == DeviceObservation::unknown(),
            r.descriptor.device_name is None,
            r.descriptor.metadata_revision == 1,
            r.descriptor.reference_epoch == 1,
            r.descriptor.instance_id == 0,
            r.descriptor.session_id == 0,
            r.descriptor.reference_reason == ReferenceReason::NewContext,
            r.operation is None,
            r.pose is None,
            r.devices@ == Seq::<DeviceInfo>::empty(),
            r.last_pose is None,
            r.first_pose is None,
            r.motion.is_empty(),
            r.battery == Battery::unread(),
            r.magnetic.is_idle(),
            r.config == Config::simulated(),
    {
        Controller {
            config: Config::default(),
            task: TaskState::Absent,
            monitoring: false,
            status: StatusSnapshot::default(),
            descriptor: SourceDescriptor::default(),
            operation: None,
            pose: None,
            devices: Vec::new(),
            last_pose: None,
            first_pose: None,
            motion: History::default(),
            battery: Battery::default(),
            magnetic: magnetic::State::default(),
        }
    }

    /// Why nothing can be started, if so: a task is running, or the magnetic
    /// session that has ended left an error that nobody has been told.
    pub open spec fn obstacle(&self) -> Option<Error> {
        if self.task == TaskState::Running {
            Some(Error::Busy)
        } else if self.task == TaskState::Finished && self.monitoring && self.magnetic.last_error
            is Some {
            Some(Error::Io(self.magnetic.last_error->0))
        } else {
            None
        }
    }

    /// With a finished task cleared away.
    pub open spec fn cleared(self) -> Controller {
        if self.task == TaskState::Finished {
            Controller {
                task: TaskState::Absent,
                monitoring: false,
                status: if self.obstacle() is None {
                    StatusSnapshot { state: ConnectionState::Stopped, ..self.status }
                } else {
                    self.status
                },
                ..self
            }
        } else {
            self
        }
    }

    fn ensure_idle(&mut self) -> (r: Result<(), Error>)
        requires
            old(self).wf(),
        ensures
            final(self).wf(),
            *final(self) == old(self).cleared(),
            match old(self).obstacle() {
                Some(e) => r == Err::<(), Error>(e),
                None => r is Ok && final(self).task == TaskState::Absent,
            },
    {
        if self.task == TaskState::Running {
            return Err(Error::Busy);
        }
        if self.task == TaskState::Finished {
            return self.stop(false, 0);
        }
        Ok(())
    }

    /// How stopping ends, and what it leaves: with the worker ended, or given up
    /// on after it did not end in time.
    pub open spec fn stops_as(
        self,
        timed_out: bool,
        now: u64,
        r: Result<(), Error>,
        after: Controller,
    ) -> bool {
        &&& after.task == TaskState::Absent
        &&& !after.monitoring
        &&& if self.task != TaskState::Absent && timed_out {
            &&& r matches Err(e) && e.is_timeout("stop; worker aborted"@)
            &&& after.status.last_error matches Some(m) && m@
                == "stop timed out; worker aborted"@
            &&& after == (Controller {
                task: TaskState::Absent,
                monitoring: false,
                status: StatusSnapshot {
                    state: ConnectionState::Failed,
                    last_error: after.status.last_error,
                    ..self.status
                },
                magnetic: if self.monitoring {
                    magnetic::State {
                        running: false,
                        window: self.magnetic.window.ended(now),
                        phase: MagneticPhase::Failed,
                        last_error: after.magnetic.last_error,
                        ..self.magnetic
                    }
                } else {
                    self.magnetic
                },
                ..self
            })
            &&& self.monitoring ==> (after.magnetic.last_error matches Some(m) && m@
                == "stop timed out; device calibration state unknown"@)
        } else if self.monitoring && self.magnetic.last_error is Some {
            &&& r == Err::<(), Error>(Error::Io(self.magnetic.last_error->0))
            &&& after == (Controller {
                task: TaskState::Absent,
                monitoring: false,
                ..self
            })
        } else {
            &&& r is Ok
            &&& after == (Controller {
                task: TaskState::Absent,
                monitoring: false,
                status: StatusSnapshot {
                    state: ConnectionState::Stopped,
                    ..self.status
                },
                ..self
            })
        }
    }

    /// The worker has ended, or was given up on after it did not end in time.
    pub fn stop(&mut self, timed_out: bool, now: u64) -> (r: Result<(), Error>)
        requires
            old(self).wf(),
        ensures
            final(self).wf(),
            old(self).stops_as(timed_out, now, r, *final(self)),
    {
        let was_monitoring = self.monitoring;
        self.monitoring = false;
        if self.task != TaskState::Absent {
            self.task = TaskState::Absent;
            if timed_out {
                self.status.state = ConnectionState::Failed;
                self.status.last_error = Some("stop timed out; worker aborted".to_string());
                if was_monitoring {
                    self.magnetic.finish(
                        Some("stop timed out; device calibration state unknown".to_string()),
                        now,
                    );
                }
                return Err(Error::timeout("stop; worker aborted"));
            }
        }
        if was_monitoring {
            if let Some(error) = &self.magnetic.last_error {
                return Err(Error::Io(error.clone()));
            }
        }
        self.status.state = ConnectionState::Stopped;
        Ok(())
    }

    /// What asking for another configuration gives, and leaves.
    pub open spec fn configures_as(
        self,
        config: Config,
        platform: Platform,
        r: Result<(), Error>,
        after: Controller,
    ) -> bool {
        &&& match r {
            Err(e) => if config.problem(platform) is Some {
                e.is_invalid(config.problem(platform)->0) && after == self
            } else {
                self.obstacle() == Some(e) && after == self.cleared()
            },
            Ok(()) => config.problem(platform) is None && self.obstacle() is None,
        }
        &&& r is Ok && same_config(self.config, config) ==> after == (Controller {
            config,
            ..self.cleared()
        })
        &&& r is Ok && !same_config(self.config, config) ==> {
            let b = self.cleared();
            let a = after;
            let same_device = same_source(b.config.source, config.source);
            let reference_changed = !same_device || b.config.mounting != config.mounting
                || b.config.pose_input != config.pose_input;
            &&& a == (Controller {
                config,
                status: StatusSnapshot::initial(),
                descriptor: a.descriptor,
                pose: None,
                last_pose: None,
                motion: a.motion,
                battery: Battery::unread(),
                magnetic: a.magnetic,
                ..b
            })
            &&& a.descriptor.describes(config)
            &&& a.descriptor.instance_id == 0
            &&& a.descriptor.session_id == 0
            &&& a.descriptor.metadata_revision == b.descriptor.metadata_revision + 1
            &&& a.descriptor.reference_epoch == b.descriptor.reference_epoch + (
            if reference_changed {
                1int
            } else {
                0int
            })
            &&& a.descriptor.reference_reason == (if reference_changed {
                ReferenceReason::ApplicationConfigurationChanged
            } else {
                b.descriptor.reference_reason
            })
            &&& a.descriptor.device == (if same_device {
                b.descriptor.device
            } else {
                DeviceObservation::unknown()
            })
            &&& a.descriptor.device_name == (if same_device {
                b.descriptor.device_name
            } else {
                None
            })
            &&& a.motion.is_empty()
            &&& a.magnetic.is_idle()
        }
    }

    /// Replaces the configuration. One that breaks a rule, or that comes while a
    /// task runs, is refused. One that denotes the same changes nothing else; of
    /// another, everything that the old one gave rise to is forgotten, and the
    /// reference is a new one if the source, the mounting or the pose input
    /// differ.
    pub fn set_config(&mut self, config: Config, platform: Platform) -> (r: Result<(), Error>)
        requires
            old(self).wf(),
            old(self).descriptor.metadata_revision < u64::MAX,
            old(self).descriptor.reference_epoch < u64::MAX,
        ensures
            final(self).wf(),
            old(self).configures_as(config, platform, r, *final(self)),
    {
        config.validate(platform)?;
        self.ensure_idle()?;
        assert(finite_angles(config.source)) by {
            assert(config.source.problem(platform) is None);
        }
        if !equal_configs(&self.config, &config) {
            let same_device = equal_sources(&self.config.source, &config.source);
            let reference_changed = !same_device || !equal_mountings(
                &self.config.mounting,
                &config.mounting,
            ) || self.config.pose_input != config.pose_input;
            let mut descriptor = SourceDescriptor::new(&config);
            descriptor.metadata_revision = self.descriptor.metadata_revision + 1;
            descriptor.reference_epoch = self.descriptor.reference_epoch;
            descriptor.reference_reason = self.descriptor.reference_reason;
            if reference_changed {
                descriptor.reference_epoch = self.descriptor.reference_epoch + 1;
                descriptor.reference_reason = ReferenceReason::ApplicationConfigurationChanged;
            }
            if same_device {
                descriptor.device = self.descriptor.device;
                descriptor.device_name = copy_text(&self.descriptor.device_name);
            }
            self.descriptor = descriptor;
            self.motion = History::default();
            self.magnetic = magnetic::State::default();
            self.pose = None;
            self.last_pose = None;
            self.status = StatusSnapshot::default();
            self.battery = Battery::default();
        }
        self.config = config;
        Ok(())
    }

    pub fn config(&self) -> (r: &Config)
        ensures
            *r == self.config,
    {
        &self.config
    }

    /// What asking for acquisition gives, and leaves.
    pub open spec fn starts_as(
        self,
        platform: Platform,
        r: Result<(), Error>,
        after: Controller,
    ) -> bool {
        match r {
            Err(e) => if self.config.acquisition_problem(platform) is Some {
                e.is_invalid(self.config.acquisition_problem(platform)->0) && after
                    == self
            } else {
                self.obstacle() == Some(e) && after == self.cleared()
            },
            Ok(()) => {
                let b = self.cleared();
                let a = after;
                &&& self.config.acquisition_problem(platform) is None
                &&& self.obstacle() is None
                &&& a == (Controller {
                    task: TaskState::Running,
                    status: StatusSnapshot {
                        state: ConnectionState::Connecting,
                        ..StatusSnapshot::initial()
                    },
                    descriptor: SourceDescriptor {
                        instance_id: a.descriptor.instance_id,
                        session_id: 0,
                        metadata_revision: (b.descriptor.metadata_revision + 1) as u64,
                        ..b.descriptor
                    },
                    battery: Battery::unread(),
                    motion: a.motion,
                    magnetic: a.magnetic,
                    pose: None,
                    last_pose: None,
                    first_pose: None,
                    ..b
                })
                &&& is_identifier(a.descriptor.instance_id)
                &&& a.motion.is_empty()
                &&& a.magnetic.is_idle()
            },
        }
    }

    /// Begins acquisition as a new instance.
    pub fn start(&mut self, platform: Platform) -> (r: Result<(), Error>)
        requires
            old(self).wf(),
            old(self).descriptor.metadata_revision < u64::MAX,
        ensures
            final(self).wf(),
            old(self).starts_as(platform, r, *final(self)),
    {
        self.config.validate_acquisition(platform)?;
        self.ensure_idle()?;
        self.status = StatusSnapshot::default();
        self.battery = Battery::default();
        self.status.state = ConnectionState::Connecting;
        self.descriptor.instance_id = new_id();
        self.descriptor.session_id = 0;
        self.descriptor.metadata_revision = self.descriptor.metadata_revision + 1;
        self.motion = History::default();
        self.magnetic = magnetic::State::default();
        self.pose = None;
        self.last_pose = None;
        self.first_pose = None;
        self.task = TaskState::Running;
        Ok(())
    }

    /// What asking for a scan gives, and leaves.
    pub open spec fn scans_as(
        self,
        seconds: u32,
        r: Result<(), Error>,
        after: Controller,
    ) -> bool {
        &&& match r {
            Err(e) => if !(1 <= seconds <= 60) {
                e.is_invalid("scan duration must be 1..60 seconds"@) && after == self
            } else {
                self.obstacle() == Some(e) && after == self.cleared()
            },
            Ok(()) => {
                let b = self.cleared();
                let a = after;
                &&& 1 <= seconds <= 60
                &&& self.obstacle() is None
                &&& a == (Controller {
                    task: TaskState::Running,
                    status: StatusSnapshot { state: ConnectionState::Scanning, ..b.status },
                    devices: a.devices,
                    magnetic: a.magnetic,
                    battery: Battery::unread(),
                    ..b
                })
                &&& a.devices@ == Seq::<DeviceInfo>::empty()
                &&& a.magnetic.is_idle()
            },
        }
    }

    /// Begins a scan of 1 to 60 seconds.
    pub fn scan_start(&mut self, seconds: u32) -> (r: Result<(), Error>)
        requires
            old(self).wf(),
        ensures
            final(self).wf(),
            old(self).scans_as(seconds, r, *final(self)),
    {
        if seconds < 1 || seconds > 60 {
            return Err(Error::invalid("scan duration must be 1..60 seconds"));
        }
        self.ensure_idle()?;
        self.devices = Vec::new();
        self.magnetic = magnetic::State::default();
        self.battery = Battery::default();
        self.status.state = ConnectionState::Scanning;
        self.task = TaskState::Running;
        Ok(())
    }

    /// A scan has found these devices.
    pub fn scan_finished(&mut self, devices: Vec<DeviceInfo>)
        requires
            old(self).wf(),
        ensures
            final(self).wf(),
            *final(self) == (Controller { devices, ..*old(self) }),
    {
        self.devices = devices;
    }

    /// Why no device can be talked to with this configuration.
    pub open spec fn device_problem(
        &self,
        platform: Platform,
        simulator: Seq<char>,
        e: Error,
    ) -> bool {
        if self.config.problem(platform) is Some {
            e.is_invalid(self.config.problem(platform)->0)
        } else if self.obstacle() is Some {
            self.obstacle() == Some(e)
        } else {
            self.config.source is Simulate && e.is_invalid(simulator)
        }
    }

    /// What is left as it was, or cleared, where a device request is refused.
    pub open spec fn after_refusal(self, platform: Platform) -> Controller {
        if self.config.problem(platform) is Some {
            self
        } else {
            self.cleared()
        }
    }

    /// A device can be talked to.
    pub open spec fn device_free(&self, platform: Platform) -> bool {
        &&& self.config.problem(platform) is None
        &&& self.obstacle() is None
        &&& !(self.config.source is Simulate)
    }

    fn claim_device(&mut self, platform: Platform, simulator: &str) -> (r: Result<(), Error>)
        requires
            old(self).wf(),
        ensures
            final(self).wf(),
            match r {
                Ok(()) => old(self).device_free(platform) && *final(self) == old(self).cleared()
                    && final(self).task == TaskState::Absent,
                Err(e) => !old(self).device_free(platform) && old(self).device_problem(
                    platform,
                    simulator@,
                    e,
                ) && *final(self) == old(self).after_refusal(platform),
            },
    {
        self.config.validate(platform)?;
        self.ensure_idle()?;
        if matches!(self.config.source, Source::Simulate { .. }) {
            return Err(Error::invalid(simulator));
        }
        Ok(())
    }

    fn begin_operation(&mut self, action: &str)
        requires
            old(self).wf(),
        ensures
            final(self).wf(),
            *final(self) == (Controller { operation: final(self).operation, ..*old(self) }),
            final(self).operation matches Some(op) && op.begins(
                Some(old(self).descriptor.source_id),
            ) && op.action@ == action@,
    {
        let mut op = OperationStatus::new(action.to_string());
        op.source_id = Some(self.descriptor.source_id.clone());
        self.operation = Some(op);
    }

    /// What asking for an inspection gives, and leaves.
    pub open spec fn inspects_as(
        self,
        platform: Platform,
        r: Result<(), Error>,
        after: Controller,
    ) -> bool {
        &&& match r {
            Err(e) => !self.device_free(platform) && self.device_problem(
                platform,
                "simulator has no device registers"@,
                e,
            ) && after == self.after_refusal(platform),
            Ok(()) => {
                let b = self.cleared();
                let a = after;
                &&& self.device_free(platform)
                &&& a == (Controller {
                    task: TaskState::Running,
                    status: StatusSnapshot {
                        state: ConnectionState::Inspecting,
                        last_error: None,
                        configuration_report: None,
                        ..b.status
                    },
                    magnetic: a.magnetic,
                    battery: Battery::unread(),
                    descriptor: SourceDescriptor {
                        device: DeviceObservation { valid: false, ..b.descriptor.device },
                        metadata_revision: (b.descriptor.metadata_revision + 1) as u64,
                        ..b.descriptor
                    },
                    operation: a.operation,
                    ..b
                })
                &&& a.magnetic.is_idle()
                &&& a.operation matches Some(op) && op.begins(
                    Some(b.descriptor.source_id),
                ) && op.action@ == "inspect"@
            },
        }
    }

    /// Begins a read-only inspection of the device.
    pub fn inspect_start(&mut self, platform: Platform) -> (r: Result<(), Error>)
        requires
            old(self).wf(),
            old(self).descriptor.metadata_revision < u64::MAX,
        ensures
            final(self).wf(),
            old(self).inspects_as(platform, r, *final(self)),
    {
        self.claim_device(platform, "simulator has no device registers")?;
        self.status.state = ConnectionState::Inspecting;
        self.magnetic = magnetic::State::default();
        self.status.last_error = None;
        self.status.configuration_report = None;
        self.battery = Battery::default();
        self.descriptor.device.valid = false;
        self.descriptor.metadata_revision = self.descriptor.metadata_revision + 1;
        self.begin_operation("inspect");
        self.task = TaskState::Running;
        Ok(())
    }

    /// What the end of an inspection leaves.
    pub open spec fn inspected_as(
        self,
        observation: DeviceObservation,
        battery: Battery,
        name: Option<String>,
        after: Controller,
    ) -> bool {
        &&& after == (Controller {
            battery,
            descriptor: SourceDescriptor {
                device: observation,
                device_name: name,
                metadata_revision: (self.descriptor.metadata_revision + 1) as u64,
                ..self.descriptor
            },
            operation: after.operation,
            ..self
        })
        &&& match self.operation {
            None => after.operation is None,
            Some(before) => after.operation matches Some(op) && op == (OperationStatus {
                register_verified: true,
                outcome: OperationOutcome::Succeeded,
                message: op.message,
                ..before
            }) && (op.message matches Some(m) && m@
                == "read-only inspection complete; capabilities and calibration quality are not inferred from register access"@),
        }
    }

    /// An inspection has come to its end.
    pub fn inspect_finished(
        &mut self,
        observation: DeviceObservation,
        battery: Battery,
        name: Option<String>,
    )
        requires
            old(self).wf(),
            old(self).descriptor.metadata_revision < u64::MAX,
        ensures
            final(self).wf(),
            old(self).inspected_as(observation, battery, name, *final(self)),
    {
        self.battery = battery;
        self.descriptor.device = observation;
        self.descriptor.device_name = name;
        self.descriptor.metadata_revision = self.descriptor.metadata_revision + 1;
        if let Some(op) = &mut self.operation {
            op.register_verified = true;
            op.outcome = OperationOutcome::Succeeded;
            op.message = Some(
                "read-only inspection complete; capabilities and calibration quality are not inferred from register access".to_string(),
            );
        }
    }

    /// Whether an open magnetic session takes a command.
    pub open spec fn queues(&self, command: DeviceCommand, queue_free: bool) -> bool {
        &&& is_magnetic(command)
        &&& self.magnetic.is_ready()
        &&& !(self.operation matches Some(op) && op.outcome == OperationOutcome::Running)
        &&& queue_free
    }

    /// What asking for a device command gives, and leaves.
    pub open spec fn commands_as(
        self,
        command: DeviceCommand,
        platform: Platform,
        queue_free: bool,
        r: Result<Dispatch, Error>,
        after: Controller,
    ) -> bool {
        &&& if self.config.problem(platform) is Some {
            &&& r matches Err(e) && e.is_invalid(self.config.problem(platform)->0)
            &&& after == self
        } else if register_of(command) is None {
            &&& r matches Err(e) && e.is_invalid(
                "supported device rates: 1, 2, 5, 10, 20, 50, 100, 200 Hz"@,
            )
            &&& after == self
        } else if self.monitoring && self.task == TaskState::Running {
            if self.queues(command, queue_free) {
                &&& r == Ok::<Dispatch, Error>(Dispatch::Queue)
                &&& after == (Controller {
                    operation: after.operation,
                    ..self
                })
                &&& after.operation matches Some(op) && op.begins(
                    Some(self.descriptor.source_id),
                ) && op.action@ == action_of(command)
            } else {
                &&& r == Err::<Dispatch, Error>(Error::Busy)
                &&& after == self
            }
        } else {
            match r {
                Err(e) => !self.device_free(platform) && self.device_problem(
                    platform,
                    "simulator has no device registers"@,
                    e,
                ) && after == self.after_refusal(platform),
                Ok(dispatch) => {
                    let b = self.cleared();
                    let a = after;
                    &&& dispatch == Dispatch::Launch
                    &&& self.device_free(platform)
                    &&& a == (Controller {
                        task: TaskState::Running,
                        status: StatusSnapshot {
                            state: ConnectionState::Configuring,
                            last_error: None,
                            configuration_report: None,
                            ..b.status
                        },
                        magnetic: a.magnetic,
                        battery: Battery::unread(),
                        operation: a.operation,
                        ..b
                    })
                    &&& a.magnetic.is_idle()
                    &&& a.operation matches Some(op) && op.begins(
                        Some(b.descriptor.source_id),
                    ) && op.action@ == action_of(command)
                },
            }
        }
    }

    /// Accepts a device command: for the magnetic session that is open, whose
    /// queue may be free or not, or for a task of its own.
    pub fn configure_device(
        &mut self,
        command: DeviceCommand,
        platform: Platform,
        queue_free: bool,
    ) -> (r: Result<Dispatch, Error>)
        requires
            old(self).wf(),
        ensures
            final(self).wf(),
            old(self).commands_as(command, platform, queue_free, r, *final(self)),
    {
        self.config.validate(platform)?;
        command_register(&command)?;
        if self.monitoring && self.task == TaskState::Running {
            let magnetic_command = matches!(
                command,
                DeviceCommand::MagStart | DeviceCommand::MagStop | DeviceCommand::Save
            );
            let occupied = match &self.operation {
                Some(op) => op.outcome == OperationOutcome::Running,
                None => false,
            };
            if !magnetic_command || !self.magnetic.ready() || occupied || !queue_free {
                return Err(Error::Busy);
            }
            self.begin_operation(action_name(&command));
            return Ok(Dispatch::Queue);
        }
        self.claim_device(platform, "simulator has no device registers")?;
        self.status.state = ConnectionState::Configuring;
        self.magnetic = magnetic::State::default();
        self.battery = Battery::default();
        self.status.last_error = None;
        self.status.configuration_report = None;
        self.begin_operation(action_name(&command));
        self.task = TaskState::Running;
        Ok(Dispatch::Launch)
    }

    /// What asking for a magnetic session gives, and leaves.
    pub open spec fn monitors_as(
        self,
        platform: Platform,
        r: Result<(), Error>,
        after: Controller,
    ) -> bool {
        &&& match r {
            Err(e) => !self.device_free(platform) && self.device_problem(
                platform,
                "simulator has no magnetic registers"@,
                e,
            ) && after == self.after_refusal(platform),
            Ok(()) => {
                let b = self.cleared();
                let a = after;
                &&& self.device_free(platform)
                &&& a == (Controller {
                    task: TaskState::Running,
                    monitoring: true,
                    status: StatusSnapshot {
                        state: ConnectionState::Connecting,
                        session_id: a.descriptor.session_id,
                        ..StatusSnapshot::initial()
                    },
                    descriptor: SourceDescriptor {
                        instance_id: a.descriptor.instance_id,
                        session_id: a.descriptor.session_id,
                        metadata_revision: (b.descriptor.metadata_revision + 1) as u64,
                        device: DeviceObservation { valid: false, ..b.descriptor.device },
                        ..b.descriptor
                    },
                    magnetic: a.magnetic,
                    motion: a.motion,
                    battery: Battery::unread(),
                    pose: None,
                    last_pose: None,
                    first_pose: None,
                    operation: None,
                    ..b
                })
                &&& is_identifier(a.descriptor.instance_id)
                &&& is_identifier(a.descriptor.session_id)
                &&& a.motion.is_empty()
                &&& a.magnetic.is_initial(a.descriptor.instance_id, a.descriptor.session_id)
                &&& a.magnetic.phase == MagneticPhase::Opening
                &&& a.magnetic.running
            },
        }
    }

    /// Opens an exclusive magnetic session, which only reads until it is told
    /// otherwise. It needs no mounting.
    pub fn magnetic_start(&mut self, platform: Platform) -> (r: Result<(), Error>)
        requires
            old(self).wf(),
            old(self).descriptor.metadata_revision < u64::MAX,
        ensures
            final(self).wf(),
            old(self).monitors_as(platform, r, *final(self)),
    {
        self.claim_device(platform, "simulator has no magnetic registers")?;
        self.status = StatusSnapshot::default();
        self.status.state = ConnectionState::Connecting;
        self.descriptor.instance_id = new_id();
        self.descriptor.session_id = new_id();
        self.status.session_id = self.descriptor.session_id;
        self.descriptor.metadata_revision = self.descriptor.metadata_revision + 1;
        self.descriptor.device.valid = false;
        self.magnetic =
            magnetic::State::new(self.descriptor.instance_id, self.descriptor.session_id);
        self.motion = History::default();
        self.battery = Battery::default();
        self.pose = None;
        self.last_pose = None;
        self.first_pose = None;
        self.operation = None;
        self.monitoring = true;
        self.task = TaskState::Running;
        Ok(())
    }

    /// The magnetic samples after a cursor, with the state of the session and of
    /// its operation at the same moment.
    pub fn magnetic_since(&self, cursor: Option<MagneticCursor>, now: u64) -> (r: MagneticBatch)
        ensures
            self.magnetic.gives(
                cursor,
                self.descriptor.source_id,
                if self.magnetic.phase != MagneticPhase::Idle {
                    self.operation
                } else {
                    None
                },
                now,
                r,
            ),
    {
        let operation = if self.magnetic.phase != MagneticPhase::Idle {
            copy_operation(&self.operation)
        } else {
            None
        };
        self.magnetic.since(cursor, self.descriptor.source_id.clone(), operation, now)
    }

    /// What the end of the task leaves.
    pub open spec fn ends_as(self, outcome: TaskOutcome, now: u64, after: Controller) -> bool {
        &&& after.task == (if self.task == TaskState::Running {
            TaskState::Finished
        } else {
            self.task
        })
        &&& after == (Controller {
            task: after.task,
            status: StatusSnapshot {
                state: after.status.state,
                last_error: after.status.last_error,
                ..self.status
            },
            operation: after.operation,
            magnetic: after.magnetic,
            ..self
        })
        &&& match outcome {
            TaskOutcome::Completed => after.status == (StatusSnapshot {
                state: ConnectionState::Complete,
                ..self.status
            }) && after.operation == self.operation,
            TaskOutcome::Failed { error } => if error is Cancelled {
                &&& after.status == (StatusSnapshot {
                    state: ConnectionState::Stopped,
                    ..self.status
                })
                &&& after.operation == (match self.operation {
                    Some(op) if op.outcome == OperationOutcome::Running => Some(
                        OperationStatus { outcome: OperationOutcome::Cancelled, ..op },
                    ),
                    other => other,
                })
            } else {
                &&& after.status.state == ConnectionState::Failed
                &&& after.status.last_error matches Some(m) && m@ == error.text()
                &&& match self.operation {
                    Some(before) if before.outcome == OperationOutcome::Running => {
                        &&& after.operation matches Some(op) && op == (OperationStatus {
                            outcome: OperationOutcome::Failed,
                            message: op.message,
                            ..before
                        }) && (op.message matches Some(m) && m@ == error.text())
                    },
                    other => after.operation == other,
                }
            },
            TaskOutcome::Panicked => {
                &&& after.status.state == ConnectionState::Failed
                &&& after.status.last_error matches Some(m) && m@
                    == "internal worker panic"@
                &&& after.operation == (match self.operation {
                    Some(op) if op.outcome == OperationOutcome::Running => Some(
                        OperationStatus { outcome: OperationOutcome::Failed, ..op },
                    ),
                    other => other,
                })
            },
        }
        &&& if outcome is Panicked && !(self.magnetic.phase is Idle || self.magnetic.phase is Closed || self.magnetic.phase is Failed) {
            &&& after.magnetic == (magnetic::State {
                running: false,
                window: self.magnetic.window.ended(now),
                phase: MagneticPhase::Failed,
                last_error: after.magnetic.last_error,
                ..self.magnetic
            })
            &&& after.magnetic.last_error matches Some(m) && m@
                == "internal worker panic; device calibration state unknown"@
        } else {
            after.magnetic == self.magnetic
        }
    }

    /// The task has ended: completed, cancelled, failed or by a panic. An
    /// operation that was under way ends with it.
    pub fn task_finished(&mut self, outcome: TaskOutcome, now: u64)
        requires
            old(self).wf(),
        ensures
            final(self).wf(),
            old(self).ends_as(outcome, now, *final(self)),
    {
        if self.task == TaskState::Running {
            self.task = TaskState::Finished;
        }
        match outcome {
            TaskOutcome::Completed => {
                self.status.state = ConnectionState::Complete;
            },
            TaskOutcome::Failed { error } => {
                if matches!(error, Error::Cancelled) {
                    self.status.state = ConnectionState::Stopped;
                    if let Some(op) = &mut self.operation {
                        if op.outcome == OperationOutcome::Running {
                            op.outcome = OperationOutcome::Cancelled;
                        }
                    }
                } else {
                    self.status.state = ConnectionState::Failed;
                    self.status.last_error = Some(error.message());
                    if let Some(op) = &mut self.operation {
                        if op.outcome == OperationOutcome::Running {
                            op.outcome = OperationOutcome::Failed;
                            op.message = Some(error.message());
                        }
                    }
                }
            },
            TaskOutcome::Panicked => {
                self.status.state = ConnectionState::Failed;
                self.status.last_error = Some("internal worker panic".to_string());
                if self.magnetic.phase != MagneticPhase::Idle && self.magnetic.phase
                    != MagneticPhase::Closed && self.magnetic.phase != MagneticPhase::Failed {
                    self.magnetic.finish(
                        Some(
                            "internal worker panic; device calibration state unknown".to_string(),
                        ),
                        now,
                    );
                }
                if let Some(op) = &mut self.operation {
                    if op.outcome == OperationOutcome::Running {
                        op.outcome = OperationOutcome::Failed;
                    }
                }
            },
        }
    }

    /// A pose is fresh while reception goes on and the last one is younger than
    /// half a second.
    pub open spec fn is_fresh(&self, now: u64) -> bool {
        &&& self.status.state == ConnectionState::Active || self.status.state
            == ConnectionState::Stale
        &&& self.last_pose matches Some(t) && elapsed(t, now) < STALE_AFTER_NS
    }

    pub fn fresh(&self, now: u64) -> (r: bool)
        ensures
            r == self.is_fresh(now),
    {
        (self.status.state == ConnectionState::Active || self.status.state
            == ConnectionState::Stale) && match self.last_pose {
            Some(t) => elapsed_ns(t, now) < STALE_AFTER_NS,
            None => false,
        }
    }

    pub open spec fn pose_at(&self, now: u64) -> Option<PoseSnapshot> {
        match (self.pose, self.last_pose) {
            (Some(pose), Some(received)) => Some(
                PoseSnapshot {
                    age_ns: elapsed(received, now),
                    fresh: self.is_fresh(now),
                    ..pose
                },
            ),
            _ => None,
        }
    }

    /// The last pose of the session as it stands at `now`.
    pub fn latest_pose(&self, now: u64) -> (r: Option<PoseSnapshot>)
        ensures
            r == self.pose_at(now),
    {
        match (self.pose, self.last_pose) {
            (Some(pose), Some(received)) => {
                let mut p = pose;
                p.age_ns = elapsed_ns(received, now);
                p.fresh = self.fresh(now);
                Some(p)
            },
            _ => None,
        }
    }

    /// Whether a battery reading can still be current.
    pub open spec fn battery_available(&self) -> bool {
        let s = self.status.state;
        s == ConnectionState::Connecting || s == ConnectionState::Active || s
            == ConnectionState::Stale || s == ConnectionState::Complete
    }

    /// State and counters as they stand at `now`. Reception counts as active
    /// only while the last pose is fresh.
    pub open spec fn status_at(&self, now: u64) -> StatusSnapshot {
        StatusSnapshot {
            state: if self.status.state == ConnectionState::Active && !self.is_fresh(now) {
                ConnectionState::Stale
            } else {
                self.status.state
            },
            battery: self.battery.status_at(now, self.battery_available()),
            ..self.status
        }
    }

    pub fn status(&self, now: u64) -> (r: StatusSnapshot)
        ensures
            r == self.status_at(now),
    {
        let mut status = self.status.clone();
        let available = status.state == ConnectionState::Connecting || status.state
            == ConnectionState::Active || status.state == ConnectionState::Stale || status.state
            == ConnectionState::Complete;
        status.battery = self.battery.snapshot(now, available);
        if status.state == ConnectionState::Active && !self.fresh(now) {
            status.state = ConnectionState::Stale;
        }
        status
    }

    /// Everything at one moment.
    pub fn snapshot(&self, now: u64) -> (r: Snapshot)
        ensures
            r == (Snapshot {
                schema: SNAPSHOT_SCHEMA_VERSION,
                descriptor: self.descriptor,
                status: self.status_at(now),
                pose: self.pose_at(now),
                operation: self.operation,
            }),
            r.schema == 4,
    {
        Snapshot {
            schema: SNAPSHOT_SCHEMA_VERSION,
            descriptor: self.descriptor.clone(),
            status: self.status(now),
            pose: self.latest_pose(now),
            operation: copy_operation(&self.operation),
        }
    }

    /// What a query for samples gives.
    pub open spec fn gives_motion(
        self,
        cursor: Option<MotionCursor>,
        now: u64,
        r: MotionBatch,
    ) -> bool {
        &&& r.source_id == self.descriptor.source_id
        &&& r.queried_at == now
        &&& r.active == self.is_fresh(now)
        &&& r.cursor == (if self.motion.records@.len() == 0 {
            None
        } else {
            Some(self.motion.records@.last().sample.cursor)
        })
        &&& r.reset == (crate::motion::is_reset(self.motion.records@, cursor) || (cursor matches
            Some(c) && (c.instance_id != self.descriptor.instance_id || c.session_id
            != self.status.session_id)))
        &&& r.history_overrun == crate::motion::overrun(self.motion.records@, cursor)
        &&& r.samples@ == crate::motion::samples_after(
            self.motion.records@,
            crate::motion::read_after(self.motion.records@, cursor),
            now,
            self.is_fresh(now),
        )
    }

    /// The samples after a cursor. A cursor of another run starts over.
    pub fn motion_since(&self, cursor: Option<MotionCursor>, now: u64) -> (r: MotionBatch)
        ensures
            self.gives_motion(cursor, now, r),
    {
        let mut batch = self.motion.since(cursor, now, self.fresh(now));
        batch.source_id = self.descriptor.source_id.clone();
        if let Some(c) = cursor {
            if c.instance_id != self.descriptor.instance_id || c.session_id
                != self.status.session_id {
                batch.reset = true;
            }
        }
        batch
    }

    /// The devices that the last scan found.
    pub fn devices(&self) -> (r: Vec<DeviceInfo>)
        ensures
            r@ == self.devices@,
    {
        let mut out: Vec<DeviceInfo> = Vec::new();
        let mut i: usize = 0;
        while i < self.devices.len()
            invariant
                i <= self.devices@.len(),
                out@ == self.devices@.take(i as int),
            decreases self.devices@.len() - i,
        {
            out.push(self.devices[i].clone());
            assert(self.devices@.take(i + 1) =~= self.devices@.take(i as int).push(
                self.devices@[i as int],
            ));
            i = i + 1;
        }
        assert(self.devices@.take(i as int) =~= self.devices@);
        out
    }

    /// With the reference given up. The epoch moves once for each operation.
    pub open spec fn unreferenced(self, reason: ReferenceReason) -> Controller {
        let counted = self.operation matches Some(op) && op.reference_may_have_changed;
        Controller {
            descriptor: SourceDescriptor {
                reference_epoch: if counted {
                    self.descriptor.reference_epoch
                } else {
                    (self.descriptor.reference_epoch + 1) as u64
                },
                reference_reason: reason,
                metadata_revision: (self.descriptor.metadata_revision + 1) as u64,
                ..self.descriptor
            },
            operation: match self.operation {
                Some(op) => Some(OperationStatus { reference_may_have_changed: true, ..op }),
                None => None,
            },
            ..self
        }
    }

    pub fn invalidate_reference(&mut self, reason: ReferenceReason)
        requires
            old(self).wf(),
            old(self).descriptor.reference_epoch < u64::MAX,
            old(self).descriptor.metadata_revision < u64::MAX,
        ensures
            final(self).wf(),
            *final(self) == old(self).unreferenced(reason),
    {
        let counted = match &self.operation {
            Some(op) => op.reference_may_have_changed,
            None => false,
        };
        if !counted {
            self.descriptor.reference_epoch = self.descriptor.reference_epoch + 1;
        }
        self.descriptor.reference_reason = reason;
        self.descriptor.metadata_revision = self.descriptor.metadata_revision + 1;
        if let Some(op) = &mut self.operation {
            op.reference_may_have_changed = true;
        }
    }

    /// What the progress of a device operation leaves.
    pub open spec fn progresses_as(self, progress: Progress, after: Controller) -> bool {
        match progress {
            Progress::WriteAttempt { reference, persistent } => {
                let b = Controller {
                    descriptor: SourceDescriptor {
                        device: DeviceObservation {
                            valid: false,
                            ..self.descriptor.device
                        },
                        metadata_revision: (self.descriptor.metadata_revision + 1) as u64,
                        ..self.descriptor
                    },
                    ..self
                };
                let c = if reference {
                    b.unreferenced(ReferenceReason::DeviceControl)
                } else {
                    b
                };
                &&& after == (Controller { operation: after.operation, ..c })
                &&& match c.operation {
                    None => after.operation is None,
                    Some(before) => after.operation matches Some(op) && op == (
                    OperationStatus {
                        write_attempted: true,
                        persistence: op.persistence,
                        ..before
                    }) && op.persistence@ == (if persistent {
                        "unverified"@
                    } else {
                        before.persistence@
                    }),
                }
            },
            _ => after == (Controller {
                operation: match self.operation {
                    None => None,
                    Some(op) => Some(
                        match progress {
                            Progress::CommandSent => OperationStatus {
                                command_sent: true,
                                ..op
                            },
                            Progress::RegisterVerified => OperationStatus {
                                register_verified: true,
                                ..op
                            },
                            _ => OperationStatus { completion_observed: true, ..op },
                        },
                    ),
                },
                ..self
            }),
        }
    }

    /// A device operation reports how far it has come.
    pub fn progress(&mut self, progress: Progress)
        requires
            old(self).wf(),
            progress is WriteAttempt ==> old(self).descriptor.metadata_revision < u64::MAX - 1,
            progress is WriteAttempt ==> old(self).descriptor.reference_epoch < u64::MAX,
        ensures
            final(self).wf(),
            old(self).progresses_as(progress, *final(self)),
    {
        match progress {
            Progress::WriteAttempt { reference, persistent } => {
                self.descriptor.device.valid = false;
                self.descriptor.metadata_revision = self.descriptor.metadata_revision + 1;
                if reference {
                    self.invalidate_reference(ReferenceReason::DeviceControl);
                }
                if let Some(op) = &mut self.operation {
                    op.write_attempted = true;
                    if persistent {
                        op.persistence = "unverified".to_string();
                    }
                }
            },
            Progress::CommandSent => {
                if let Some(op) = &mut self.operation {
                    op.command_sent = true;
                }
            },
            Progress::RegisterVerified => {
                if let Some(op) = &mut self.operation {
                    op.register_verified = true;
                }
            },
            Progress::CompletionObserved => {
                if let Some(op) = &mut self.operation {
                    op.completion_observed = true;
                }
            },
        }
    }

    /// What a device operation leaves that was carried through.
    pub open spec fn concludes_as(
        self,
        conclusion: Conclusion,
        observation: Option<DeviceObservation>,
        after: Controller,
    ) -> bool {
        &&& after == (Controller {
            descriptor: match observation {
                Some(seen) => SourceDescriptor {
                    device: seen,
                    metadata_revision: (self.descriptor.metadata_revision + 1) as u64,
                    ..self.descriptor
                },
                None => self.descriptor,
            },
            status: StatusSnapshot {
                configuration_report: after.status.configuration_report,
                ..self.status
            },
            operation: after.operation,
            ..self
        })
        &&& after.status.configuration_report matches Some(m) && m@ == conclusion.text()
        &&& match self.operation {
            None => after.operation is None,
            Some(before) => after.operation matches Some(op) && op == (OperationStatus {
                outcome: conclusion.spec_outcome(),
                message: op.message,
                ..before
            }) && (op.message matches Some(m) && m@ == conclusion.text()),
        }
    }

    /// A device operation was carried through.
    pub fn control_finished(
        &mut self,
        conclusion: Conclusion,
        observation: Option<DeviceObservation>,
    )
        requires
            old(self).wf(),
            old(self).descriptor.metadata_revision < u64::MAX,
        ensures
            final(self).wf(),
            old(self).concludes_as(conclusion, observation, *final(self)),
    {
        if let Some(seen) = observation {
            self.descriptor.device = seen;
            self.descriptor.metadata_revision = self.descriptor.metadata_revision + 1;
        }
        self.status.configuration_report = Some(conclusion.message());
        if let Some(op) = &mut self.operation {
            op.outcome = conclusion.outcome();
            op.message = Some(conclusion.message());
        }
    }

    /// A device operation failed. Once a write was attempted its effect is not
    /// known, and the reference is given up.
    pub fn control_failed(&mut self)
        requires
            old(self).wf(),
            old(self).descriptor.metadata_revision < u64::MAX,
            old(self).descriptor.reference_epoch < u64::MAX,
        ensures
            final(self).wf(),
            *final(self) == (if old(self).operation matches Some(op) && op.write_attempted {
                old(self).unreferenced(ReferenceReason::DeviceControlUncertain)
            } else {
                *old(self)
            }),
    {
        let attempted = match &self.operation {
            Some(op) => op.write_attempted,
            None => false,
        };
        if attempted {
            self.invalidate_reference(ReferenceReason::DeviceControlUncertain);
        }
    }

    /// What the beginning of a session leaves.
    pub open spec fn begins_as(self, after: Controller) -> bool {
        let b = self;
        let a = after;
        let again = b.descriptor.session_id != 0;
        &&& a == (Controller {
            descriptor: SourceDescriptor {
                reference_epoch: if again {
                    (b.descriptor.reference_epoch + 1) as u64
                } else {
                    b.descriptor.reference_epoch
                },
                reference_reason: if again {
                    ReferenceReason::Reconnected
                } else {
                    b.descriptor.reference_reason
                },
                device: DeviceObservation {
                    valid: !again && b.descriptor.device.valid,
                    ..b.descriptor.device
                },
                instance_id: a.descriptor.instance_id,
                session_id: a.descriptor.session_id,
                metadata_revision: (b.descriptor.metadata_revision + 1) as u64,
                ..b.descriptor
            },
            status: StatusSnapshot {
                session_id: a.descriptor.session_id,
                session_samples: 0,
                session_span_ns: 0,
                interval_min_ns: 0,
                interval_max_ns: 0,
                state: ConnectionState::Connecting,
                ..b.status
            },
            motion: a.motion,
            battery: Battery::unread(),
            pose: None,
            last_pose: None,
            first_pose: None,
            ..b
        })
        &&& a.motion.is_empty()
        &&& is_identifier(a.descriptor.session_id)
        &&& if b.descriptor.instance_id == 0 {
            is_identifier(a.descriptor.instance_id)
        } else {
            a.descriptor.instance_id == b.descriptor.instance_id
        }
    }

    /// A connection is open: a new session begins. Of a reconnection the
    /// reference is a new one.
    pub fn begin_session(&mut self)
        requires
            old(self).wf(),
            old(self).descriptor.metadata_revision < u64::MAX,
            old(self).descriptor.session_id != 0 ==> old(self).descriptor.reference_epoch
                < u64::MAX,
        ensures
            final(self).wf(),
            old(self).begins_as(*final(self)),
    {
        if self.descriptor.session_id != 0 {
            self.descriptor.reference_epoch = self.descriptor.reference_epoch + 1;
            self.descriptor.reference_reason = ReferenceReason::Reconnected;
            self.descriptor.device.valid = false;
        }
        self.motion = History::default();
        self.battery = Battery::default();
        self.pose = None;
        self.last_pose = None;
        self.first_pose = None;
        if self.descriptor.instance_id == 0 {
            self.descriptor.instance_id = new_id();
        }
        self.status.session_id = new_id();
        self.status.session_samples = 0;
        self.status.session_span_ns = 0;
        self.status.interval_min_ns = 0;
        self.status.interval_max_ns = 0;
        self.descriptor.session_id = self.status.session_id;
        self.descriptor.metadata_revision = self.descriptor.metadata_revision + 1;
        self.status.state = ConnectionState::Connecting;
    }

    pub open spec fn feed(&self) -> Feed {
        Feed {
            status: self.status,
            pose: self.pose,
            last_pose: self.last_pose,
            first_pose: self.first_pose,
            records: self.motion.records@,
            delivery: self.motion.delivery,
        }
    }

    /// `other` differs from this controller in what publishing changes only.
    pub open spec fn same_but_feed(&self, other: Controller) -> bool {
        *self == (Controller {
            status: self.status,
            pose: self.pose,
            last_pose: self.last_pose,
            first_pose: self.first_pose,
            motion: self.motion,
            ..other
        })
    }

    /// Publishes a pose that was received at `now`; reception began at `start`.
    pub fn publish(&mut self, pose: &ConvertedPose, start: u64, now: u64)
        requires
            old(self).wf(),
            old(self).status.pose_count < u64::MAX,
            old(self).status.session_samples < u64::MAX,
        ensures
            final(self).wf(),
            final(self).same_but_feed(*old(self)),
            final(self).feed() == old(self).feed().with(
                old(self).descriptor,
                Some(*pose),
                start,
                now,
            ),
    {
        if let Some(last) = self.last_pose {
            let gap: u64 = elapsed_ns(last, now);
            if self.status.session_samples == 1 || gap < self.status.interval_min_ns {
                self.status.interval_min_ns = gap;
            }
            if gap > self.status.interval_max_ns {
                self.status.interval_max_ns = gap;
            }
        }
        let first: u64 = match self.first_pose {
            Some(first) => first,
            None => now,
        };
        self.first_pose = Some(first);
        self.last_pose = Some(now);
        self.status.pose_count = self.status.pose_count + 1;
        self.status.session_samples = self.status.session_samples + 1;
        self.status.session_span_ns = elapsed_ns(first, now);
        self.status.state = ConnectionState::Active;
        let received_ns: u64 = elapsed_ns(start, now);
        self.pose = Some(
            PoseSnapshot {
                instance_id: self.descriptor.instance_id,
                reference_epoch: self.descriptor.reference_epoch,
                metadata_revision: self.descriptor.metadata_revision,
                session_id: self.status.session_id,
                sequence: self.status.session_samples,
                received_ns,
                age_ns: 0,
                sample_time: pose.time,
                quaternion_xyzw: pose.quaternion_xyzw,
                euler_deg: pose.euler_deg,
                raw: pose.raw,
                fresh: true,
            },
        );
        if let Some(signals) = pose.signals {
            let sample = MotionSample {
                source_id: self.descriptor.source_id.clone(),
                cursor: MotionCursor {
                    instance_id: self.descriptor.instance_id,
                    session_id: self.status.session_id,
                    sequence: self.status.session_samples,
                },
                reference_epoch: self.descriptor.reference_epoch,
                metadata_revision: self.descriptor.metadata_revision,
                delivery_id: self.motion.delivery,
                received_ns,
                age_ns: 0,
                fresh: true,
                sample_time: pose.time,
                orientation_xyzw: signals.orientation,
                euler_deg: pose.euler_deg,
                angular_velocity_rad_s: signals.gyro,
                acceleration_g: signals.acceleration,
                orientation_source: signals.source,
                profile: signals.profile,
            };
            self.motion.push(now, sample);
        }
    }

    /// Publishes the poses of one read together, under one delivery number. A
    /// pose that could not be converted counts as invalid.
    pub fn publish_batch(&mut self, poses: &Vec<Option<ConvertedPose>>, start: u64, now: u64)
        requires
            old(self).wf(),
            old(self).motion.delivery < u64::MAX,
            old(self).status.pose_count + poses@.len() <= u64::MAX,
            old(self).status.session_samples + poses@.len() <= u64::MAX,
            old(self).status.invalid_poses + poses@.len() <= u64::MAX,
        ensures
            final(self).wf(),
            final(self).same_but_feed(*old(self)),
            final(self).feed() == (Feed {
                delivery: (old(self).motion.delivery + 1) as u64,
                ..old(self).feed()
            }).with_all(old(self).descriptor, poses@, start, now),
    {
        let ghost begin = *self;
        self.motion.delivery = self.motion.delivery + 1;
        let ghost opened = self.feed();
        let mut i: usize = 0;
        while i < poses.len()
            invariant
                begin == *old(self),
                begin.wf(),
                begin.status.pose_count + poses@.len() <= u64::MAX,
                begin.status.session_samples + poses@.len() <= u64::MAX,
                begin.status.invalid_poses + poses@.len() <= u64::MAX,
                i <= poses@.len(),
                opened == (Feed {
                    delivery: (begin.motion.delivery + 1) as u64,
                    ..begin.feed()
                }),
                self.wf(),
                self.same_but_feed(begin),
                self.feed() == opened.with_all(begin.descriptor, poses@.take(i as int), start, now),
                self.status.pose_count <= begin.status.pose_count + i,
                self.status.session_samples <= begin.status.session_samples + i,
                self.status.invalid_poses <= begin.status.invalid_poses + i,
            decreases poses@.len() - i,
        {
            assert(poses@.take(i + 1).drop_last() =~= poses@.take(i as int));
            assert(poses@.take(i + 1).last() == poses@[i as int]);
            match &poses[i] {
                Some(pose) => {
                    self.publish(pose, start, now);
                },
                None => {
                    self.status.invalid_poses = self.status.invalid_poses + 1;
                },
            }
            i = i + 1;
        }
        assert(poses@.take(i as int) =~= poses@);
    }

    /// What sending poses leaves.
    pub open spec fn outputs_as(
        self,
        sent: bool,
        coalesced: u64,
        errors: u64,
        after: Controller,
    ) -> bool {
        &&& after == (Controller {
            status: StatusSnapshot {
                osc_sent: (self.status.osc_sent + (if sent {
                    1int
                } else {
                    0int
                })) as u64,
                coalesced_samples: coalesced,
                send_errors: (self.status.send_errors + errors) as u64,
                ..self.status
            },
            ..self
        })
    }

    /// What sending poses has come to.
    pub fn note_output(&mut self, sent: bool, coalesced: u64, errors: u64)
        requires
            old(self).wf(),
            old(self).status.osc_sent < u64::MAX,
            old(self).status.send_errors + errors <= u64::MAX,
        ensures
            final(self).wf(),
            old(self).outputs_as(sent, coalesced, errors, *final(self)),
    {
        if sent {
            self.status.osc_sent = self.status.osc_sent + 1;
        }
        self.status.coalesced_samples = coalesced;
        self.status.send_errors = self.status.send_errors + errors;
    }

    /// What sending telemetry leaves.
    pub open spec fn reports_as(
        self,
        result: Result<u64, Error>,
        errors: u64,
        after: Controller,
    ) -> bool {
        &&& after == (Controller {
            status: StatusSnapshot {
                telemetry_sent: (self.status.telemetry_sent + (match result {
                    Ok(count) => count as int,
                    Err(_) => 0,
                })) as u64,
                send_errors: (self.status.send_errors + errors + (if result is Err
                    && errors == 0 {
                    1int
                } else {
                    0int
                })) as u64,
                last_error: after.status.last_error,
                ..self.status
            },
            ..self
        })
        &&& match result {
            Ok(_) => after.status.last_error == self.status.last_error,
            Err(e) => after.status.last_error matches Some(m) && m@ == e.text(),
        }
    }

    /// What sending telemetry has come to: messages sent, or an error, and the
    /// failures that the sender itself has counted meanwhile.
    pub fn note_telemetry(&mut self, result: Result<u64, Error>, errors: u64)
        requires
            old(self).wf(),
            old(self).status.send_errors + errors < u64::MAX,
            result matches Ok(count) ==> old(self).status.telemetry_sent + count <= u64::MAX,
        ensures
            final(self).wf(),
            old(self).reports_as(result, errors, *final(self)),
    {
        match result {
            Ok(count) => {
                self.status.telemetry_sent = self.status.telemetry_sent + count;
            },
            Err(error) => {
                if errors == 0 {
                    self.status.send_errors = self.status.send_errors + 1;
                }
                self.status.last_error = Some(error.message());
            },
        }
        self.status.send_errors = self.status.send_errors + errors;
    }

    /// A connection is being opened.
    pub fn connecting(&mut self)
        requires
            old(self).wf(),
        ensures
            final(self).wf(),
            *final(self) == (Controller {
                status: StatusSnapshot { state: ConnectionState::Connecting, ..old(self).status },
                ..*old(self)
            }),
    {
        self.status.state = ConnectionState::Connecting;
    }

    /// The device of the connection has this name.
    pub fn device_named(&mut self, name: Option<String>)
        requires
            old(self).wf(),
            old(self).descriptor.metadata_revision < u64::MAX,
        ensures
            final(self).wf(),
            if same_text(old(self).descriptor.device_name, name) {
                *final(self) == *old(self)
            } else {
                *final(self) == (Controller {
                    descriptor: SourceDescriptor {
                        device_name: name,
                        metadata_revision: (old(self).descriptor.metadata_revision + 1) as u64,
                        ..old(self).descriptor
                    },
                    ..*old(self)
                })
            },
    {
        if !equal_texts(&self.descriptor.device_name, &name) {
            self.descriptor.device_name = name;
            self.descriptor.metadata_revision = self.descriptor.metadata_revision + 1;
        }
    }

    /// What losing a connection gives, and leaves.
    pub open spec fn loses_as(
        self,
        error: Error,
        r: Result<(), Error>,
        after: Controller,
    ) -> bool {
        if is_final(error) {
            r == Err::<(), Error>(error) && after == self
        } else {
            &&& r is Ok
            &&& after == (Controller {
                status: StatusSnapshot {
                    last_error: after.status.last_error,
                    state: ConnectionState::Reconnecting,
                    reconnect_count: (self.status.reconnect_count + 1) as u64,
                    ..self.status
                },
                ..self
            })
            &&& after.status.last_error matches Some(m) && m@ == error.text()
        }
    }

    /// A connection could not be opened, or was lost. What a retry cannot mend
    /// is handed back; anything else is noted, and the connection is retried.
    pub fn connection_lost(&mut self, error: Error) -> (r: Result<(), Error>)
        requires
            old(self).wf(),
            old(self).status.reconnect_count < u64::MAX,
        ensures
            final(self).wf(),
            old(self).loses_as(error, r, *final(self)),
    {
        match error {
            Error::Cancelled | Error::Permission(_) | Error::Protocol(_) | Error::Invalid(
                _,
            ) => Err(error),
            _ => {
                self.status.last_error = Some(error.message());
                self.status.state = ConnectionState::Reconnecting;
                self.status.reconnect_count = self.status.reconnect_count + 1;
                Ok(())
            },
        }
    }

    /// Takes in one read of a magnetic session: counts it, and notes the field
    /// and calibration-switch replies in it.
    pub fn magnetic_receive(
        &mut self,
        parser: &mut Parser,
        bytes: &[u8],
        at: u64,
        start: u64,
    ) -> (r: Vec<Frame>)
        requires
            old(self).wf(),
            old(self).room_to_read(bytes@.len() as int),
            old(self).magnetic.sequence + MAX_FRAME_BYTES + bytes@.len() <= u64::MAX,
            old(parser).wf(),
            old(parser).discarded_bytes + MAX_FRAME_BYTES + bytes@.len() <= u64::MAX,
            old(parser).invalid_frames + MAX_FRAME_BYTES + bytes@.len() <= u64::MAX,
        ensures
            final(self).wf(),
            final(parser).wf(),
            ({
                let reading = crate::protocol::read(old(parser).buffer@ + bytes@);
                &&& r@ == reading.frames
                &&& final(parser).buffer@ == reading.rest
                &&& final(parser).discarded_bytes == old(parser).discarded_bytes
                    + reading.discarded
                &&& final(parser).invalid_frames == old(parser).invalid_frames + reading.invalid
                &&& *final(self) == (Controller {
                    status: StatusSnapshot {
                        bytes_received: (old(self).status.bytes_received + bytes@.len()) as u64,
                        frames_received: (old(self).status.frames_received + reading.frames.len())
                            as u64,
                        discarded_bytes: (old(self).status.discarded_bytes + reading.discarded)
                            as u64,
                        invalid_frames: (old(self).status.invalid_frames + reading.invalid) as u64,
                        ..old(self).status
                    },
                    magnetic: final(self).magnetic,
                    ..*old(self)
                })
                &&& final(self).magnetic.same_session(old(self).magnetic)
                &&& final(self).magnetic.readings() == old(self).magnetic.readings().with_frames(
                    old(self).magnetic.identity(),
                    reading.frames,
                    at,
                    start,
                )
            }),
    {
        let discarded: u64 = parser.discarded_bytes;
        let invalid: u64 = parser.invalid_frames;
        proof {
            let b = parser.buffer@ + bytes@;
            crate::protocol::reading_accounts_for_every_byte(b);
            crate::protocol::reading_leaves_less_than_a_frame(parser.buffer@);
            crate::protocol::reading_has_fewer_frames_than_bytes(b);
        }
        let frames = parser.push(bytes);
        self.status.bytes_received = self.status.bytes_received + bytes.len() as u64;
        self.status.frames_received = self.status.frames_received + frames.len() as u64;
        self.status.discarded_bytes =
            self.status.discarded_bytes + (parser.discarded_bytes - discarded);
        self.status.invalid_frames =
            self.status.invalid_frames + (parser.invalid_frames - invalid);
        self.magnetic.observe_frames(&frames, at, start);
        frames
    }
}

/// A controller with room can take in a read of less than 2^62 bytes, and grow
/// any counter by as much.
pub proof fn room_is_enough(c: Controller, n: int)
    requires
        c.roomy(),
        0 <= n < 0x4000_0000_0000_0000,
    ensures
        c.room_to_read(n),
        c.descriptor.metadata_revision + n < u64::MAX,
        c.descriptor.reference_epoch + n < u64::MAX,
        c.motion.delivery + n < u64::MAX,
        c.magnetic.sequence + MAX_FRAME_BYTES + n <= u64::MAX,
        c.status.pose_count + n <= u64::MAX,
        c.status.session_samples + n <= u64::MAX,
        c.status.invalid_poses + MAX_FRAME_BYTES + n <= u64::MAX,
{
}

/// What retrying a connection cannot mend.
pub open spec fn is_final(e: Error) -> bool {
    e is Cancelled || e is Permission || e is Protocol || e is Invalid
}

/// Twice as many seconds, eight at most.
pub open spec fn doubled(seconds: u64) -> u64 {
    (if 2 * seconds > 8 {
        8
    } else {
        2 * seconds
    }) as u64
}

/// Seconds to wait before the next attempt: doubled each time, up to eight.
pub fn next_backoff(seconds: u64) -> (r: u64)
    requires
        1 <= seconds <= 8,
    ensures
        1 <= r <= 8,
        r == doubled(seconds),
{
    if 2 * seconds > 8 {
        8
    } else {
        2 * seconds
    }
}

/// Once reception has stopped or failed, or waits for a reconnection, no pose
/// is fresh; a fresh pose is younger than half a second.
pub proof fn only_live_poses_are_fresh(c: Controller, now: u64)
    ensures
        c.pose_at(now) is Some && c.pose_at(now)->0.fresh ==> {
            &&& c.status.state == ConnectionState::Active || c.status.state
                == ConnectionState::Stale
            &&& c.pose_at(now)->0.age_ns < STALE_AFTER_NS
        },
        c.status_at(now).state == ConnectionState::Active ==> c.is_fresh(now),
{
}

/// Acquisition that is stopped keeps the last pose, which is not fresh any more;
/// nothing else of it changes but its age.
pub proof fn a_stopped_pose_stays_and_is_stale(
    c: Controller,
    now: u64,
    r: Result<(), Error>,
    stopped: Controller,
    later: u64,
)
    requires
        !c.monitoring,
        c.stops_as(false, now, r, stopped),
    ensures
        r is Ok,
        stopped.status_at(later).state == ConnectionState::Stopped,
        stopped.pose_at(later) == (match c.pose_at(later) {
            Some(pose) => Some(PoseSnapshot { fresh: false, ..pose }),
            None => None,
        }),
{
}

/// Stopping what is stopped succeeds and changes nothing.
pub proof fn a_second_stop_changes_nothing(
    c: Controller,
    now: u64,
    r: Result<(), Error>,
    stopped: Controller,
    timed_out: bool,
    later: u64,
    again: Result<(), Error>,
    after: Controller,
)
    requires
        !c.monitoring,
        c.stops_as(false, now, r, stopped),
        stopped.stops_as(timed_out, later, again, after),
    ensures
        again is Ok,
        after == stopped,
{
}

/// While acquisition runs another start is refused as busy and changes nothing.
/// Once it has ended, in whatever way, and was stopped, a start is accepted, and
/// begins without a pose.
pub proof fn a_start_is_accepted_after_a_stop(
    running: Controller,
    platform: Platform,
    refused: Result<(), Error>,
    unchanged: Controller,
    outcome: TaskOutcome,
    ended_at: u64,
    ended: Controller,
    stopped_at: u64,
    stop: Result<(), Error>,
    stopped: Controller,
    accepted: Result<(), Error>,
    started: Controller,
)
    requires
        running.task == TaskState::Running,
        !running.monitoring,
        running.config.acquisition_problem(platform) is None,
        running.starts_as(platform, refused, unchanged),
        running.ends_as(outcome, ended_at, ended),
        ended.stops_as(false, stopped_at, stop, stopped),
        stopped.starts_as(platform, accepted, started),
    ensures
        refused == Err::<(), Error>(Error::Busy),
        unchanged == running,
        stop is Ok,
        accepted is Ok,
        started.task == TaskState::Running,
        started.status.state == ConnectionState::Connecting,
        started.pose is None,
        is_identifier(started.descriptor.instance_id),
{
}

/// A session after another of the same run keeps the instance and has a reference
/// of its own, one epoch on. It begins without samples.
pub proof fn a_reconnection_has_its_own_reference(
    first: Controller,
    opened: Controller,
    used: Controller,
    error: Error,
    lost: Controller,
    again: Controller,
)
    requires
        first.begins_as(opened),
        used.descriptor.instance_id == opened.descriptor.instance_id,
        used.descriptor.session_id == opened.descriptor.session_id,
        used.descriptor.reference_epoch == opened.descriptor.reference_epoch < u64::MAX,
        used.loses_as(error, Ok(()), lost),
        lost.begins_as(again),
    ensures
        again.descriptor.reference_epoch == opened.descriptor.reference_epoch + 1,
        again.descriptor.reference_reason == ReferenceReason::Reconnected,
        again.descriptor.instance_id == opened.descriptor.instance_id,
        is_identifier(again.descriptor.session_id),
        again.status.session_samples == 0,
        again.pose is None,
        again.status.reconnect_count == lost.status.reconnect_count,
        lost.status.state == ConnectionState::Reconnecting,
{
}

/// However often a reference is given up during one operation, its epoch moves
/// by one.
pub proof fn reference_moves_once_per_operation(
    c: Controller,
    first: ReferenceReason,
    second: ReferenceReason,
)
    requires
        c.operation is Some,
        c.descriptor.reference_epoch < u64::MAX,
    ensures
        c.unreferenced(first).unreferenced(second).descriptor.reference_epoch == c.unreferenced(
            first,
        ).descriptor.reference_epoch,
        c.unreferenced(first).descriptor.reference_epoch <= c.descriptor.reference_epoch + 1,
{
}

/// The samples of one read carry one delivery number and one reception time,
/// and the pose that is current afterwards is the last valid one of them.
pub proof fn a_delivery_is_published_together(
    f: Feed,
    d: SourceDescriptor,
    poses: Seq<Option<ConvertedPose>>,
    start: u64,
    now: u64,
)
    ensures
        ({
            let g = f.with_all(d, poses, start, now);
            &&& g.delivery == f.delivery
            &&& forall|i: int|
                0 <= i < g.records.len() ==> f.records.contains(#[trigger] g.records[i]) || (
                g.records[i].sample.delivery_id == f.delivery && g.records[i].received == now)
            &&& poses.len() > 0 && poses.last() is Some ==> g.pose is Some
                && g.pose->0.sample_time == poses.last()->0.time && g.pose->0.quaternion_xyzw
                == poses.last()->0.quaternion_xyzw && g.last_pose == Some(now)
        }),
    decreases poses.len(),
{
    if poses.len() > 0 {
        a_delivery_is_published_together(f, d, poses.drop_last(), start, now);
        let before = f.with_all(d, poses.drop_last(), start, now);
        let g = f.with_all(d, poses, start, now);
        assert forall|i: int| 0 <= i < g.records.len() implies f.records.contains(
            #[trigger] g.records[i],
        ) || (g.records[i].sample.delivery_id == f.delivery && g.records[i].received == now) by {
            match poses.last() {
                Some(p) => match p.signals {
                    Some(signals) => {
                        if i < g.records.len() - 1 {
                            if before.records.len() >= crate::motion::MOTION_HISTORY_CAPACITY {
                                assert(g.records[i] == before.records[i + 1]);
                            } else {
                                assert(g.records[i] == before.records[i]);
                            }
                        }
                    },
                    None => {
                        assert(g.records[i] == before.records[i]);
                    },
                },
                None => {
                    assert(g.records[i] == before.records[i]);
                },
            }
        }
    } else {
        assert forall|i: int| 0 <= i < f.records.len() implies f.records.contains(
            #[trigger] f.records[i],
        ) by {}
    }
}

/// The record holds the last samples of the session, numbered without a gap up
/// to the number of the last one.
pub open spec fn record_is_current(f: Feed, d: SourceDescriptor) -> bool {
    &&& crate::motion::numbered(f.records)
    &&& f.records.len() > 0 ==> f.records.last().sample.cursor == (MotionCursor {
        instance_id: d.instance_id,
        session_id: f.status.session_id,
        sequence: f.status.session_samples,
    })
}

/// Samples of a session are numbered one after another, in the pose as in the
/// record, and the record stays without gaps.
pub proof fn samples_are_numbered(
    f: Feed,
    d: SourceDescriptor,
    p: ConvertedPose,
    start: u64,
    now: u64,
)
    requires
        record_is_current(f, d),
        p.signals is Some,
        f.status.session_samples < u64::MAX,
    ensures
        ({
            let g = f.with(d, Some(p), start, now);
            &&& record_is_current(g, d)
            &&& g.status.session_samples == f.status.session_samples + 1
            &&& g.pose matches Some(pose) && pose.sequence == g.status.session_samples
            &&& g.records.last().sample.cursor.sequence == g.status.session_samples
        }),
{
    let r = f.record_with(d, p, p.signals->0, start, now);
    crate::motion::pushing_keeps_numbers(f.records, r);
    assert(pushed(f.records, r).last() == r);
}

/// How many poses of a read are valid.
pub open spec fn valid_poses(poses: Seq<Option<ConvertedPose>>) -> nat
    decreases poses.len(),
{
    if poses.len() == 0 {
        0
    } else {
        valid_poses(poses.drop_last()) + (if poses.last() is Some {
            1nat
        } else {
            0nat
        })
    }
}

/// A read of several poses numbers its valid ones one after another, and keeps
/// the record without gaps.
pub proof fn reads_are_numbered(
    f: Feed,
    d: SourceDescriptor,
    poses: Seq<Option<ConvertedPose>>,
    start: u64,
    now: u64,
)
    requires
        record_is_current(f, d),
        forall|i: int|
            0 <= i < poses.len() ==> ((#[trigger] poses[i]) matches Some(p) ==> p.signals is Some),
        f.status.session_samples + poses.len() <= u64::MAX,
    ensures
        record_is_current(f.with_all(d, poses, start, now), d),
        f.with_all(d, poses, start, now).status.session_samples == f.status.session_samples
            + valid_poses(poses),
        valid_poses(poses) <= poses.len(),
    decreases poses.len(),
{
    if poses.len() > 0 {
        let front = poses.drop_last();
        assert forall|i: int| 0 <= i < front.len() implies ((#[trigger] front[i]) matches Some(p)
            ==> p.signals is Some) by {
            assert(front[i] == poses[i]);
        }
        reads_are_numbered(f, d, front, start, now);
        assert(poses.last() == poses[poses.len() - 1]);
        if let Some(p) = poses.last() {
            samples_are_numbered(f.with_all(d, front, start, now), d, p, start, now);
        }
    }
}

/// A reader whose cursor is of this session gets every sample after it, or is
/// told how many it has missed.
pub proof fn readers_miss_nothing_in_silence(c: Controller, cursor: MotionCursor, now: u64)
    requires
        record_is_current(c.feed(), c.descriptor),
        c.motion.records@.len() > 0,
        cursor.instance_id == c.descriptor.instance_id,
        cursor.session_id == c.status.session_id,
        cursor.sequence <= c.status.session_samples,
    ensures
        !crate::motion::is_reset(c.motion.records@, Some(cursor)),
        crate::motion::samples_after(
            c.motion.records@,
            crate::motion::read_after(c.motion.records@, Some(cursor)),
            now,
            c.is_fresh(now),
        ).len() + crate::motion::overrun(c.motion.records@, Some(cursor))
            == c.status.session_samples - cursor.sequence,
{
    crate::motion::every_sample_is_returned_or_counted(
        c.motion.records@,
        cursor,
        now,
        c.is_fresh(now),
    );
}

/// A pose is published as it was converted: its numbers, its raw readings and its
/// time, under the present instance, session, reference and revision, numbered
/// next in the session, received when its read came in.
pub proof fn poses_are_published_as_converted(
    f: Feed,
    d: SourceDescriptor,
    p: ConvertedPose,
    start: u64,
    now: u64,
)
    requires
        f.status.session_samples < u64::MAX,
        f.status.pose_count < u64::MAX,
        start <= now,
        now - start < 0x8000_0000_0000_0000,
    ensures
        ({
            let g = f.with(d, Some(p), start, now);
            &&& g.pose matches Some(s) && {
                &&& s.quaternion_xyzw == p.quaternion_xyzw
                &&& s.euler_deg == p.euler_deg
                &&& s.raw == p.raw
                &&& s.sample_time == p.time
                &&& s.instance_id == d.instance_id
                &&& s.session_id == f.status.session_id
                &&& s.reference_epoch == d.reference_epoch
                &&& s.metadata_revision == d.metadata_revision
                &&& s.sequence == f.status.session_samples + 1
                &&& s.received_ns == now - start
            }
            &&& g.status.pose_count == f.status.pose_count + 1
            &&& g.status.session_samples == f.status.session_samples + 1
            &&& g.status.state == ConnectionState::Active
            &&& g.status.invalid_poses == f.status.invalid_poses
            &&& g.last_pose == Some(now)
            &&& g.first_pose == (if f.first_pose is None {
                Some(now)
            } else {
                f.first_pose
            })
        }),
{
}

/// The sample on record of a pose is the pose that is published with it, with the
/// quantities of the same frame in head axes, and the number of its read.
pub proof fn samples_agree_with_their_poses(
    f: Feed,
    d: SourceDescriptor,
    p: ConvertedPose,
    start: u64,
    now: u64,
)
    requires
        p.signals is Some,
        f.records.len() <= 256,
    ensures
        ({
            let g = f.with(d, Some(p), start, now);
            let pose = g.pose->0;
            let record = g.records.last();
            let s = record.sample;
            let signals = p.signals->0;
            &&& record.received == now
            &&& s.cursor == (MotionCursor {
                instance_id: pose.instance_id,
                session_id: pose.session_id,
                sequence: pose.sequence,
            })
            &&& s.source_id == d.source_id
            &&& s.reference_epoch == pose.reference_epoch
            &&& s.metadata_revision == pose.metadata_revision
            &&& s.received_ns == pose.received_ns
            &&& s.sample_time == pose.sample_time
            &&& s.euler_deg == pose.euler_deg
            &&& s.orientation_xyzw == signals.orientation
            &&& s.angular_velocity_rad_s == signals.gyro
            &&& s.acceleration_g == signals.acceleration
            &&& s.orientation_source == signals.source
            &&& s.profile == signals.profile
            &&& s.delivery_id == f.delivery
        }),
{
}

/// A pose that could not be converted is counted as invalid and changes nothing
/// else.
pub proof fn invalid_poses_are_counted_only(f: Feed, d: SourceDescriptor, start: u64, now: u64)
    requires
        f.status.invalid_poses < u64::MAX,
    ensures
        ({
            let g = f.with(d, None, start, now);
            &&& g.status == (StatusSnapshot {
                invalid_poses: (f.status.invalid_poses + 1) as u64,
                ..f.status
            })
            &&& g.pose == f.pose
            &&& g.records == f.records
            &&& g.last_pose == f.last_pose
            &&& g.first_pose == f.first_pose
        }),
{
}

/// The feed after poses that were published at some times, one after another.
pub open spec fn published(
    f: Feed,
    d: SourceDescriptor,
    poses: Seq<ConvertedPose>,
    start: u64,
    times: Seq<u64>,
) -> Feed
    decreases times.len(),
{
    if times.len() == 0 {
        f
    } else {
        published(f, d, poses.drop_last(), start, times.drop_last()).with(
            d,
            Some(poses.last()),
            start,
            times.last(),
        )
    }
}

/// Over the poses of a session, the shortest and the longest interval are those of
/// two poses in a row, no interval is shorter or longer, and the span is the time
/// from the first to the last.
pub proof fn intervals_are_those_between_poses(
    f: Feed,
    d: SourceDescriptor,
    poses: Seq<ConvertedPose>,
    start: u64,
    times: Seq<u64>,
)
    requires
        poses.len() == times.len(),
        f.status.session_samples == 0,
        f.status.interval_min_ns == 0,
        f.status.interval_max_ns == 0,
        f.status.session_span_ns == 0,
        f.first_pose is None,
        f.last_pose is None,
        times.len() < u64::MAX,
        forall|i: int, j: int| 0 <= i <= j < times.len() ==> times[i] <= times[j],
        forall|i: int| 0 <= i < times.len() ==> #[trigger] times[i] < 0x8000_0000_0000_0000,
    ensures
        ({
            let g = published(f, d, poses, start, times);
            let n = times.len() as int;
            &&& g.status.session_samples == n
            &&& n == 0 ==> g.first_pose is None && g.last_pose is None
            &&& n > 0 ==> {
                &&& g.first_pose == Some(times[0])
                &&& g.last_pose == Some(times[n - 1])
                &&& g.status.session_span_ns == times[n - 1] - times[0]
            }
            &&& n <= 1 ==> g.status.interval_min_ns == 0 && g.status.interval_max_ns == 0
            &&& n > 1 ==> {
                &&& forall|i: int|
                    0 < i < n ==> g.status.interval_min_ns <= #[trigger] times[i] - times[i - 1]
                        <= g.status.interval_max_ns
                &&& exists|i: int|
                    0 < i < n && #[trigger] times[i] - times[i - 1] == g.status.interval_min_ns
                &&& g.status.interval_max_ns == 0 || exists|i: int|
                    0 < i < n && #[trigger] times[i] - times[i - 1] == g.status.interval_max_ns
            }
        }),
    decreases times.len(),
{
    let n = times.len() as int;
    if n > 0 {
        let ps = poses.drop_last();
        let ts = times.drop_last();
        assert forall|i: int| 0 <= i < ts.len() implies #[trigger] ts[i]
            < 0x8000_0000_0000_0000 by {
            assert(ts[i] == times[i]);
        }
        assert forall|i: int, j: int| 0 <= i <= j < ts.len() implies ts[i] <= ts[j] by {
            assert(ts[i] == times[i] && ts[j] == times[j]);
        }
        intervals_are_those_between_poses(f, d, ps, start, ts);
        let before = published(f, d, ps, start, ts);
        let g = published(f, d, poses, start, times);
        assert(times.last() == times[n - 1]);
        if n > 1 {
            assert(ts[n - 2] == times[n - 2]);
            assert(times[n - 2] <= times[n - 1]);
            assert(ts[0] == times[0]);
            assert(times[0] <= times[n - 1]);
            let gap = times[n - 1] - times[n - 2];
            assert(elapsed(times[n - 2], times[n - 1]) == gap);
            assert(elapsed(times[0], times[n - 1]) == times[n - 1] - times[0]);
            assert forall|i: int| 0 < i < n implies g.status.interval_min_ns <= #[trigger] times[i]
                - times[i - 1] <= g.status.interval_max_ns by {
                if i < n - 1 {
                    assert(ts[i] == times[i] && ts[i - 1] == times[i - 1]);
                    assert(before.status.interval_min_ns <= ts[i] - ts[i - 1]
                        <= before.status.interval_max_ns);
                }
            }
            if g.status.interval_min_ns == gap {
                assert(times[n - 1] - times[n - 1 - 1] == g.status.interval_min_ns);
            } else {
                let i = choose|i: int|
                    0 < i < n - 1 && #[trigger] ts[i] - ts[i - 1] == before.status.interval_min_ns;
                assert(ts[i] == times[i] && ts[i - 1] == times[i - 1]);
                assert(times[i] - times[i - 1] == g.status.interval_min_ns);
            }
            if g.status.interval_max_ns != 0 {
                if g.status.interval_max_ns == gap {
                    assert(times[n - 1] - times[n - 1 - 1] == g.status.interval_max_ns);
                } else {
                    let i = choose|i: int|
                        0 < i < n - 1 && #[trigger] ts[i] - ts[i - 1]
                            == before.status.interval_max_ns;
                    assert(ts[i] == times[i] && ts[i - 1] == times[i - 1]);
                    assert(times[i] - times[i - 1] == g.status.interval_max_ns);
                }
            }
        }
    }
}

/// A pose is fresh while reception is active or stale and the pose is younger than
/// half a second. What is shown of it is the pose as it was published, but for its
/// age and its freshness.
pub proof fn poses_are_fresh_for_half_a_second(c: Controller, now: u64)
    requires
        c.pose is Some,
        c.last_pose is Some,
        c.last_pose->0 <= now,
        now - c.last_pose->0 <= i64::MAX,
    ensures
        ({
            let age = now - c.last_pose->0;
            let live = c.status.state == ConnectionState::Active || c.status.state
                == ConnectionState::Stale;
            &&& c.pose_at(now) matches Some(p) && {
                &&& p.age_ns == age
                &&& p.fresh <==> live && age < 500_000_000
                &&& p == (PoseSnapshot { age_ns: p.age_ns, fresh: p.fresh, ..c.pose->0 })
            }
            &&& c.status_at(now).state == (if c.status.state == ConnectionState::Active && age
                >= 500_000_000 {
                ConnectionState::Stale
            } else {
                c.status.state
            })
        }),
{
}

/// What is shown of the state is what is recorded, but for an active reception
/// without a fresh pose, which is stale, and for the battery, which counts as there
/// while a connection is being made, is in use, or an operation has completed.
pub proof fn statuses_are_what_is_recorded(c: Controller, now: u64)
    ensures
        ({
            let s = c.status_at(now);
            let there = c.status.state == ConnectionState::Connecting || c.status.state
                == ConnectionState::Active || c.status.state == ConnectionState::Stale
                || c.status.state == ConnectionState::Complete;
            &&& s == (StatusSnapshot { state: s.state, battery: s.battery, ..c.status })
            &&& s.battery == c.battery.status_at(now, there)
            &&& s.state == c.status.state || s.state == ConnectionState::Stale
        }),
{
}

/// A reader with the cursor of another session, or of another instance, is told so
/// and gets all samples of this one, in order.
pub proof fn readers_of_another_session_start_over(c: Controller, cursor: MotionCursor, now: u64)
    requires
        record_is_current(c.feed(), c.descriptor),
        c.motion.records@.len() > 0,
        cursor.session_id != c.status.session_id || cursor.instance_id != c.descriptor.instance_id,
    ensures
        ({
            let records = c.motion.records@;
            let given = crate::motion::samples_after(
                records,
                crate::motion::read_after(records, Some(cursor)),
                now,
                c.is_fresh(now),
            );
            &&& crate::motion::is_reset(records, Some(cursor))
            &&& given.len() == records.len()
            &&& forall|i: int|
                0 <= i < given.len() ==> (#[trigger] given[i]).cursor == records[i].sample.cursor
            &&& crate::motion::overrun(records, Some(cursor)) == 0
        }),
{
    crate::motion::starting_over_returns_everything(
        c.motion.records@,
        Some(cursor),
        now,
        c.is_fresh(now),
    );
}

/// A reference that is given up has its reason, a new revision and, unless the
/// operation has given one up before, an epoch one on. The operation says so.
pub proof fn references_are_given_up_with_their_reason(c: Controller, reason: ReferenceReason)
    requires
        c.descriptor.reference_epoch < u64::MAX,
        c.descriptor.metadata_revision < u64::MAX,
    ensures
        ({
            let a = c.unreferenced(reason);
            let before = c.operation is Some && c.operation->0.reference_may_have_changed;
            &&& a.descriptor.reference_reason == reason
            &&& a.descriptor.metadata_revision == c.descriptor.metadata_revision + 1
            &&& a.descriptor.reference_epoch == c.descriptor.reference_epoch + (if before {
                0int
            } else {
                1int
            })
            &&& c.operation is Some ==> a.operation is Some
                && a.operation->0.reference_may_have_changed
            &&& a.status == c.status && a.pose == c.pose && a.motion == c.motion
        }),
{
}

/// Nothing can be started while a task runs, nor before an error that a magnetic
/// session has left has been told; a task that has ended otherwise is no obstacle.
pub proof fn one_task_runs_at_a_time(c: Controller)
    ensures
        c.task == TaskState::Running ==> c.obstacle() == Some(Error::Busy),
        c.task == TaskState::Absent ==> c.obstacle() is None,
        c.task == TaskState::Finished ==> {
            &&& !c.monitoring || c.magnetic.last_error is None ==> c.obstacle() is None
            &&& c.monitoring && c.magnetic.last_error is Some ==> c.obstacle() == Some(
                Error::Io(c.magnetic.last_error->0),
            )
        },
        c.task != TaskState::Running ==> c.cleared().task == TaskState::Absent,
        c.cleared().pose == c.pose && c.cleared().descriptor == c.descriptor && c.cleared().config
            == c.config,
{
}

/// An open magnetic session takes a start, a stop and a saving, once it has had a
/// sample, one at a time; it takes nothing else.
pub proof fn sessions_take_one_command_at_a_time(
    c: Controller,
    command: DeviceCommand,
    queue_free: bool,
)
    ensures
        c.queues(command, queue_free) ==> {
            &&& command is MagStart || command is MagStop || command is Save
            &&& c.magnetic.running
            &&& c.magnetic.records@.len() > 0
            &&& c.operation is None || c.operation->0.outcome != OperationOutcome::Running
            &&& queue_free
        },
        (command is MagStart || command is MagStop || command is Save) && c.magnetic.is_ready()
            && c.operation is None && queue_free ==> c.queues(command, queue_free),
{
}

/// Configurations that count as the same have the same source, name, mounting,
/// pose input and output; every configuration counts as the same as itself.
pub proof fn same_configurations_agree(a: Config, b: Config)
    ensures
        same_config(a, a),
        same_config(a, b) ==> {
            &&& a.mounting == b.mounting
            &&& a.pose_input == b.pose_input
            &&& a.source_name() == b.source_name()
            &&& (a.osc is Some) == (b.osc is Some)
            &&& a.osc is Some ==> a.osc->0.max_rate_hz == b.osc->0.max_rate_hz
                && a.osc->0.format == b.osc->0.format && a.osc->0.target.spec_port()
                == b.osc->0.target.spec_port()
            &&& match (a.source, b.source) {
                (
                    Source::Ble { device_id: x, connection_mode: m },
                    Source::Ble { device_id: y, connection_mode: n },
                ) => x@ == y@ && m == n,
                (Source::Usb { port: x, baud: m }, Source::Usb { port: y, baud: n }) => x@ == y@
                    && m == n,
                (
                    Source::Simulate { pattern: p, euler_deg: e, rate_hz: r, sample_clock: c },
                    Source::Simulate { pattern: q, euler_deg: f, rate_hz: s, sample_clock: d },
                ) => p == q && r == s && c == d && e[0].value() == f[0].value() && e[1].value()
                    == f[1].value() && e[2].value() == f[2].value(),
                _ => false,
            }
        },
{
}

/// The waits before attempts: never less than the last, twice as long up to eight
/// seconds.
pub proof fn waits_are_doubled(seconds: u64)
    requires
        1 <= seconds <= 8,
    ensures
        seconds <= 4 ==> doubled(seconds) == 2 * seconds,
        seconds >= 4 ==> doubled(seconds) == 8,
{
}

/// What ends a run: being cancelled, refused, or told that the configuration or
/// the protocol is wrong. What a device or the system may get over does not.
pub proof fn only_hopeless_errors_end_a_run(e: Error)
    ensures
        is_final(e) <==> !(e is Busy || e is Unavailable || e is Io || e is Timeout || e
            is Internal),
{
}

/// A configuration that breaks no rule is taken unless something runs. The epoch
/// of the reference moves on exactly where the source, the mounting or the pose
/// input is another one, and the revision where anything is; then nothing of the
/// old configuration is shown any more. What is known of the device stays with it.
pub proof fn configurations_move_reference_and_revision(
    c: Controller,
    config: Config,
    platform: Platform,
    r: Result<(), Error>,
    after: Controller,
)
    requires
        c.task == TaskState::Absent,
        config.problem(platform) is None,
        c.configures_as(config, platform, r, after),
        c.descriptor.metadata_revision < u64::MAX,
        c.descriptor.reference_epoch < u64::MAX,
    ensures
        r is Ok,
        after.config == config,
        after.descriptor.reference_epoch == c.descriptor.reference_epoch + (if same_config(
            c.config,
            config,
        ) || (same_source(c.config.source, config.source) && c.config.mounting == config.mounting
            && c.config.pose_input == config.pose_input) {
            0int
        } else {
            1int
        }),
        after.descriptor.metadata_revision == c.descriptor.metadata_revision + (if same_config(
            c.config,
            config,
        ) {
            0int
        } else {
            1int
        }),
        !same_config(c.config, config) ==> {
            &&& after.pose is None
            &&& after.motion.records@.len() == 0
            &&& after.status == StatusSnapshot::initial()
            &&& after.battery == Battery::unread()
            &&& after.descriptor.source_id@ == config.source_name()
        },
        same_config(c.config, config) ==> after.pose == c.pose && after.status == c.status
            && after.descriptor == c.descriptor,
        same_source(c.config.source, config.source) && !same_config(c.config, config)
            ==> after.descriptor.device == c.descriptor.device && after.descriptor.device_name
            == c.descriptor.device_name,
        !same_source(c.config.source, config.source) && !same_config(c.config, config)
            ==> !after.descriptor.device.valid && after.descriptor.device_name is None,
{
}

/// A write that is about to be sent makes what is known of the device invalid, and
/// the operation says that it was attempted before it is. What was sent, verified
/// and completed is said only when it is reported, and stays said.
pub proof fn progress_is_kept(c: Controller, progress: Progress, after: Controller)
    requires
        c.operation is Some,
        c.progresses_as(progress, after),
        c.descriptor.reference_epoch < u64::MAX,
        c.descriptor.metadata_revision < u64::MAX - 1,
    ensures
        after.operation is Some,
        ({
            let b = c.operation->0;
            let a = after.operation->0;
            &&& a.write_attempted <==> b.write_attempted || progress is WriteAttempt
            &&& a.command_sent <==> b.command_sent || progress is CommandSent
            &&& a.register_verified <==> b.register_verified || progress is RegisterVerified
            &&& a.completion_observed <==> b.completion_observed || progress is CompletionObserved
            &&& a.outcome == b.outcome && a.id == b.id && a.action == b.action
            &&& progress is WriteAttempt ==> !after.descriptor.device.valid
            &&& progress is WriteAttempt ==> after.descriptor.metadata_revision
                > c.descriptor.metadata_revision
            &&& !(progress is WriteAttempt) ==> after.descriptor == c.descriptor
            &&& progress matches Progress::WriteAttempt { reference, persistent } ==> {
                &&& a.reference_may_have_changed <==> b.reference_may_have_changed || reference
                &&& after.descriptor.reference_epoch == c.descriptor.reference_epoch + (
                if reference && !b.reference_may_have_changed {
                    1int
                } else {
                    0int
                })
                &&& a.persistence@ == (if persistent {
                    "unverified"@
                } else {
                    b.persistence@
                })
            }
        }),
{
}

/// The first session of a run keeps the reference and what is known of the device;
/// every session begins without samples, poses and battery readings, under an
/// identifier that poses and state share.
pub proof fn sessions_begin_empty(c: Controller, after: Controller)
    requires
        c.begins_as(after),
        c.descriptor.reference_epoch < u64::MAX,
    ensures
        c.descriptor.session_id == 0 ==> {
            &&& after.descriptor.reference_epoch == c.descriptor.reference_epoch
            &&& after.descriptor.reference_reason == c.descriptor.reference_reason
            &&& after.descriptor.device == c.descriptor.device
        },
        c.descriptor.session_id != 0 ==> !after.descriptor.device.valid,
        after.status.session_id == after.descriptor.session_id,
        after.status.session_samples == 0,
        after.status.interval_min_ns == 0 && after.status.interval_max_ns == 0,
        after.status.pose_count == c.status.pose_count,
        after.pose is None && after.last_pose is None && after.first_pose is None,
        after.motion.records@.len() == 0,
        after.battery == Battery::unread(),
        after.status.state == ConnectionState::Connecting,
        record_is_current(after.feed(), after.descriptor),
{
}

/// While anything runs, every request for a task is refused as busy and changes
/// nothing: acquisition, scan, inspection, device command and magnetic session.
pub proof fn requests_are_refused_while_something_runs(
    c: Controller,
    platform: Platform,
    seconds: u32,
    command: DeviceCommand,
    queue_free: bool,
    r: Result<(), Error>,
    d: Result<Dispatch, Error>,
    after: Controller,
)
    requires
        c.task == TaskState::Running,
        c.config.problem(platform) is None,
    ensures
        c.config.acquisition_problem(platform) is None && c.starts_as(platform, r, after) ==> r
            == Err::<(), Error>(Error::Busy) && after == c,
        1 <= seconds <= 60 && c.scans_as(seconds, r, after) ==> r == Err::<(), Error>(Error::Busy)
            && after == c,
        c.inspects_as(platform, r, after) ==> r == Err::<(), Error>(Error::Busy) && after == c,
        c.monitors_as(platform, r, after) ==> r == Err::<(), Error>(Error::Busy) && after == c,
        !c.monitoring && register_of(command) is Some && c.commands_as(
            command,
            platform,
            queue_free,
            d,
            after,
        ) ==> d == Err::<Dispatch, Error>(Error::Busy) && after == c,
{
}

/// A scan takes 1 to 60 seconds; one that is accepted forgets the devices that
/// were found before.
pub proof fn scans_take_one_to_sixty_seconds(
    c: Controller,
    seconds: u32,
    r: Result<(), Error>,
    after: Controller,
)
    requires
        c.task == TaskState::Absent,
        c.scans_as(seconds, r, after),
    ensures
        r is Ok <==> 0 < seconds < 61,
        r is Ok ==> {
            &&& after.task == TaskState::Running
            &&& after.status.state == ConnectionState::Scanning
            &&& after.devices@.len() == 0
            &&& after.descriptor == c.descriptor
            &&& after.pose == c.pose
        },
        r is Err ==> after == c,
{
}

/// A device that is free is inspected, commanded and monitored; the simulator is
/// no device. Each begins an operation of its own, or a session, and forgets what
/// is known of the device where that may change or is read anew.
pub proof fn free_devices_are_talked_to(
    c: Controller,
    platform: Platform,
    command: DeviceCommand,
    queue_free: bool,
    r: Result<(), Error>,
    d: Result<Dispatch, Error>,
    after: Controller,
)
    requires
        c.task == TaskState::Absent,
        !c.monitoring,
        c.config.problem(platform) is None,
        register_of(command) is Some,
        c.descriptor.metadata_revision < u64::MAX,
    ensures
        c.inspects_as(platform, r, after) ==> {
            &&& r is Ok <==> !(c.config.source is Simulate)
            &&& r is Ok ==> {
                &&& after.status.state == ConnectionState::Inspecting
                &&& !after.descriptor.device.valid
                &&& after.descriptor.metadata_revision == c.descriptor.metadata_revision + 1
                &&& after.operation is Some && after.operation->0.outcome
                    == OperationOutcome::Running && !after.operation->0.write_attempted
                &&& after.operation->0.action@ == "inspect"@
            }
        },
        c.commands_as(command, platform, queue_free, d, after) ==> {
            &&& d is Ok <==> !(c.config.source is Simulate)
            &&& d is Ok ==> {
                &&& d == Ok::<Dispatch, Error>(Dispatch::Launch)
                &&& after.status.state == ConnectionState::Configuring
                &&& after.descriptor == c.descriptor
                &&& after.operation is Some && after.operation->0.outcome
                    == OperationOutcome::Running && !after.operation->0.write_attempted
                &&& after.operation->0.action@ == action_of(command)
            }
        },
        c.monitors_as(platform, r, after) ==> {
            &&& r is Ok <==> !(c.config.source is Simulate)
            &&& r is Ok ==> {
                &&& after.monitoring
                &&& after.magnetic.running && after.magnetic.phase == MagneticPhase::Opening
                &&& !after.magnetic.owned
                &&& after.magnetic.session_id == after.descriptor.session_id
                &&& after.status.session_id == after.descriptor.session_id
                &&& after.operation is None
                &&& after.pose is None
                &&& !after.descriptor.device.valid
            }
        },
{
}

/// An open magnetic session queues a start, a stop or a saving, and refuses
/// everything else as busy.
pub proof fn sessions_queue_their_commands(
    c: Controller,
    platform: Platform,
    command: DeviceCommand,
    queue_free: bool,
    d: Result<Dispatch, Error>,
    after: Controller,
)
    requires
        c.task == TaskState::Running,
        c.monitoring,
        c.config.problem(platform) is None,
        register_of(command) is Some,
        c.commands_as(command, platform, queue_free, d, after),
    ensures
        d == Ok::<Dispatch, Error>(Dispatch::Queue) || (d == Err::<Dispatch, Error>(Error::Busy)
            && after == c),
        d is Ok ==> {
            &&& command is MagStart || command is MagStop || command is Save
            &&& c.magnetic.is_ready()
            &&& queue_free
            &&& after.operation is Some && after.operation->0.outcome == OperationOutcome::Running
            &&& after.operation->0.action@ == action_of(command)
            &&& after.magnetic == c.magnetic && after.status == c.status
        },
        (command is MagStart || command is MagStop || command is Save) && c.magnetic.is_ready()
            && queue_free && c.operation is None ==> d is Ok,
{
}

/// How a task has ended is shown by the state: complete, stopped where it was
/// cancelled, failed otherwise. An operation that was running ends with it, and
/// one that had ended stays as it was.
pub proof fn tasks_end_in_their_state(
    c: Controller,
    outcome: TaskOutcome,
    now: u64,
    after: Controller,
)
    requires
        c.ends_as(outcome, now, after),
    ensures
        outcome is Completed <==> after.status.state == ConnectionState::Complete,
        outcome matches TaskOutcome::Failed { error } ==> {
            &&& error is Cancelled <==> after.status.state == ConnectionState::Stopped
            &&& !(error is Cancelled) ==> after.status.state == ConnectionState::Failed
                && after.status.last_error is Some && after.status.last_error->0@ == error.text()
        },
        outcome is Panicked ==> after.status.state == ConnectionState::Failed,
        c.operation is None ==> after.operation is None,
        c.operation is Some && c.operation->0.outcome != OperationOutcome::Running
            ==> after.operation == c.operation,
        c.operation is Some && c.operation->0.outcome == OperationOutcome::Running ==> {
            &&& after.operation is Some
            &&& outcome matches TaskOutcome::Failed { error } ==> after.operation->0.outcome == (
            if error is Cancelled {
                OperationOutcome::Cancelled
            } else {
                OperationOutcome::Failed
            })
            &&& outcome is Panicked ==> after.operation->0.outcome == OperationOutcome::Failed
        },
        after.pose == c.pose && after.motion == c.motion && after.descriptor == c.descriptor,
        c.task == TaskState::Running ==> after.task == TaskState::Finished,
{
}

/// A worker that does not end is given up: the stop fails, and so does the run. A
/// magnetic session of which it is not known how the device was left says so.
pub proof fn stops_that_time_out_fail(
    c: Controller,
    now: u64,
    r: Result<(), Error>,
    after: Controller,
)
    requires
        c.task != TaskState::Absent,
        c.stops_as(true, now, r, after),
    ensures
        r is Err && r->Err_0 is Timeout,
        after.status.state == ConnectionState::Failed,
        after.task == TaskState::Absent,
        c.monitoring ==> after.magnetic.phase == MagneticPhase::Failed && after.magnetic.last_error
            is Some && !after.magnetic.running,
        !c.monitoring ==> after.magnetic == c.magnetic,
        after.pose == c.pose,
{
}

/// The error of a magnetic session is what stopping it is answered, once.
pub proof fn session_errors_are_told_once(
    c: Controller,
    now: u64,
    r: Result<(), Error>,
    after: Controller,
    again: Result<(), Error>,
    last: Controller,
)
    requires
        c.monitoring,
        c.magnetic.last_error is Some,
        c.stops_as(false, now, r, after),
        after.stops_as(false, now, again, last),
    ensures
        r == Err::<(), Error>(Error::Io(c.magnetic.last_error->0)),
        again is Ok,
        last.status.state == ConnectionState::Stopped,
{
}

/// Acquisition that is accepted begins with every counter at zero, without poses
/// and battery readings, as a new instance with a new revision; the reference
/// stays.
pub proof fn acquisition_begins_anew(
    c: Controller,
    platform: Platform,
    r: Result<(), Error>,
    after: Controller,
)
    requires
        c.task == TaskState::Absent,
        c.starts_as(platform, r, after),
        c.descriptor.metadata_revision < u64::MAX,
    ensures
        r is Ok <==> c.config.acquisition_problem(platform) is None,
        r is Err ==> after == c,
        r is Ok ==> {
            &&& after.task == TaskState::Running
            &&& after.status.pose_count == 0 && after.status.bytes_received == 0
                && after.status.osc_sent == 0 && after.status.reconnect_count == 0
            &&& after.status.last_error is None
            &&& after.pose is None && after.last_pose is None && after.motion.records@.len() == 0
            &&& after.descriptor.session_id == 0
            &&& after.descriptor.reference_epoch == c.descriptor.reference_epoch
            &&& after.descriptor.metadata_revision == c.descriptor.metadata_revision + 1
            &&& after.config == c.config
        },
{
}

/// The end of an inspection shows what it has found: the registers, the battery
/// and the name, under a new revision. It verifies, and writes nothing.
pub proof fn inspections_show_what_they_found(
    c: Controller,
    observation: DeviceObservation,
    battery: Battery,
    name: Option<String>,
    after: Controller,
)
    requires
        c.inspected_as(observation, battery, name, after),
        c.descriptor.metadata_revision < u64::MAX,
    ensures
        after.descriptor.device == observation,
        after.descriptor.device_name == name,
        after.battery == battery,
        after.descriptor.metadata_revision == c.descriptor.metadata_revision + 1,
        after.descriptor.reference_epoch == c.descriptor.reference_epoch,
        c.operation is Some ==> {
            &&& after.operation is Some
            &&& after.operation->0.outcome == OperationOutcome::Succeeded
            &&& after.operation->0.register_verified
            &&& after.operation->0.write_attempted == c.operation->0.write_attempted
        },
{
}

/// The end of an operation shows its conclusion, and what the device was seen to
/// be, if it was looked at.
pub proof fn operations_show_their_conclusion(
    c: Controller,
    conclusion: Conclusion,
    observation: Option<DeviceObservation>,
    after: Controller,
)
    requires
        c.concludes_as(conclusion, observation, after),
        c.descriptor.metadata_revision < u64::MAX,
    ensures
        observation is Some ==> after.descriptor.device == observation->0
            && after.descriptor.metadata_revision == c.descriptor.metadata_revision + 1,
        observation is None ==> after.descriptor == c.descriptor,
        after.status.configuration_report is Some && after.status.configuration_report->0@
            == conclusion.text(),
        c.operation is Some ==> {
            &&& after.operation is Some
            &&& after.operation->0.outcome == conclusion.spec_outcome()
            &&& after.operation->0.message is Some && after.operation->0.message->0@
                == conclusion.text()
            &&& after.operation->0.register_verified == c.operation->0.register_verified
        },
{
}

/// What was sent and what failed is counted: poses one by one, telemetry as many as
/// were sent, and an error that the sender has not counted itself once.
pub proof fn sending_is_counted(
    c: Controller,
    sent: bool,
    coalesced: u64,
    errors: u64,
    result: Result<u64, Error>,
    a: Controller,
    b: Controller,
)
    requires
        c.status.osc_sent < u64::MAX,
        c.status.send_errors + errors < u64::MAX,
        result is Ok ==> c.status.telemetry_sent + result->Ok_0 <= u64::MAX,
        c.outputs_as(sent, coalesced, errors, a),
        c.reports_as(result, errors, b),
    ensures
        a.status.osc_sent == c.status.osc_sent + (if sent {
            1int
        } else {
            0int
        }),
        a.status.coalesced_samples == coalesced,
        a.status.send_errors == c.status.send_errors + errors,
        a.status.telemetry_sent == c.status.telemetry_sent,
        result is Ok ==> b.status.telemetry_sent == c.status.telemetry_sent + result->Ok_0
            && b.status.send_errors == c.status.send_errors + errors && b.status.last_error
            == c.status.last_error,
        result is Err ==> b.status.telemetry_sent == c.status.telemetry_sent
            && b.status.send_errors == c.status.send_errors + (if errors == 0 {
            1int
        } else {
            errors as int
        }) && b.status.last_error is Some && b.status.last_error->0@ == result->Err_0.text(),
        b.status.osc_sent == c.status.osc_sent,
{
}

/// Commands go by these names.
pub proof fn commands_go_by_their_names(command: DeviceCommand)
    ensures
        command is Rate ==> action_of(command) == "rate"@,
        command is Output ==> action_of(command) == "output"@,
        command is AccelCalibrate ==> action_of(command) == "accel_calibrate"@,
        command is MagStart ==> action_of(command) == "mag_start"@,
        command is MagStop ==> action_of(command) == "mag_stop"@,
        command is Save ==> action_of(command) == "save"@,
        command is Algorithm ==> action_of(command) == "algorithm"@,
        command is ZeroYaw ==> action_of(command) == "zero_yaw"@,
        command is AngleReference ==> action_of(command) == "angle_reference"@,
        command is ResetDefaults ==> action_of(command) == "reset_defaults"@,
{
}

/// A connection that is lost is counted and told, and waits for the next; nothing
/// that was received is forgotten, and none of it is fresh.
pub proof fn lost_connections_are_told(
    c: Controller,
    error: Error,
    r: Result<(), Error>,
    after: Controller,
    now: u64,
)
    requires
        c.loses_as(error, r, after),
        c.status.reconnect_count < u64::MAX,
    ensures
        r is Ok <==> !(error is Cancelled || error is Permission || error is Protocol || error
            is Invalid),
        r is Err ==> r == Err::<(), Error>(error) && after == c,
        r is Ok ==> {
            &&& after.status.state == ConnectionState::Reconnecting
            &&& after.status.reconnect_count == c.status.reconnect_count + 1
            &&& after.status.last_error is Some && after.status.last_error->0@ == error.text()
            &&& after.pose == c.pose
            &&& !after.is_fresh(now)
        },
{
}

/// A query says where the reader stands next, whether it starts over, and whether
/// reception goes on, and gives the samples that it has not had.
pub proof fn motion_queries_tell_where_they_stand(
    c: Controller,
    cursor: Option<MotionCursor>,
    now: u64,
    r: MotionBatch,
)
    requires
        c.gives_motion(cursor, now, r),
        record_is_current(c.feed(), c.descriptor),
    ensures
        r.source_id == c.descriptor.source_id,
        r.queried_at == now,
        r.active == c.is_fresh(now),
        c.motion.records@.len() == 0 ==> r.cursor is None && r.samples@.len() == 0,
        c.motion.records@.len() > 0 ==> {
            &&& r.cursor == Some(
                MotionCursor {
                    instance_id: c.descriptor.instance_id,
                    session_id: c.status.session_id,
                    sequence: c.status.session_samples,
                },
            )
            &&& r.samples@.len() > 0 ==> Some(r.samples@.last().cursor) == r.cursor
        },
        cursor is None ==> !r.reset && r.samples@.len() == c.motion.records@.len(),
        cursor is Some && (cursor->0.instance_id != c.descriptor.instance_id || cursor->0.session_id
            != c.status.session_id) ==> r.reset && r.samples@.len() == c.motion.records@.len()
            && r.history_overrun == 0,
        cursor is Some && cursor->0.instance_id == c.descriptor.instance_id
            && cursor->0.session_id == c.status.session_id && cursor->0.sequence
            <= c.status.session_samples && c.motion.records@.len() > 0 ==> !r.reset
            && r.samples@.len() + r.history_overrun == c.status.session_samples
            - cursor->0.sequence,
{
    let records = c.motion.records@;
    let active = c.is_fresh(now);
    if records.len() > 0 {
        assert(records[0].sample.cursor == records[0].sample.cursor);
        assert(records.last() == records[records.len() - 1]);
        if cursor is None || crate::motion::is_reset(records, cursor) {
            crate::motion::starting_over_returns_everything(records, cursor, now, active);
            let n = records.len() as int;
            assert(r.samples@[n - 1] == crate::motion::at_query(records[n - 1], now, active));
        } else {
            crate::motion::a_cursor_gets_what_follows_it(records, cursor->0, now, active);
            let m = r.samples@.len() as int;
            if m > 0 {
                assert(r.samples@[m - 1] == crate::motion::at_query(
                    records[records.len() - m + m - 1],
                    now,
                    active,
                ));
            }
        }
    }
}

} // verus!
