//! One connection's reception: from transport reads to poses in counts, with
//! the requests and watchdogs that go along with it.

use crate::battery::{self, Battery, BatteryError};
use crate::clock::{elapsed, elapsed_ns};
use crate::controller::{Controller, COUNTER_LIMIT, STALE_AFTER_NS};
use crate::device::{to_unsigned, unsigned};
use crate::full_frame::FullFrameRate;
use crate::model::{
    BleLinkStatus, ConnectionState, DeliveryStats, Error, PoseInput, RawData, SampleTime,
    SampleTimeKind, StatusSnapshot,
};
use crate::motion::OrientationSource;
use crate::protocol::{read, Frame, Parser, MAX_FRAME_BYTES};
use crate::sample_clock::{stamped, SampleClock};
use vstd::prelude::*;

verus! {

/// The register that holds the quaternion.
pub const QUATERNION_REGISTER: u16 = 0x51;

pub const REQUEST_INTERVAL_NS: u64 = 20_000_000;

pub const REQUEST_RETRY_NS: u64 = 250_000_000;

pub const FIRST_BATTERY_NS: u64 = 1_000_000_000;

pub const LINK_INTERVAL_NS: u64 = 1_000_000_000;

/// Without bytes, or without a frame of use, for so long a connection is given up.
pub const SILENCE_NS: u64 = 10_000_000_000;

/// A sensor orientation in counts.
#[derive(Clone, Copy, Debug)]
pub enum Orientation {
    Euler { xyz: [i16; 3] },
    Quaternion { wxyz: [i16; 4] },
}

/// A pose as it came from the sensor, still in counts. The rates are those of
/// the same frame.
#[derive(Clone, Copy, Debug)]
pub struct PreparedPose {
    pub orientation: Orientation,
    pub angular_velocity: Option<[i16; 3]>,
    pub acceleration: Option<[i16; 3]>,
    pub raw: RawData,
    pub time: Option<SampleTime>,
    pub source: OrientationSource,
    pub profile: u8,
}

/// What one frame offers as a pose.
pub struct Candidate {
    pub orientation: Orientation,
    pub angular_velocity: Option<[i16; 3]>,
    pub acceleration: Option<[i16; 3]>,
    pub time_ms: Option<u64>,
    pub source: OrientationSource,
    pub profile: u8,
}

/// The last raw readings after a frame. A stream frame replaces the motion
/// readings as a whole, so that none stands under a later frame's time.
pub open spec fn raw_after(raw: RawData, frame: Frame, ns: u64) -> RawData {
    match frame {
        Frame::Motion { acceleration, angular_velocity, euler_xyz } => RawData {
            acceleration: Some(acceleration),
            angular_velocity: Some(angular_velocity),
            euler_xyz: Some(euler_xyz),
            motion_received_ns: Some(ns),
            ..raw
        },
        Frame::Stream { acceleration, angular_velocity, euler_xyz, quaternion_wxyz, .. } => RawData {
            acceleration,
            angular_velocity,
            euler_xyz,
            motion_received_ns: if angular_velocity is Some || euler_xyz is Some {
                Some(ns)
            } else {
                None
            },
            quaternion_wxyz: if quaternion_wxyz is Some {
                quaternion_wxyz
            } else {
                raw.quaternion_wxyz
            },
            quaternion_received_ns: if quaternion_wxyz is Some {
                Some(ns)
            } else {
                raw.quaternion_received_ns
            },
        },
        Frame::Registers { address, values } => if address == QUATERNION_REGISTER {
            RawData {
                quaternion_wxyz: Some([values[0], values[1], values[2], values[3]]),
                quaternion_received_ns: Some(ns),
                ..raw
            }
        } else {
            raw
        },
    }
}

/// The pose that a frame offers for a pose input.
pub open spec fn candidate(frame: Frame, input: PoseInput) -> Option<Candidate> {
    match frame {
        Frame::Motion { acceleration, angular_velocity, euler_xyz } => if input
            == PoseInput::Euler {
            Some(
                Candidate {
                    orientation: Orientation::Euler { xyz: euler_xyz },
                    angular_velocity: Some(angular_velocity),
                    acceleration: Some(acceleration),
                    time_ms: None,
                    source: OrientationSource::ConvertedEuler,
                    profile: 0x61,
                },
            )
        } else {
            None
        },
        Frame::Stream {
            profile,
            acceleration,
            sample_time_ms,
            angular_velocity,
            euler_xyz,
            quaternion_wxyz,
        } => match input {
            PoseInput::Euler => match euler_xyz {
                Some(xyz) => Some(
                    Candidate {
                        orientation: Orientation::Euler { xyz },
                        angular_velocity,
                        acceleration,
                        time_ms: sample_time_ms,
                        source: OrientationSource::ConvertedEuler,
                        profile,
                    },
                ),
                None => None,
            },
            PoseInput::StreamQuaternion => match quaternion_wxyz {
                Some(wxyz) => Some(
                    Candidate {
                        orientation: Orientation::Quaternion { wxyz },
                        angular_velocity,
                        acceleration,
                        time_ms: sample_time_ms,
                        source: OrientationSource::NativeQuaternion,
                        profile,
                    },
                ),
                None => None,
            },
            PoseInput::Quaternion => None,
        },
        Frame::Registers { address, values } => if address == QUATERNION_REGISTER && input
            == PoseInput::Quaternion {
            Some(
                Candidate {
                    orientation: Orientation::Quaternion {
                        wxyz: [values[0], values[1], values[2], values[3]],
                    },
                    angular_velocity: None,
                    acceleration: None,
                    time_ms: None,
                    source: OrientationSource::RegisterQuaternion,
                    profile: 0x71,
                },
            )
        } else {
            None
        },
    }
}

impl Orientation {
    /// A quaternion of zeros is no orientation.
    pub open spec fn valid(self) -> bool {
        match self {
            Orientation::Euler { .. } => true,
            Orientation::Quaternion { wxyz } => wxyz[0] != 0 || wxyz[1] != 0 || wxyz[2] != 0
                || wxyz[3] != 0,
        }
    }

    pub fn is_valid(&self) -> (r: bool)
        ensures
            r == self.valid(),
    {
        match self {
            Orientation::Euler { .. } => true,
            Orientation::Quaternion { wxyz } => wxyz[0] != 0 || wxyz[1] != 0 || wxyz[2] != 0
                || wxyz[3] != 0,
        }
    }
}

/// What frames change in the reception of a connection.
#[derive(Debug)]
pub struct Intake {
    pub raw: RawData,
    pub clock: SampleClock,
    pub guard: FullFrameRate,
    /// When a quaternion request was sent that has not been answered.
    pub outstanding: Option<u64>,
    pub battery_outstanding: Option<u64>,
}

/// What one read adds to the counters.
#[derive(Clone, Copy, Debug)]
pub struct Tally {
    pub frames: u64,
    pub duplicates: u64,
    pub discontinuities: u64,
    pub invalid_poses: u64,
}

/// What has become of frames that were taken in.
#[verifier::ext_equal]
pub struct Taken {
    pub intake: Intake,
    pub battery: Battery,
    pub tally: Tally,
    pub poses: Seq<PreparedPose>,
    /// What a frame was answered that the rate guard has refused; nothing after
    /// it is taken in.
    pub refusal: Option<Seq<char>>,
}

/// What a frame is answered that the rate guard refuses.
pub open spec fn guard_refusal(
    guard: FullFrameRate,
    profile: u8,
    time: Option<u64>,
) -> Option<Seq<char>> {
    if profile != 0xe4 {
        None
    } else if time is None {
        Some("full inertial frame lacks a clock"@)
    } else if guard.too_far(time->0) {
        Some(
            "full inertial frames are outside the 20 Hz validation range; select a short profile"@,
        )
    } else {
        None
    }
}

pub open spec fn guard_after(guard: FullFrameRate, profile: u8, time: Option<u64>) -> FullFrameRate {
    if profile != 0xe4 {
        FullFrameRate::empty()
    } else {
        match time {
            None => guard,
            Some(t) => if guard.too_far(t) {
                guard.noted(t)
            } else {
                FullFrameRate { last: Some(t), ..guard.noted(t) }
            },
        }
    }
}

impl Taken {
    /// The frame is counted and its readings are noted, whatever it offers.
    pub open spec fn noted(self, frame: Frame, ns: u64, now: u64) -> Taken {
        let tally = Tally { frames: (self.tally.frames + 1) as u64, ..self.tally };
        match frame {
            Frame::Stream { profile, sample_time_ms, .. } => {
                let guard = guard_after(self.intake.guard, profile, sample_time_ms);
                let refusal = guard_refusal(self.intake.guard, profile, sample_time_ms);
                if refusal is Some {
                    Taken {
                        tally,
                        refusal,
                        intake: Intake { guard, ..self.intake },
                        ..self
                    }
                } else {
                    Taken {
                        tally,
                        intake: Intake {
                            guard,
                            raw: raw_after(self.intake.raw, frame, ns),
                            ..self.intake
                        },
                        ..self
                    }
                }
            },
            Frame::Registers { address, values } => if address == battery::REGISTER {
                match self.intake.battery_outstanding {
                    Some(sent) => Taken {
                        tally,
                        intake: Intake { battery_outstanding: None, ..self.intake },
                        battery: if elapsed(sent, now) < battery::RESPONSE_TIMEOUT_NS {
                            self.battery.after(unsigned(values[0]), now)
                        } else {
                            Battery { last_error: Some(BatteryError::TimedOut), ..self.battery }
                        },
                        ..self
                    },
                    None => Taken { tally, ..self },
                }
            } else {
                Taken {
                    tally,
                    intake: Intake {
                        raw: raw_after(self.intake.raw, frame, ns),
                        outstanding: if address == QUATERNION_REGISTER {
                            None
                        } else {
                            self.intake.outstanding
                        },
                        ..self.intake
                    },
                    ..self
                }
            },
            Frame::Motion { .. } => Taken {
                tally,
                intake: Intake { raw: raw_after(self.intake.raw, frame, ns), ..self.intake },
                ..self
            },
        }
    }

    /// A pose that a frame offers is taken, unless it is invalid or repeats the
    /// time of the one before.
    pub open spec fn offered(self, c: Candidate, ns: u64) -> Taken {
        if !c.orientation.valid() {
            Taken {
                tally: Tally {
                    invalid_poses: (self.tally.invalid_poses + 1) as u64,
                    ..self.tally
                },
                ..self
            }
        } else {
            let pose = PreparedPose {
                orientation: c.orientation,
                angular_velocity: c.angular_velocity,
                acceleration: c.acceleration,
                raw: self.intake.raw,
                time: None,
                source: c.source,
                profile: c.profile,
            };
            match c.time_ms {
                None => Taken { poses: self.poses.push(pose), ..self },
                Some(ms) => {
                    let clock = self.intake.clock;
                    match stamped(clock.previous, SampleTimeKind::DeviceCalendar, ms, ns) {
                        None => Taken {
                            tally: Tally {
                                duplicates: (self.tally.duplicates + 1) as u64,
                                ..self.tally
                            },
                            intake: Intake {
                                clock: SampleClock {
                                    duplicates: (clock.duplicates + 1) as u64,
                                    ..clock
                                },
                                ..self.intake
                            },
                            ..self
                        },
                        Some(time) => Taken {
                            tally: Tally {
                                discontinuities: (self.tally.discontinuities + (time.clock_epoch
                                    - 1 - clock.discontinuities)) as u64,
                                ..self.tally
                            },
                            intake: Intake {
                                clock: SampleClock {
                                    previous: Some((time, ns)),
                                    duplicates: clock.duplicates,
                                    discontinuities: (time.clock_epoch - 1) as u64,
                                },
                                ..self.intake
                            },
                            poses: self.poses.push(PreparedPose { time: Some(time), ..pose }),
                            ..self
                        },
                    }
                },
            }
        }
    }

    /// After one frame.
    pub open spec fn with(self, frame: Frame, input: PoseInput, ns: u64, now: u64) -> Taken {
        let noted = self.noted(frame, ns, now);
        if self.refusal is Some {
            self
        } else if noted.refusal is Some {
            noted
        } else {
            match candidate(frame, input) {
                Some(c) => noted.offered(c, ns),
                None => noted,
            }
        }
    }

    /// After the frames of one read.
    pub open spec fn with_all(
        self,
        frames: Seq<Frame>,
        input: PoseInput,
        ns: u64,
        now: u64,
    ) -> Taken
        decreases frames.len(),
    {
        if frames.len() == 0 {
            self
        } else {
            self.with_all(frames.drop_last(), input, ns, now).with(frames.last(), input, ns, now)
        }
    }
}

/// A frame was refused with this error, or none was.
pub open spec fn answers(refusal: Option<Seq<char>>, r: Result<(), Error>) -> bool {
    match r {
        Ok(()) => refusal is None,
        Err(e) => refusal is Some && e.is_protocol(refusal->0),
    }
}

impl Intake {
    pub open spec fn wf(&self) -> bool {
        self.clock.wf() && self.guard.wf()
    }

    /// The clock's counters have room for `n` more samples.
    pub open spec fn room_for(&self, n: int) -> bool {
        &&& self.clock.duplicates + n < u64::MAX
        &&& self.clock.discontinuities + n < u64::MAX - 1
    }

    fn note(&mut self, battery: &mut Battery, frame: &Frame, ns: u64, now: u64) -> (r: Result<
        (),
        Error,
    >)
        requires
            old(self).wf(),
        ensures
            final(self).wf(),
            forall|poses: Seq<PreparedPose>, tally: Tally|
                ({
                    let t = (#[trigger] (Taken {
                        intake: *old(self),
                        battery: *old(battery),
                        tally,
                        poses,
                        refusal: None,
                    }).noted(*frame, ns, now));
                    &&& *final(self) == t.intake
                    &&& *final(battery) == t.battery
                    &&& answers(t.refusal, r)
                }),
            final(self).clock == old(self).clock,
    {
        match frame {
            Frame::Motion { acceleration, angular_velocity, euler_xyz } => {
                self.raw.acceleration = Some(*acceleration);
                self.raw.angular_velocity = Some(*angular_velocity);
                self.raw.euler_xyz = Some(*euler_xyz);
                self.raw.motion_received_ns = Some(ns);
            },
            Frame::Stream {
                profile,
                acceleration,
                sample_time_ms,
                angular_velocity,
                euler_xyz,
                quaternion_wxyz,
            } => {
                self.guard.observe(*profile, *sample_time_ms)?;
                self.raw.acceleration = *acceleration;
                self.raw.angular_velocity = *angular_velocity;
                self.raw.euler_xyz = *euler_xyz;
                self.raw.motion_received_ns =
                if angular_velocity.is_some() || euler_xyz.is_some() {
                    Some(ns)
                } else {
                    None
                };
                if quaternion_wxyz.is_some() {
                    self.raw.quaternion_wxyz = *quaternion_wxyz;
                    self.raw.quaternion_received_ns = Some(ns);
                }
            },
            Frame::Registers { address, values } => {
                if *address == QUATERNION_REGISTER {
                    self.outstanding = None;
                    self.raw.quaternion_wxyz =
                        Some([values[0], values[1], values[2], values[3]]);
                    self.raw.quaternion_received_ns = Some(ns);
                } else if *address == battery::REGISTER {
                    if let Some(sent) = self.battery_outstanding {
                        self.battery_outstanding = None;
                        if elapsed_ns(sent, now) < battery::RESPONSE_TIMEOUT_NS {
                            battery.observe(to_unsigned(values[0]), now);
                        } else {
                            battery.fail(BatteryError::TimedOut);
                        }
                    }
                }
            },
        }
        Ok(())
    }

    fn offer(
        &mut self,
        tally: &mut Tally,
        poses: &mut Vec<PreparedPose>,
        c: PreparedPose,
        time_ms: Option<u64>,
        ns: u64,
    )
        requires
            old(self).wf(),
            old(self).room_for(1),
            old(tally).duplicates < u64::MAX,
            old(tally).discontinuities < u64::MAX,
            old(tally).invalid_poses < u64::MAX,
            c.raw == old(self).raw,
            c.time is None,
        ensures
            final(self).wf(),
            forall|battery: Battery|
                ({
                    let t = (#[trigger] (Taken {
                        intake: *old(self),
                        battery,
                        tally: *old(tally),
                        poses: old(poses)@,
                        refusal: None,
                    }).offered(
                        Candidate {
                            orientation: c.orientation,
                            angular_velocity: c.angular_velocity,
                            acceleration: c.acceleration,
                            time_ms,
                            source: c.source,
                            profile: c.profile,
                        },
                        ns,
                    ));
                    &&& *final(self) == t.intake
                    &&& *final(tally) == t.tally
                    &&& final(poses)@ == t.poses
                    &&& battery == t.battery
                    &&& t.refusal is None
                }),
            final(self).clock.duplicates <= old(self).clock.duplicates + 1,
            final(self).clock.discontinuities <= old(self).clock.discontinuities + 1,
            final(tally).frames == old(tally).frames,
            final(tally).duplicates <= old(tally).duplicates + 1,
            final(tally).discontinuities <= old(tally).discontinuities + 1,
            final(tally).invalid_poses <= old(tally).invalid_poses + 1,
            final(poses)@.len() <= old(poses)@.len() + 1,
    {
        if !c.orientation.is_valid() {
            tally.invalid_poses = tally.invalid_poses + 1;
            return ;
        }
        let mut pose = c;
        if let Some(ms) = time_ms {
            let before: u64 = self.clock.discontinuities;
            match self.clock.observe(SampleTimeKind::DeviceCalendar, ms, ns) {
                None => {
                    tally.duplicates = tally.duplicates + 1;
                    return ;
                },
                Some(time) => {
                    tally.discontinuities =
                        tally.discontinuities + (self.clock.discontinuities - before);
                    pose.time = Some(time);
                },
            }
        }
        poses.push(pose);
    }

    fn take(
        &mut self,
        battery: &mut Battery,
        tally: &mut Tally,
        poses: &mut Vec<PreparedPose>,
        frame: &Frame,
        input: PoseInput,
        ns: u64,
        now: u64,
    ) -> (r: Result<(), Error>)
        requires
            old(self).wf(),
            old(self).room_for(1),
            old(tally).frames < u64::MAX,
            old(tally).duplicates < u64::MAX,
            old(tally).discontinuities < u64::MAX,
            old(tally).invalid_poses < u64::MAX,
        ensures
            final(self).wf(),
            ({
                let t = (Taken {
                    intake: *old(self),
                    battery: *old(battery),
                    tally: *old(tally),
                    poses: old(poses)@,
                    refusal: None,
                }).with(*frame, input, ns, now);
                &&& answers(t.refusal, r)
                &&& t == (Taken {
                    intake: *final(self),
                    battery: *final(battery),
                    tally: *final(tally),
                    poses: final(poses)@,
                    refusal: t.refusal,
                })
            }),
            final(self).clock.duplicates <= old(self).clock.duplicates + 1,
            final(self).clock.discontinuities <= old(self).clock.discontinuities + 1,
            final(tally).frames == old(tally).frames + 1,
            final(tally).duplicates <= old(tally).duplicates + 1,
            final(tally).discontinuities <= old(tally).discontinuities + 1,
            final(tally).invalid_poses <= old(tally).invalid_poses + 1,
            final(poses)@.len() <= old(poses)@.len() + 1,
    {
        let ghost begin = Taken {
            intake: *self,
            battery: *battery,
            tally: *tally,
            poses: poses@,
            refusal: None,
        };
        let ghost noted = begin.noted(*frame, ns, now);
        tally.frames = tally.frames + 1;
        match self.note(battery, frame, ns, now) {
            Ok(()) => {},
            Err(e) => {
                return Err(e);
            },
        }
        assert(noted == (Taken {
            intake: *self,
            battery: *battery,
            tally: *tally,
            poses: poses@,
            refusal: None,
        }));
        match frame {
            Frame::Motion { acceleration, angular_velocity, euler_xyz } => {
                if input == PoseInput::Euler {
                    let c = PreparedPose {
                        orientation: Orientation::Euler { xyz: *euler_xyz },
                        angular_velocity: Some(*angular_velocity),
                        acceleration: Some(*acceleration),
                        raw: self.raw,
                        time: None,
                        source: OrientationSource::ConvertedEuler,
                        profile: 0x61,
                    };
                    self.offer(tally, poses, c, None, ns);
                }
            },
            Frame::Stream {
                profile,
                acceleration,
                sample_time_ms,
                angular_velocity,
                euler_xyz,
                quaternion_wxyz,
            } => {
                let chosen = match input {
                    PoseInput::Euler => match euler_xyz {
                        Some(xyz) => Some(
                            (Orientation::Euler { xyz: *xyz }, OrientationSource::ConvertedEuler),
                        ),
                        None => None,
                    },
                    PoseInput::StreamQuaternion => match quaternion_wxyz {
                        Some(wxyz) => Some(
                            (
                                Orientation::Quaternion { wxyz: *wxyz },
                                OrientationSource::NativeQuaternion,
                            ),
                        ),
                        None => None,
                    },
                    PoseInput::Quaternion => None,
                };
                if let Some((orientation, source)) = chosen {
                    let c = PreparedPose {
                        orientation,
                        angular_velocity: *angular_velocity,
                        acceleration: *acceleration,
                        raw: self.raw,
                        time: None,
                        source,
                        profile: *profile,
                    };
                    self.offer(tally, poses, c, *sample_time_ms, ns);
                }
            },
            Frame::Registers { address, values } => {
                if *address == QUATERNION_REGISTER && input == PoseInput::Quaternion {
                    let c = PreparedPose {
                        orientation: Orientation::Quaternion {
                            wxyz: [values[0], values[1], values[2], values[3]],
                        },
                        angular_velocity: None,
                        acceleration: None,
                        raw: self.raw,
                        time: None,
                        source: OrientationSource::RegisterQuaternion,
                        profile: 0x71,
                    };
                    self.offer(tally, poses, c, None, ns);
                }
            },
        }
        Ok(())
    }
}

/// Which of five classes a gap between reads is in.
pub open spec fn bucket(gap_ns: u64) -> int {
    if gap_ns < 1_000_000 {
        0
    } else if gap_ns < 10_000_000 {
        1
    } else if gap_ns < 30_000_000 {
        2
    } else if gap_ns < 100_000_000 {
        3
    } else {
        4
    }
}

pub open spec fn counted(h: [u64; 5], at: int) -> [u64; 5] {
    [
        (if at == 0 {
            h[0] + 1
        } else {
            h[0] as int
        }) as u64,
        (if at == 1 {
            h[1] + 1
        } else {
            h[1] as int
        }) as u64,
        (if at == 2 {
            h[2] + 1
        } else {
            h[2] as int
        }) as u64,
        (if at == 3 {
            h[3] + 1
        } else {
            h[3] as int
        }) as u64,
        (if at == 4 {
            h[4] + 1
        } else {
            h[4] as int
        }) as u64,
    ]
}

pub open spec fn larger(a: u64, b: int) -> u64 {
    if b > a {
        b as u64
    } else {
        a
    }
}

/// How bytes arrived, after one more read.
pub open spec fn delivered(
    d: DeliveryStats,
    bytes: int,
    frames: int,
    gap: Option<u64>,
) -> DeliveryStats {
    DeliveryStats {
        reads: (d.reads + 1) as u64,
        max_bytes_per_read: larger(d.max_bytes_per_read, bytes),
        max_frames_per_read: larger(d.max_frames_per_read, frames),
        gap_histogram: match gap {
            Some(g) => counted(d.gap_histogram, bucket(g)),
            None => d.gap_histogram,
        },
        max_gap_ns: match gap {
            Some(g) => larger(d.max_gap_ns, g as int),
            None => d.max_gap_ns,
        },
    }
}

fn note_delivery(d: &mut DeliveryStats, bytes: u64, frames: u64, gap: Option<u64>)
    requires
        old(d).reads < u64::MAX,
        forall|i: int| 0 <= i < 5 ==> #[trigger] old(d).gap_histogram[i] < u64::MAX,
    ensures
        *final(d) == delivered(*old(d), bytes as int, frames as int, gap),
{
    d.reads = d.reads + 1;
    if bytes > d.max_bytes_per_read {
        d.max_bytes_per_read = bytes;
    }
    if frames > d.max_frames_per_read {
        d.max_frames_per_read = frames;
    }
    if let Some(g) = gap {
        let h = d.gap_histogram;
        assert(h[0] < u64::MAX && h[1] < u64::MAX && h[2] < u64::MAX && h[3] < u64::MAX && h[4]
            < u64::MAX);
        d.gap_histogram = if g < 1_000_000 {
            [h[0] + 1, h[1], h[2], h[3], h[4]]
        } else if g < 10_000_000 {
            [h[0], h[1] + 1, h[2], h[3], h[4]]
        } else if g < 30_000_000 {
            [h[0], h[1], h[2] + 1, h[3], h[4]]
        } else if g < 100_000_000 {
            [h[0], h[1], h[2], h[3] + 1, h[4]]
        } else {
            [h[0], h[1], h[2], h[3], h[4] + 1]
        };
        assert(d.gap_histogram == counted(h, bucket(g)));
        if g > d.max_gap_ns {
            d.max_gap_ns = g;
        }
    }
}

/// A frame that shows that the device streams something of use. A battery reply
/// does not.
pub open spec fn is_supported(f: Frame) -> bool {
    !(f matches Frame::Registers { address, .. } && address == battery::REGISTER)
}

fn any_supported(frames: &Vec<Frame>) -> (r: bool)
    ensures
        r == exists|i: int| 0 <= i < frames@.len() && is_supported(#[trigger] frames@[i]),
{
    let mut i: usize = 0;
    while i < frames.len()
        invariant
            i <= frames@.len(),
            forall|j: int| 0 <= j < i ==> !is_supported(#[trigger] frames@[j]),
        decreases frames@.len() - i,
    {
        let supported = match &frames[i] {
            Frame::Registers { address, .. } => *address != battery::REGISTER,
            _ => true,
        };
        if supported {
            assert(is_supported(frames@[i as int]));
            return true;
        }
        i = i + 1;
    }
    false
}

/// The reception of one connection.
#[derive(Debug)]
pub struct Pump {
    pub input: PoseInput,
    pub start: u64,
    pub last_bytes: u64,
    pub last_delivery: Option<u64>,
    pub next_link_check: u128,
    pub parser: Parser,
    /// A frame of use has come in over this connection.
    pub received_frame: bool,
    pub intake: Intake,
    /// A request is being written.
    pub writing: bool,
    pub next_request: u128,
    pub next_battery_request: u128,
}

impl Pump {
    pub open spec fn wf(&self) -> bool {
        self.parser.wf() && self.intake.wf()
    }

    /// The counters of this connection have room to grow.
    pub open spec fn roomy(&self) -> bool {
        &&& self.parser.discarded_bytes <= COUNTER_LIMIT
        &&& self.parser.invalid_frames <= COUNTER_LIMIT
        &&& self.intake.clock.duplicates <= COUNTER_LIMIT
        &&& self.intake.clock.discontinuities <= COUNTER_LIMIT
    }

    /// The counters of this connection have room for a read of `n` bytes.
    pub open spec fn room_to_read(&self, n: int) -> bool {
        &&& self.parser.discarded_bytes + MAX_FRAME_BYTES + n <= u64::MAX
        &&& self.parser.invalid_frames + MAX_FRAME_BYTES + n <= u64::MAX
        &&& self.intake.room_for(MAX_FRAME_BYTES + n)
    }

    pub fn has_room(&self) -> (r: bool)
        ensures
            r == self.roomy(),
    {
        self.parser.discarded_bytes <= COUNTER_LIMIT && self.parser.invalid_frames <= COUNTER_LIMIT
            && self.intake.clock.duplicates <= COUNTER_LIMIT && self.intake.clock.discontinuities
            <= COUNTER_LIMIT
    }

    /// Reception over a connection that has just been opened.
    pub fn new(input: PoseInput, start: u64) -> (r: Pump)
        ensures
            r.wf(),
            r.roomy(),
            r.input == input,
            r.start == start,
            r.last_bytes == start,
            r.last_delivery is None,
            r.next_link_check == start + LINK_INTERVAL_NS,
            r.next_link_check == start + 1_000_000_000,
            r.parser.buffer@ == Seq::<u8>::empty(),
            r.parser.discarded_bytes == 0,
            r.parser.invalid_frames == 0,
            !r.received_frame,
            r.intake.raw == RawData::empty(),
            r.intake.clock.previous is None,
            r.intake.clock.duplicates == 0,
            r.intake.guard == FullFrameRate::empty(),
            r.intake.outstanding is None,
            r.intake.battery_outstanding is None,
            !r.writing,
            r.next_request == start,
            r.next_battery_request == start + FIRST_BATTERY_NS,
            r.next_battery_request == start + 1_000_000_000,
    {
        Pump {
            input,
            start,
            last_bytes: start,
            last_delivery: None,
            next_link_check: start as u128 + LINK_INTERVAL_NS as u128,
            parser: Parser::default(),
            received_frame: false,
            intake: Intake {
                raw: RawData::default(),
                clock: SampleClock::default(),
                guard: FullFrameRate::default(),
                outstanding: None,
                battery_outstanding: None,
            },
            writing: false,
            next_request: start as u128,
            next_battery_request: start as u128 + FIRST_BATTERY_NS as u128,
        }
    }

    /// What a read at `now` makes of the frames that it completes.
    pub open spec fn takes(&self, battery: Battery, frames: Seq<Frame>, now: u64) -> Taken {
        (Taken {
            intake: self.intake,
            battery,
            tally: Tally { frames: 0, duplicates: 0, discontinuities: 0, invalid_poses: 0 },
            poses: Seq::empty(),
            refusal: None,
        }).with_all(frames, self.input, elapsed(self.start, now), now)
    }

    /// What taking in a read gives, and leaves.
    pub open spec fn receives_as(
        self,
        before_c: Controller,
        after_c: Controller,
        bytes: Seq<u8>,
        now: u64,
        r: Result<Vec<PreparedPose>, Error>,
        after: Pump,
    ) -> bool {
        &&& ({
            let reading = read(self.parser.buffer@ + bytes);
            let taken = self.takes(before_c.battery, reading.frames, now);
            let s = before_c.status;
            &&& match r {
                Ok(poses) => taken.refusal is None && poses@ == taken.poses,
                Err(e) => taken.refusal is Some && e.is_protocol(taken.refusal->0),
            }
            &&& after_c == (Controller {
                battery: taken.battery,
                status: StatusSnapshot {
                    bytes_received: (s.bytes_received + bytes.len()) as u64,
                    delivery: delivered(
                        s.delivery,
                        bytes.len() as int,
                        reading.frames.len() as int,
                        match self.last_delivery {
                            Some(previous) => Some(elapsed(previous, now)),
                            None => None,
                        },
                    ),
                    frames_received: (s.frames_received + taken.tally.frames) as u64,
                    duplicate_sample_times: (s.duplicate_sample_times
                        + taken.tally.duplicates) as u64,
                    clock_discontinuities: (s.clock_discontinuities
                        + taken.tally.discontinuities) as u64,
                    invalid_poses: (s.invalid_poses + taken.tally.invalid_poses) as u64,
                    discarded_bytes: if taken.refusal is Some {
                        s.discarded_bytes
                    } else {
                        (s.discarded_bytes + reading.discarded) as u64
                    },
                    invalid_frames: if taken.refusal is Some {
                        s.invalid_frames
                    } else {
                        (s.invalid_frames + reading.invalid) as u64
                    },
                    ..s
                },
                ..before_c
            })
            &&& after == (Pump {
                intake: taken.intake,
                parser: after.parser,
                last_bytes: now,
                last_delivery: Some(now),
                received_frame: self.received_frame || exists|i: int|
                    0 <= i < reading.frames.len() && is_supported(
                        #[trigger] reading.frames[i],
                    ),
                ..self
            })
            &&& after.parser.buffer@ == reading.rest
            &&& after.parser.discarded_bytes == self.parser.discarded_bytes
                + reading.discarded
            &&& after.parser.invalid_frames == self.parser.invalid_frames
                + reading.invalid
        })
    }

    /// Takes in one read: counts it and gives out the poses in it, in order.
    /// Where the rate guard refuses a frame, the read ends there.
    pub fn receive(&mut self, controller: &mut Controller, bytes: &[u8], now: u64) -> (r: Result<
        Vec<PreparedPose>,
        Error,
    >)
        requires
            old(self).wf(),
            old(self).room_to_read(bytes@.len() as int),
            old(controller).wf(),
            old(controller).room_to_read(bytes@.len() as int),
            old(controller).status.duplicate_sample_times + MAX_FRAME_BYTES + bytes@.len()
                <= u64::MAX,
            old(controller).status.clock_discontinuities + MAX_FRAME_BYTES + bytes@.len()
                <= u64::MAX,
            old(controller).status.invalid_poses + MAX_FRAME_BYTES + bytes@.len() <= u64::MAX,
            old(controller).status.delivery.reads < u64::MAX,
            forall|i: int|
                0 <= i < 5 ==> #[trigger] old(controller).status.delivery.gap_histogram[i]
                    < u64::MAX,
        ensures
            final(self).wf(),
            final(controller).wf(),
            old(self).receives_as(*old(controller), *final(controller), bytes@, now, r, *final(self)),
    {
        let ghost all = self.parser.buffer@ + bytes@;
        let ghost pump = *self;
        let ghost whole = *controller;
        proof {
            crate::protocol::reading_accounts_for_every_byte(all);
            crate::protocol::reading_has_fewer_frames_than_bytes(all);
            crate::protocol::reading_leaves_less_than_a_frame(self.parser.buffer@);
        }
        self.last_bytes = now;
        let ns: u64 = elapsed_ns(self.start, now);
        let discarded: u64 = self.parser.discarded_bytes;
        let invalid: u64 = self.parser.invalid_frames;
        let frames = self.parser.push(bytes);
        if any_supported(&frames) {
            self.received_frame = true;
        }
        controller.status.bytes_received = controller.status.bytes_received + bytes.len() as u64;
        let gap = match self.last_delivery {
            Some(previous) => Some(elapsed_ns(previous, now)),
            None => None,
        };
        note_delivery(
            &mut controller.status.delivery,
            bytes.len() as u64,
            frames.len() as u64,
            gap,
        );
        self.last_delivery = Some(now);
        let mut tally = Tally { frames: 0, duplicates: 0, discontinuities: 0, invalid_poses: 0 };
        let mut poses: Vec<PreparedPose> = Vec::new();
        let mut refusal: Option<Error> = None;
        let mut i: usize = 0;
        let input = self.input;
        let ghost initial = Taken {
            intake: self.intake,
            battery: controller.battery,
            tally,
            poses: poses@,
            refusal: None,
        };
        let ghost pump_before = *self;
        let ghost controller_before = *controller;
        while i < frames.len() && refusal.is_none()
            invariant
                i <= frames@.len(),
                self.intake.wf(),
                refusal is None ==> {
                    &&& initial.with_all(frames@.take(i as int), input, ns, now) == (Taken {
                        intake: self.intake,
                        battery: controller.battery,
                        tally,
                        poses: poses@,
                        refusal: None,
                    })
                },
                refusal is Some ==> {
                    let t = initial.with_all(frames@, input, ns, now);
                    &&& answers(t.refusal, Err(refusal->0))
                    &&& t == (Taken {
                        intake: self.intake,
                        battery: controller.battery,
                        tally,
                        poses: poses@,
                        refusal: t.refusal,
                    })
                },
                *self == (Pump { intake: self.intake, ..pump_before }),
                *controller == (Controller {
                    battery: controller.battery,
                    ..controller_before
                }),
                tally.frames <= i,
                tally.duplicates <= i,
                tally.discontinuities <= i,
                tally.invalid_poses <= i,
                pump.room_to_read(bytes@.len() as int),
                frames@.len() <= bytes@.len() + MAX_FRAME_BYTES,
                self.intake.clock.duplicates <= pump.intake.clock.duplicates + i,
                self.intake.clock.discontinuities <= pump.intake.clock.discontinuities + i,
            decreases frames@.len() - i,
        {
            let ghost before = initial.with_all(frames@.take(i as int), input, ns, now);
            assert(frames@.take(i + 1).drop_last() =~= frames@.take(i as int));
            assert(frames@.take(i + 1).last() == frames@[i as int]);
            match self.intake.take(
                &mut controller.battery,
                &mut tally,
                &mut poses,
                &frames[i],
                input,
                ns,
                now,
            ) {
                Ok(()) => {},
                Err(e) => {
                    proof {
                        lemma_refusal_lasts(initial, frames@, i + 1, input, ns, now);
                    }
                    refusal = Some(e);
                },
            }
            i = i + 1;
        }
        assert(frames@.take(frames@.len() as int) =~= frames@);
        controller.status.frames_received = controller.status.frames_received + tally.frames;
        controller.status.duplicate_sample_times =
            controller.status.duplicate_sample_times + tally.duplicates;
        controller.status.clock_discontinuities =
            controller.status.clock_discontinuities + tally.discontinuities;
        controller.status.invalid_poses = controller.status.invalid_poses + tally.invalid_poses;
        if let Some(e) = refusal {
            return Err(e);
        }
        controller.status.discarded_bytes =
            controller.status.discarded_bytes + (self.parser.discarded_bytes - discarded);
        controller.status.invalid_frames =
            controller.status.invalid_frames + (self.parser.invalid_frames - invalid);
        Ok(poses)
    }

    /// When a quaternion request is due: 20 ms after the last one once it has
    /// been answered, 250 ms after it otherwise; never while one is written.
    pub open spec fn request_time(&self) -> Option<u128> {
        if self.input == PoseInput::Quaternion && !self.writing {
            match self.intake.outstanding {
                Some(sent) => Some((sent + REQUEST_RETRY_NS) as u128),
                None => Some(self.next_request),
            }
        } else {
            None
        }
    }

    pub fn request_deadline(&self) -> (r: Option<u128>)
        ensures
            r == self.request_time(),
    {
        if self.input == PoseInput::Quaternion && !self.writing {
            match self.intake.outstanding {
                Some(sent) => Some(sent as u128 + REQUEST_RETRY_NS as u128),
                None => Some(self.next_request),
            }
        } else {
            None
        }
    }

    pub open spec fn battery_time(&self) -> Option<u128> {
        if !self.writing && self.intake.battery_outstanding is None {
            Some(self.next_battery_request)
        } else {
            None
        }
    }

    /// When the battery is asked for: every 30 s, one request at a time.
    pub fn battery_deadline(&self) -> (r: Option<u128>)
        ensures
            r == self.battery_time(),
    {
        if !self.writing && self.intake.battery_outstanding.is_none() {
            Some(self.next_battery_request)
        } else {
            None
        }
    }

    /// When an unanswered battery request is given up.
    pub fn battery_timeout(&self) -> (r: Option<u128>)
        ensures
            r == self.battery_end(),
    {
        match self.intake.battery_outstanding {
            Some(sent) => Some(sent as u128 + battery::RESPONSE_TIMEOUT_NS as u128),
            None => None,
        }
    }

    /// With a quaternion request that went out at `now`.
    pub open spec fn requested(self, now: u64) -> Pump {
        Pump {
            writing: true,
            next_request: (now + REQUEST_INTERVAL_NS) as u128,
            intake: Intake { outstanding: Some(now), ..self.intake },
            ..self
        }
    }

    /// With a battery request that went out at `now`.
    pub open spec fn battery_requested(self, now: u64) -> Pump {
        Pump {
            writing: true,
            next_battery_request: (now + battery::POLL_INTERVAL_NS) as u128,
            intake: Intake { battery_outstanding: Some(now), ..self.intake },
            ..self
        }
    }

    /// When an unanswered battery request is given up.
    pub open spec fn battery_end(self) -> Option<u128> {
        match self.intake.battery_outstanding {
            Some(sent) => Some((sent + battery::RESPONSE_TIMEOUT_NS) as u128),
            None => None,
        }
    }

    /// A quaternion request goes out at `now`.
    pub fn request_sent(&mut self, now: u64)
        requires
            old(self).wf(),
        ensures
            final(self).wf(),
            *final(self) == old(self).requested(now),
    {
        self.writing = true;
        self.intake.outstanding = Some(now);
        self.next_request = now as u128 + REQUEST_INTERVAL_NS as u128;
    }

    /// A battery request goes out at `now`.
    pub fn battery_sent(&mut self, now: u64)
        requires
            old(self).wf(),
        ensures
            final(self).wf(),
            *final(self) == old(self).battery_requested(now),
    {
        self.writing = true;
        self.intake.battery_outstanding = Some(now);
        self.next_battery_request = now as u128 + battery::POLL_INTERVAL_NS as u128;
    }

    /// The request for a register has been written, or has failed. A battery
    /// request that fails leaves reception alone; any other ends it.
    pub fn written(
        &mut self,
        controller: &mut Controller,
        address: u16,
        result: Result<(), Error>,
    ) -> (r: Result<(), Error>)
        requires
            old(self).wf(),
            old(controller).wf(),
        ensures
            final(self).wf(),
            final(controller).wf(),
            match result {
                Ok(()) => {
                    &&& r is Ok
                    &&& *final(self) == (Pump { writing: false, ..*old(self) })
                    &&& *final(controller) == *old(controller)
                },
                Err(e) => if address == battery::REGISTER {
                    &&& r is Ok
                    &&& *final(self) == (Pump {
                        writing: false,
                        intake: Intake { battery_outstanding: None, ..old(self).intake },
                        ..*old(self)
                    })
                    &&& *final(controller) == (Controller {
                        battery: Battery {
                            last_error: final(controller).battery.last_error,
                            ..old(controller).battery
                        },
                        ..*old(controller)
                    })
                    &&& final(controller).battery.last_error matches Some(m) && m.text()
                        == e.text()
                } else {
                    &&& r == Err::<(), Error>(e)
                    &&& *final(self) == (Pump { writing: false, ..*old(self) })
                    &&& *final(controller) == *old(controller)
                },
            },
    {
        self.writing = false;
        match result {
            Ok(()) => Ok(()),
            Err(error) => {
                if address == battery::REGISTER {
                    self.intake.battery_outstanding = None;
                    controller.battery.fail(BatteryError::Request(error.message()));
                    Ok(())
                } else {
                    Err(error)
                }
            },
        }
    }

    /// A battery request was not answered in time.
    pub fn battery_timed_out(&mut self, controller: &mut Controller)
        requires
            old(self).wf(),
            old(controller).wf(),
        ensures
            final(self).wf(),
            final(controller).wf(),
            *final(self) == (Pump {
                intake: Intake { battery_outstanding: None, ..old(self).intake },
                ..*old(self)
            }),
            *final(controller) == (Controller {
                battery: Battery {
                    last_error: Some(BatteryError::TimedOut),
                    ..old(controller).battery
                },
                ..*old(controller)
            }),
    {
        self.intake.battery_outstanding = None;
        controller.battery.fail(BatteryError::TimedOut);
    }

    /// Whether the state of the link is looked up.
    pub fn link_due(&self, now: u64) -> (r: bool)
        ensures
            r == (now >= self.next_link_check),
    {
        now as u128 >= self.next_link_check
    }

    pub fn link_checked(
        &mut self,
        controller: &mut Controller,
        link: Option<BleLinkStatus>,
        now: u64,
    )
        requires
            old(self).wf(),
            old(controller).wf(),
        ensures
            final(self).wf(),
            final(controller).wf(),
            *final(self) == (Pump {
                next_link_check: (now + LINK_INTERVAL_NS) as u128,
                ..*old(self)
            }),
            final(self).next_link_check == now + 1_000_000_000,
            *final(controller) == (Controller {
                status: StatusSnapshot { ble_link: link, ..old(controller).status },
                ..*old(controller)
            }),
    {
        controller.status.ble_link = link;
        self.next_link_check = now as u128 + LINK_INTERVAL_NS as u128;
    }

    /// What the watchdogs say, and leave.
    pub open spec fn checks_as(
        self,
        before_c: Controller,
        after_c: Controller,
        now: u64,
        r: Result<(), Error>,
    ) -> bool {
        &&& after_c == (if elapsed(self.start, now) >= STALE_AFTER_NS && (
        before_c.pose is None || !before_c.is_fresh(now)) {
            Controller {
                status: StatusSnapshot {
                    state: ConnectionState::Stale,
                    ..before_c.status
                },
                ..before_c
            }
        } else {
            before_c
        })
        &&& if elapsed(self.last_bytes, now) > SILENCE_NS {
            r matches Err(e) && e.is_timeout("no device bytes for 10 seconds"@)
        } else if elapsed(self.start, now) > SILENCE_NS && !self.received_frame {
            r matches Err(e) && e.is_protocol(
                "no supported WIT frames; check output format, model, firmware and baud rate"@,
            )
        } else {
            r is Ok
        }
    }

    /// The watchdogs: without a fresh pose reception is stale from half a second
    /// on; it ends after ten seconds without bytes, and after ten seconds in
    /// which no frame of use has come over this connection.
    pub fn check(&self, controller: &mut Controller, now: u64) -> (r: Result<(), Error>)
        requires
            old(controller).wf(),
        ensures
            final(controller).wf(),
            self.checks_as(*old(controller), *final(controller), now, r),
    {
        if elapsed_ns(self.start, now) >= STALE_AFTER_NS {
            if controller.pose.is_none() || !controller.fresh(now) {
                controller.status.state = ConnectionState::Stale;
            }
        }
        if elapsed_ns(self.last_bytes, now) > SILENCE_NS {
            return Err(Error::timeout("no device bytes for 10 seconds"));
        }
        if elapsed_ns(self.start, now) > SILENCE_NS && !self.received_frame {
            return Err(
                Error::protocol(
                    "no supported WIT frames; check output format, model, firmware and baud rate",
                ),
            );
        }
        Ok(())
    }
}

proof fn lemma_refusal_lasts(
    t: Taken,
    frames: Seq<Frame>,
    k: int,
    input: PoseInput,
    ns: u64,
    now: u64,
)
    requires
        0 <= k <= frames.len(),
        t.with_all(frames.take(k), input, ns, now).refusal is Some,
    ensures
        t.with_all(frames, input, ns, now) == t.with_all(frames.take(k), input, ns, now),
    decreases frames.len() - k,
{
    if k < frames.len() {
        assert(frames.take(k + 1).drop_last() =~= frames.take(k));
        lemma_refusal_lasts(t, frames, k + 1, input, ns, now);
    } else {
        assert(frames.take(k) =~= frames);
    }
}

/// A repeated sample time gives no pose and leaves the clock where it was.
pub proof fn repeated_times_give_no_pose(t: Taken, c: Candidate, last: SampleTime, at: u64, ns: u64)
    requires
        c.orientation.valid(),
        t.intake.clock.previous == Some((last, at)),
        last.kind == SampleTimeKind::DeviceCalendar,
        c.time_ms == Some(last.time_ms),
    ensures
        t.offered(c, ns).poses == t.poses,
        t.offered(c, ns).intake.clock.previous == t.intake.clock.previous,
        t.offered(c, ns).tally.duplicates == (t.tally.duplicates + 1) as u64,
{
}

/// Battery replies and requests leave poses, readings and the quaternion
/// request alone.
pub proof fn battery_replies_leave_poses_alone(
    t: Taken,
    values: [i16; 8],
    input: PoseInput,
    ns: u64,
    now: u64,
)
    requires
        t.refusal is None,
    ensures
        ({
            let u = t.with(
                Frame::Registers { address: battery::REGISTER, values },
                input,
                ns,
                now,
            );
            &&& u.poses == t.poses
            &&& u.intake.raw == t.intake.raw
            &&& u.intake.outstanding == t.intake.outstanding
            &&& u.intake.clock == t.intake.clock
            &&& u.refusal is None
        }),
{
}

/// Once a quaternion request has been written, the next one is due 20 ms after it
/// if it has been answered, and 250 ms after it if not; none is due while it is
/// being written, nor for any other pose input.
pub proof fn requests_come_in_their_time(p: Pump, sent: u64)
    ensures
        ({
            let q = p.requested(sent);
            let written = Pump { writing: false, ..q };
            let answered = Pump {
                intake: Intake { outstanding: None, ..written.intake },
                ..written
            };
            &&& q.request_time() is None
            &&& q.battery_time() is None
            &&& p.input == PoseInput::Quaternion ==> {
                &&& written.request_time() == Some((sent + 250_000_000) as u128)
                &&& answered.request_time() == Some((sent + 20_000_000) as u128)
            }
            &&& p.input != PoseInput::Quaternion ==> {
                &&& written.request_time() is None
                &&& answered.request_time() is None
            }
        }),
{
}

/// Requests for the quaternion are at least 20 ms apart, and at least 250 ms
/// apart while none has been answered.
pub proof fn requests_are_spaced(sent: u64, p: Pump, now: u64)
    requires
        p.next_request == sent + REQUEST_INTERVAL_NS,
        p.intake.outstanding is None || p.intake.outstanding == Some(sent),
        p.request_time() matches Some(due) && now >= due,
    ensures
        now >= sent + 20_000_000,
        p.intake.outstanding is Some ==> now >= sent + 250_000_000,
{
}

/// The battery is asked for every 30 s, one request at a time; a request is given
/// up after 3 s.
pub proof fn battery_requests_are_spaced(p: Pump, sent: u64)
    ensures
        ({
            let q = p.battery_requested(sent);
            let written = Pump { writing: false, ..q };
            let answered = Pump {
                intake: Intake { battery_outstanding: None, ..written.intake },
                ..written
            };
            &&& q.battery_time() is None
            &&& written.battery_time() is None
            &&& written.battery_end() == Some((sent + 3_000_000_000) as u128)
            &&& answered.battery_time() == Some((sent + 30_000_000_000) as u128)
            &&& answered.battery_end() is None
        }),
{
}

/// A pose holds what a frame has sent: the orientation that the pose input takes,
/// component by component, the rates and the time of the same frame, and nothing
/// of any other.
pub open spec fn comes_from(p: PreparedPose, f: Frame, input: PoseInput) -> bool {
    match (input, f, p.orientation) {
        (
            PoseInput::Euler,
            Frame::Motion { acceleration, angular_velocity, euler_xyz },
            Orientation::Euler { xyz },
        ) => {
            &&& forall|k: int| 0 <= k < 3 ==> #[trigger] xyz[k] == euler_xyz[k]
            &&& p.raw.euler_xyz == Some(xyz)
            &&& p.angular_velocity == Some(angular_velocity)
            &&& p.acceleration == Some(acceleration)
            &&& p.time is None
            &&& p.source == OrientationSource::ConvertedEuler
            &&& p.profile == 0x61
        },
        (
            PoseInput::Euler,
            Frame::Stream {
                profile,
                acceleration,
                sample_time_ms,
                angular_velocity,
                euler_xyz: Some(sent),
                ..
            },
            Orientation::Euler { xyz },
        ) => {
            &&& forall|k: int| 0 <= k < 3 ==> #[trigger] xyz[k] == sent[k]
            &&& p.raw.euler_xyz == Some(xyz)
            &&& p.angular_velocity == angular_velocity
            &&& p.acceleration == acceleration
            &&& stamp_is(p.time, sample_time_ms)
            &&& p.source == OrientationSource::ConvertedEuler
            &&& p.profile == profile
        },
        (
            PoseInput::StreamQuaternion,
            Frame::Stream {
                profile,
                acceleration,
                sample_time_ms,
                angular_velocity,
                quaternion_wxyz: Some(sent),
                ..
            },
            Orientation::Quaternion { wxyz },
        ) => {
            &&& forall|k: int| 0 <= k < 4 ==> #[trigger] wxyz[k] == sent[k]
            &&& p.raw.quaternion_wxyz == Some(wxyz)
            &&& p.angular_velocity == angular_velocity
            &&& p.acceleration == acceleration
            &&& stamp_is(p.time, sample_time_ms)
            &&& p.source == OrientationSource::NativeQuaternion
            &&& p.profile == profile
        },
        (
            PoseInput::Quaternion,
            Frame::Registers { address, values },
            Orientation::Quaternion { wxyz },
        ) => {
            &&& address == 0x51
            &&& forall|k: int| 0 <= k < 4 ==> #[trigger] wxyz[k] == values[k]
            &&& p.raw.quaternion_wxyz == Some(wxyz)
            &&& p.angular_velocity is None
            &&& p.acceleration is None
            &&& p.time is None
            &&& p.source == OrientationSource::RegisterQuaternion
            &&& p.profile == 0x71
        },
        _ => false,
    }
}

/// A stamp is that of a device's time, or there is neither.
pub open spec fn stamp_is(stamp: Option<SampleTime>, ms: Option<u64>) -> bool {
    match (stamp, ms) {
        (Some(t), Some(ms)) => t.kind == SampleTimeKind::DeviceCalendar && t.time_ms == ms,
        (None, None) => true,
        _ => false,
    }
}

/// A frame gives one pose at most, behind those that are there, and that pose is
/// what the frame has sent.
pub proof fn a_frame_gives_its_own_pose(
    t: Taken,
    frame: Frame,
    input: PoseInput,
    ns: u64,
    now: u64,
)
    ensures
        ({
            let u = t.with(frame, input, ns, now);
            ||| u.poses == t.poses
            ||| u.poses == t.poses.push(u.poses.last()) && comes_from(
                u.poses.last(),
                frame,
                input,
            )
        }),
{
    let u = t.with(frame, input, ns, now);
    let n = t.noted(frame, ns, now);
    if let Some(c) = candidate(frame, input) {
        assert(n.poses == t.poses);
        let o = n.offered(c, ns);
        if o.poses.len() > n.poses.len() {
            let p = o.poses.last();
            assert(o.poses =~= n.poses.push(p));
            if t.refusal is None && n.refusal is None {
                assert(comes_from(p, frame, input));
            }
        }
    }
}

/// The pose of a frame is shown with the last readings as they are after it, and
/// stamped by the clock of its connection, which goes on from there.
pub proof fn poses_carry_readings_and_stamps(
    t: Taken,
    frame: Frame,
    input: PoseInput,
    ns: u64,
    now: u64,
)
    requires
        t.refusal is None,
        t.with(frame, input, ns, now).refusal is None,
    ensures
        ({
            let u = t.with(frame, input, ns, now);
            let given = u.poses.len() > t.poses.len();
            &&& u.intake.raw == raw_after(t.intake.raw, frame, ns)
            &&& given ==> u.poses.last().raw == u.intake.raw
            &&& given && u.poses.last().time is Some ==> {
                &&& frame is Stream && frame->sample_time_ms is Some
                &&& u.poses.last().time == stamped(
                    t.intake.clock.previous,
                    SampleTimeKind::DeviceCalendar,
                    frame->sample_time_ms->0,
                    ns,
                )
                &&& u.intake.clock.previous == Some((u.poses.last().time->0, ns))
            }
            &&& !given || u.poses.last().time is None ==> u.intake.clock.previous
                == t.intake.clock.previous
        }),
{
}

/// Every pose of a read is what one of its frames has sent.
pub proof fn poses_are_what_frames_have_sent(
    t: Taken,
    frames: Seq<Frame>,
    input: PoseInput,
    ns: u64,
    now: u64,
    i: int,
)
    requires
        t.poses.len() == 0,
        0 <= i < t.with_all(frames, input, ns, now).poses.len(),
    ensures
        exists|j: int|
            0 <= j < frames.len() && comes_from(
                t.with_all(frames, input, ns, now).poses[i],
                #[trigger] frames[j],
                input,
            ),
    decreases frames.len(),
{
    if frames.len() > 0 {
        let front = frames.drop_last();
        let before = t.with_all(front, input, ns, now);
        let u = t.with_all(frames, input, ns, now);
        a_frame_gives_its_own_pose(before, frames.last(), input, ns, now);
        if i < before.poses.len() {
            poses_are_what_frames_have_sent(t, front, input, ns, now, i);
            let j = choose|j: int|
                0 <= j < front.len() && comes_from(before.poses[i], #[trigger] front[j], input);
            assert(comes_from(u.poses[i], frames[j], input));
        } else {
            assert(comes_from(u.poses[i], frames[frames.len() - 1], input));
        }
    }
}

/// A frame has an orientation for a pose input.
pub open spec fn has_orientation(f: Frame, input: PoseInput) -> bool {
    match (input, f) {
        (PoseInput::Euler, Frame::Motion { .. }) => true,
        (PoseInput::Euler, Frame::Stream { euler_xyz, .. }) => euler_xyz is Some,
        (PoseInput::StreamQuaternion, Frame::Stream { quaternion_wxyz, .. }) => quaternion_wxyz
            is Some,
        (PoseInput::Quaternion, Frame::Registers { address, .. }) => address == 0x51,
        _ => false,
    }
}

/// Its orientation is a quaternion of zeros.
pub open spec fn is_zero_quaternion(f: Frame) -> bool {
    match f {
        Frame::Stream { quaternion_wxyz: Some(q), .. } => q[0] == 0 && q[1] == 0 && q[2] == 0
            && q[3] == 0,
        Frame::Registers { values, .. } => values[0] == 0 && values[1] == 0 && values[2] == 0
            && values[3] == 0,
        _ => false,
    }
}

/// It repeats the time of the last sample that had one.
pub open spec fn repeats_time(f: Frame, clock: SampleClock) -> bool {
    f matches Frame::Stream { sample_time_ms: Some(ms), .. } && (clock.previous matches Some(
        (last, _),
    ) && last.kind == SampleTimeKind::DeviceCalendar && last.time_ms == ms)
}

/// Every frame that the rate guard lets pass is counted. One with an orientation
/// for the pose input gives a pose, unless the orientation is a quaternion of
/// zeros, which counts as invalid, or the frame repeats the time of the one
/// before, which counts as a duplicate. Any other frame gives none.
pub proof fn frames_give_the_poses_that_are_owed(
    t: Taken,
    frame: Frame,
    input: PoseInput,
    ns: u64,
    now: u64,
)
    requires
        t.refusal is None,
        t.with(frame, input, ns, now).refusal is None,
        t.tally.frames < u64::MAX,
        t.tally.invalid_poses < u64::MAX,
        t.tally.duplicates < u64::MAX,
    ensures
        ({
            let u = t.with(frame, input, ns, now);
            let zero = input != PoseInput::Euler && is_zero_quaternion(frame);
            &&& u.tally.frames == t.tally.frames + 1
            &&& if !has_orientation(frame, input) {
                &&& u.poses == t.poses
                &&& u.tally.invalid_poses == t.tally.invalid_poses
                &&& u.tally.duplicates == t.tally.duplicates
            } else if zero {
                &&& u.poses == t.poses
                &&& u.tally.invalid_poses == t.tally.invalid_poses + 1
                &&& u.tally.duplicates == t.tally.duplicates
            } else if repeats_time(frame, t.intake.clock) {
                &&& u.poses == t.poses
                &&& u.tally.invalid_poses == t.tally.invalid_poses
                &&& u.tally.duplicates == t.tally.duplicates + 1
            } else {
                &&& u.poses.len() == t.poses.len() + 1
                &&& u.tally.invalid_poses == t.tally.invalid_poses
                &&& u.tally.duplicates == t.tally.duplicates
            }
        }),
{
}

/// The last readings after a frame are those that it has sent, at the time of its
/// read. A stream frame leaves no motion reading of an earlier frame; only the
/// quaternion stays where a frame has none.
pub proof fn readings_are_those_of_the_frame(raw: RawData, frame: Frame, ns: u64)
    ensures
        ({
            let r = raw_after(raw, frame, ns);
            match frame {
                Frame::Motion { acceleration, angular_velocity, euler_xyz } => {
                    &&& r.acceleration == Some(acceleration)
                    &&& r.angular_velocity == Some(angular_velocity)
                    &&& r.euler_xyz == Some(euler_xyz)
                    &&& r.motion_received_ns == Some(ns)
                    &&& r.quaternion_wxyz == raw.quaternion_wxyz
                    &&& r.quaternion_received_ns == raw.quaternion_received_ns
                },
                Frame::Stream {
                    acceleration,
                    angular_velocity,
                    euler_xyz,
                    quaternion_wxyz,
                    ..
                } => {
                    &&& r.acceleration == acceleration
                    &&& r.angular_velocity == angular_velocity
                    &&& r.euler_xyz == euler_xyz
                    &&& r.motion_received_ns is Some <==> angular_velocity is Some || euler_xyz
                        is Some
                    &&& r.motion_received_ns is Some ==> r.motion_received_ns == Some(ns)
                    &&& quaternion_wxyz is Some ==> r.quaternion_wxyz == quaternion_wxyz
                        && r.quaternion_received_ns == Some(ns)
                    &&& quaternion_wxyz is None ==> r.quaternion_wxyz == raw.quaternion_wxyz
                        && r.quaternion_received_ns == raw.quaternion_received_ns
                },
                Frame::Registers { address, values } => {
                    &&& address == 0x51 ==> {
                        &&& r.quaternion_wxyz matches Some(q) && forall|k: int|
                            0 <= k < 4 ==> #[trigger] q[k] == values[k]
                        &&& r.quaternion_received_ns == Some(ns)
                    }
                    &&& address != 0x51 ==> r == raw
                    &&& r.acceleration == raw.acceleration
                    &&& r.angular_velocity == raw.angular_velocity
                    &&& r.euler_xyz == raw.euler_xyz
                    &&& r.motion_received_ns == raw.motion_received_ns
                },
            }
        }),
{
}

/// A battery reply is taken as the answer to the request that is open, once: its
/// first word is the reading if it comes within 3 s, and a timeout otherwise.
/// Without an open request it changes nothing.
pub proof fn battery_replies_answer_their_request(
    t: Taken,
    values: [i16; 8],
    input: PoseInput,
    ns: u64,
    sent: u64,
    now: u64,
)
    requires
        t.refusal is None,
        sent <= now,
        now - sent < 0x8000_0000_0000_0000,
        values[0] >= 0,
    ensures
        ({
            let u = t.with(Frame::Registers { address: 0x64, values }, input, ns, now);
            &&& u.intake.battery_outstanding is None
            &&& t.intake.battery_outstanding is None ==> u.battery == t.battery
            &&& t.intake.battery_outstanding == Some(sent) && now - sent < 3_000_000_000 ==> u.battery
                == t.battery.after(values[0] as u16, now)
            &&& t.intake.battery_outstanding == Some(sent) && now - sent >= 3_000_000_000 ==> {
                &&& u.battery.last_error == Some(BatteryError::TimedOut)
                &&& u.battery.raw_register == t.battery.raw_register
                &&& u.battery.received == t.battery.received
            }
        }),
{
}

/// A reply from the quaternion register answers the quaternion request, and no
/// other frame does.
pub proof fn quaternion_replies_answer_their_request(
    t: Taken,
    frame: Frame,
    input: PoseInput,
    ns: u64,
    now: u64,
)
    requires
        t.refusal is None,
    ensures
        t.with(frame, input, ns, now).intake.outstanding == (if frame matches Frame::Registers {
            address,
            ..
        } && address == 0x51 {
            None
        } else {
            t.intake.outstanding
        }),
{
}

/// Gaps between reads are counted below 1 ms, from 1, from 10, from 30 and from
/// 100 ms on: each in one class, a longer one in a higher one.
pub proof fn gaps_are_counted_by_length(d: DeliveryStats, bytes: u64, frames: u64, gap: u64, k: int)
    requires
        0 <= k < 5,
        d.reads < u64::MAX,
        forall|i: int| 0 <= i < 5 ==> #[trigger] d.gap_histogram[i] < u64::MAX,
    ensures
        ({
            let from = seq![0int, 1_000_000, 10_000_000, 30_000_000, 100_000_000];
            let e = delivered(d, bytes as int, frames as int, Some(gap));
            let hit = from[k] <= gap && (k < 4 ==> gap < from[k + 1]);
            &&& e.gap_histogram[k] == d.gap_histogram[k] + (if hit {
                1int
            } else {
                0int
            })
            &&& e.max_gap_ns >= gap && e.max_gap_ns >= d.max_gap_ns
            &&& e.max_gap_ns == gap || e.max_gap_ns == d.max_gap_ns
            &&& e.reads == d.reads + 1
            &&& e.max_bytes_per_read >= bytes && e.max_bytes_per_read >= d.max_bytes_per_read
            &&& e.max_bytes_per_read == bytes || e.max_bytes_per_read == d.max_bytes_per_read
            &&& e.max_frames_per_read >= frames && e.max_frames_per_read >= d.max_frames_per_read
            &&& e.max_frames_per_read == frames || e.max_frames_per_read == d.max_frames_per_read
        }),
{
}

/// A read is counted whole: its bytes, the frames that it completes, what was
/// passed over, and what became of its poses. It is the last read from then on.
pub proof fn reads_are_counted(
    p: Pump,
    c: Controller,
    after_c: Controller,
    bytes: Seq<u8>,
    now: u64,
    poses: Vec<PreparedPose>,
    after: Pump,
)
    requires
        p.receives_as(c, after_c, bytes, now, Ok(poses), after),
        c.status.bytes_received + bytes.len() <= u64::MAX,
        c.status.discarded_bytes + MAX_FRAME_BYTES + bytes.len() <= u64::MAX,
        c.status.invalid_frames + MAX_FRAME_BYTES + bytes.len() <= u64::MAX,
        p.parser.buffer@.len() < MAX_FRAME_BYTES,
    ensures
        ({
            let reading = read(p.parser.buffer@ + bytes);
            let s = after_c.status;
            &&& s.bytes_received == c.status.bytes_received + bytes.len()
            &&& s.discarded_bytes == c.status.discarded_bytes + reading.discarded
            &&& s.invalid_frames == c.status.invalid_frames + reading.invalid
            &&& after.parser.buffer@ == reading.rest
            &&& after.last_bytes == now
            &&& after.last_delivery == Some(now)
            &&& after.received_frame <==> p.received_frame || exists|i: int|
                0 <= i < reading.frames.len() && !(#[trigger] reading.frames[i] matches Frame::Registers {
                    address,
                    ..
                } && address == 0x64)
            &&& after.start == p.start && after.input == p.input
            &&& s.state == c.status.state && s.pose_count == c.status.pose_count
            &&& after_c.pose == c.pose && after_c.motion == c.motion && after_c.descriptor
                == c.descriptor
        }),
{
    crate::protocol::reading_accounts_for_every_byte(p.parser.buffer@ + bytes);
    let reading = read(p.parser.buffer@ + bytes);
    assert forall|i: int| 0 <= i < reading.frames.len() implies is_supported(
        #[trigger] reading.frames[i],
    ) == !(reading.frames[i] matches Frame::Registers { address, .. } && address == 0x64) by {}
}

/// Every pose of a read is what one of the frames that it completes has sent, with
/// the time of the read.
pub proof fn reads_give_what_frames_have_sent(
    p: Pump,
    c: Controller,
    after_c: Controller,
    bytes: Seq<u8>,
    now: u64,
    poses: Vec<PreparedPose>,
    after: Pump,
    i: int,
)
    requires
        p.receives_as(c, after_c, bytes, now, Ok(poses), after),
        0 <= i < poses@.len(),
    ensures
        exists|j: int|
            0 <= j < read(p.parser.buffer@ + bytes).frames.len() && comes_from(
                poses@[i],
                #[trigger] read(p.parser.buffer@ + bytes).frames[j],
                p.input,
            ),
{
    let frames = read(p.parser.buffer@ + bytes).frames;
    let t = Taken {
        intake: p.intake,
        battery: c.battery,
        tally: Tally { frames: 0, duplicates: 0, discontinuities: 0, invalid_poses: 0 },
        poses: Seq::empty(),
        refusal: None,
    };
    assert(p.takes(c.battery, frames, now) == t.with_all(
        frames,
        p.input,
        elapsed(p.start, now),
        now,
    ));
    poses_are_what_frames_have_sent(t, frames, p.input, elapsed(p.start, now), now, i);
}

/// Only a full inertial frame is refused: one without a time, or one that shows
/// another rate than 20 Hz. Nothing after it is taken in.
pub proof fn refusals_end_a_read(
    t: Taken,
    frame: Frame,
    other: Frame,
    input: PoseInput,
    ns: u64,
    now: u64,
)
    requires
        t.refusal is None,
    ensures
        ({
            let u = t.with(frame, input, ns, now);
            &&& u.refusal is Some <==> (frame matches Frame::Stream { profile, sample_time_ms, .. }
                && profile == 0xe4 && (sample_time_ms is None || t.intake.guard.too_far(
                sample_time_ms->0,
            )))
            &&& u.refusal is Some ==> u.poses == t.poses && u.with(other, input, ns, now) == u
        }),
{
}

/// Without a fresh pose reception is stale from half a second on. It ends after
/// more than ten seconds without bytes, and after more than ten seconds in which
/// no frame of use has come in; up to then it goes on.
pub proof fn silence_ends_reception(
    p: Pump,
    c: Controller,
    after: Controller,
    now: u64,
    r: Result<(), Error>,
)
    requires
        p.checks_as(c, after, now, r),
        p.start <= p.last_bytes <= now,
        now - p.start <= i64::MAX,
    ensures
        r is Err <==> now - p.last_bytes > 10_000_000_000 || (now - p.start > 10_000_000_000
            && !p.received_frame),
        now - p.last_bytes > 10_000_000_000 ==> r->Err_0 is Timeout,
        now - p.last_bytes <= 10_000_000_000 && r is Err ==> r->Err_0 is Protocol,
        now - p.start >= 500_000_000 && (c.pose is None || !c.is_fresh(now)) ==> after.status.state
            == ConnectionState::Stale,
        !(now - p.start >= 500_000_000 && (c.pose is None || !c.is_fresh(now))) ==> after == c,
        after.pose == c.pose && after.descriptor == c.descriptor,
{
}

/// The rate guard follows full inertial frames that it accepts from time to time,
/// and starts over with a frame of another profile.
pub proof fn the_guard_follows_accepted_frames(g: FullFrameRate, profile: u8, time: u64)
    ensures
        profile != 0xe4 ==> {
            let h = guard_after(g, profile, Some(time));
            h.last is None && h.count == 0 && guard_refusal(g, profile, Some(time)) is None
        },
        profile == 0xe4 && !g.too_far(time) ==> {
            let h = guard_after(g, profile, Some(time));
            h.last == Some(time) && h.gaps == g.noted(time).gaps && h.count == g.noted(time).count
        },
        guard_refusal(g, 0xe4, Some(time)) is Some <==> g.too_far(time),
        guard_refusal(g, 0xe4, None) is Some,
{
}

} // verus!
