//! Magnetic monitoring and calibration over an exclusive connection.

use crate::clock::{elapsed, elapsed_ns};
use crate::device::{to_unsigned, unsigned, ReadSchedule};
use crate::model::{
    copy_operation, copy_text, is_identifier, new_id, DeviceCommand, Error, OperationStatus,
};
use crate::protocol::{register_of, write_bytes, write_register, Frame, UNLOCK};
use crate::text::{
    all_digits, characters, decimal, decimal_text, decimal_value, hex, hex_text, parse_decimal,
};
use std::collections::VecDeque;
use vstd::prelude::*;

verus! {

pub const MAGNETIC_HISTORY_CAPACITY: usize = 256;

pub const POLL_INTERVAL_NS: u64 = 200_000_000;

pub const CONTROL_INTERVAL_NS: u64 = 1_000_000_000;

pub const FRESH_FOR_NS: u64 = 500_000_000;

/// How long a cleanup may take in all.
pub const CLEANUP_TIMEOUT_NS: u64 = 4_000_000_000;

pub const FIELD_REGISTER: u16 = 0x3a;

pub const TYPE_REGISTER: u16 = 0x72;

pub const CALSW_REGISTER: u16 = 0x01;

#[derive(Clone, Copy, Debug, PartialEq, Eq, Structural)]
pub struct MagneticCursor {
    pub instance_id: u64,
    pub session_id: u64,
    pub sequence: u64,
}

/// Reads one field of a cursor: decimal digits of a number up to the largest
/// positive signed 64-bit one.
pub fn cursor_number(text: &str) -> (r: Result<u64, Error>)
    ensures
        match r {
            Ok(n) => text@.len() > 0 && all_digits(text@) && n == decimal_value(text@) && n
                <= i64::MAX,
            Err(e) => if text@.len() == 0 || !all_digits(text@) {
                e.is_invalid("cursor values must be decimal strings"@)
            } else {
                decimal_value(text@) > i64::MAX && e.is_invalid(
                    "cursor exceeds positive int64 range"@,
                )
            },
        },
{
    match parse_decimal(text, 0x7FFF_FFFF_FFFF_FFFF) {
        Some(n) => Ok(n),
        None => {
            let chars = characters(text);
            let mut i: usize = 0;
            while i < chars.len()
                invariant
                    chars@ == text@,
                    i <= chars@.len(),
                    forall|j: int| 0 <= j < i ==> crate::text::is_digit(#[trigger] text@[j]),
                decreases chars@.len() - i,
            {
                let c = chars[i];
                if c < '0' || c > '9' {
                    assert(!crate::text::is_digit(text@[i as int]));
                    return Err(Error::invalid("cursor values must be decimal strings"));
                }
                i = i + 1;
            }
            if chars.len() == 0 {
                return Err(Error::invalid("cursor values must be decimal strings"));
            }
            Err(Error::invalid("cursor exceeds positive int64 range"))
        },
    }
}

#[derive(Clone, Copy, Debug, PartialEq, Eq, Structural)]
pub enum MagneticPhase {
    Idle,
    Opening,
    Monitoring,
    ExternalCalibration,
    Starting,
    Calibrating,
    Stopping,
    Calibrated,
    Saving,
    Closed,
    Failed,
}

/// Microteslas per count, as a fraction.
#[derive(Clone, Copy, Debug, PartialEq, Eq, Structural)]
pub struct Scale {
    pub numerator: u32,
    pub denominator: u32,
}

/// The vendor's scale of a sensor type. Of another type the unit is not known.
pub open spec fn scale_of(sensor_type: u16) -> Option<Scale> {
    if sensor_type == 2 {
        Some(Scale { numerator: 15, denominator: 100 })
    } else if sensor_type == 3 {
        Some(Scale { numerator: 13, denominator: 1000 })
    } else if sensor_type == 4 {
        Some(Scale { numerator: 58, denominator: 1000 })
    } else if sensor_type == 5 {
        Some(Scale { numerator: 98, denominator: 1000 })
    } else if sensor_type == 6 {
        Some(Scale { numerator: 1, denominator: 120 })
    } else if sensor_type == 7 {
        Some(Scale { numerator: 2, denominator: 100 })
    } else {
        None
    }
}

pub fn scale(sensor_type: u16) -> (r: Option<Scale>)
    ensures
        r == scale_of(sensor_type),
{
    match sensor_type {
        2 => Some(Scale { numerator: 15, denominator: 100 }),
        3 => Some(Scale { numerator: 13, denominator: 1000 }),
        4 => Some(Scale { numerator: 58, denominator: 1000 }),
        5 => Some(Scale { numerator: 98, denominator: 1000 }),
        6 => Some(Scale { numerator: 1, denominator: 120 }),
        7 => Some(Scale { numerator: 2, denominator: 100 }),
        _ => None,
    }
}

#[derive(Clone, Copy, Debug)]
pub struct MagneticSample {
    pub cursor: MagneticCursor,
    pub window_id: u64,
    pub phase: MagneticPhase,
    /// Sensor axes, as the device gives them out.
    pub register_xyz: [i16; 3],
    /// Turns counts into microteslas, where the sensor type is known.
    pub scale: Option<Scale>,
    pub received_ns: u64,
    pub age_ns: u64,
    pub fresh: bool,
}

#[derive(Clone, Copy, Debug)]
pub struct MagneticStatistics {
    pub window_id: u64,
    pub sample_count: u64,
    pub elapsed_ns: u64,
    pub frozen: bool,
    /// Time from the first to the last sample of the window.
    pub span_ns: u64,
    pub minimum_counts: Option<[i16; 3]>,
    pub maximum_counts: Option<[i16; 3]>,
    pub span_counts: Option<[i32; 3]>,
}

/// What a query gives; all ages are at the same moment.
#[derive(Debug)]
pub struct MagneticBatch {
    pub schema: u32,
    pub source_id: String,
    pub instance_id: u64,
    pub session_id: u64,
    pub cursor: Option<MagneticCursor>,
    pub reset: bool,
    pub history_overrun: u64,
    /// Magnetic reception is fresh; this says nothing of poses.
    pub active: bool,
    pub phase: MagneticPhase,
    pub sensor_type: Option<u16>,
    pub scale: Option<Scale>,
    pub type_error: Option<String>,
    pub calsw: Option<u16>,
    pub calsw_age_ns: Option<u64>,
    pub device_may_be_calibrating: bool,
    pub latest: Option<MagneticSample>,
    pub samples: Vec<MagneticSample>,
    pub statistics: MagneticStatistics,
    pub operation: Option<OperationStatus>,
    /// The cleanup at the end of a session, apart from the requested operation.
    pub cleanup: Option<OperationStatus>,
    pub last_error: Option<String>,
}

/// The extent of the field over a run of samples.
#[derive(Clone, Copy, Debug)]
pub struct Window {
    pub id: u64,
    pub count: u64,
    pub first: Option<u64>,
    pub last: Option<u64>,
    pub end: Option<u64>,
    pub minimum: Option<[i16; 3]>,
    pub maximum: Option<[i16; 3]>,
}

pub open spec fn lesser(a: i16, b: i16) -> i16 {
    if b < a {
        b
    } else {
        a
    }
}

pub open spec fn greater(a: i16, b: i16) -> i16 {
    if b > a {
        b
    } else {
        a
    }
}

fn min16(a: i16, b: i16) -> (r: i16)
    ensures
        r == lesser(a, b),
{
    if b < a {
        b
    } else {
        a
    }
}

fn max16(a: i16, b: i16) -> (r: i16)
    ensures
        r == greater(a, b),
{
    if b > a {
        b
    } else {
        a
    }
}

impl Default for Window {
    fn default() -> (r: Window)
        ensures
            is_identifier(r.id),
            r == Window::opened(r.id),
    {
        Window {
            id: new_id(),
            count: 0,
            first: None,
            last: None,
            end: None,
            minimum: None,
            maximum: None,
        }
    }
}

impl Window {
    pub open spec fn opened(id: u64) -> Window {
        Window { id, count: 0, first: None, last: None, end: None, minimum: None, maximum: None }
    }

    /// The window with one more sample; a window that has ended stays as it is.
    pub open spec fn with(self, xyz: [i16; 3], now: u64) -> Window {
        if self.end is Some {
            self
        } else {
            Window {
                count: (self.count + 1) as u64,
                first: if self.first is Some {
                    self.first
                } else {
                    Some(now)
                },
                last: Some(now),
                minimum: Some(
                    match self.minimum {
                        Some(v) => [
                            lesser(v[0], xyz[0]),
                            lesser(v[1], xyz[1]),
                            lesser(v[2], xyz[2]),
                        ],
                        None => xyz,
                    },
                ),
                maximum: Some(
                    match self.maximum {
                        Some(v) => [
                            greater(v[0], xyz[0]),
                            greater(v[1], xyz[1]),
                            greater(v[2], xyz[2]),
                        ],
                        None => xyz,
                    },
                ),
                ..self
            }
        }
    }

    /// The window ended at `now`, unless it has ended before.
    pub open spec fn ended(self, now: u64) -> Window {
        Window {
            end: if self.end is Some {
                self.end
            } else {
                Some(now)
            },
            ..self
        }
    }

    pub open spec fn statistics(self, now: u64) -> MagneticStatistics {
        MagneticStatistics {
            window_id: self.id,
            sample_count: self.count,
            elapsed_ns: match self.first {
                Some(first) => elapsed(
                    first,
                    if self.end is Some {
                        self.end->0
                    } else {
                        now
                    },
                ),
                None => 0,
            },
            frozen: self.end is Some,
            span_ns: match (self.first, self.last) {
                (Some(a), Some(b)) => elapsed(a, b),
                _ => 0,
            },
            minimum_counts: self.minimum,
            maximum_counts: self.maximum,
            span_counts: match (self.minimum, self.maximum) {
                (Some(a), Some(b)) => Some(
                    [(b[0] - a[0]) as i32, (b[1] - a[1]) as i32, (b[2] - a[2]) as i32],
                ),
                _ => None,
            },
        }
    }

    fn observe(&mut self, xyz: [i16; 3], now: u64)
        requires
            old(self).count < u64::MAX,
        ensures
            *final(self) == old(self).with(xyz, now),
    {
        if self.end.is_some() {
            return ;
        }
        self.count = self.count + 1;
        if self.first.is_none() {
            self.first = Some(now);
        }
        self.last = Some(now);
        self.minimum = Some(
            match self.minimum {
                Some(v) => [min16(v[0], xyz[0]), min16(v[1], xyz[1]), min16(v[2], xyz[2])],
                None => xyz,
            },
        );
        self.maximum = Some(
            match self.maximum {
                Some(v) => [max16(v[0], xyz[0]), max16(v[1], xyz[1]), max16(v[2], xyz[2])],
                None => xyz,
            },
        );
    }

    fn finish(&mut self, now: u64)
        ensures
            *final(self) == old(self).ended(now),
    {
        if self.end.is_none() {
            self.end = Some(now);
        }
    }

    pub fn snapshot(&self, now: u64) -> (r: MagneticStatistics)
        ensures
            r == self.statistics(now),
    {
        let elapsed_time: u64 = match self.first {
            Some(first) => elapsed_ns(
                first,
                match self.end {
                    Some(end) => end,
                    None => now,
                },
            ),
            None => 0,
        };
        let span_ns: u64 = match (self.first, self.last) {
            (Some(a), Some(b)) => elapsed_ns(a, b),
            _ => 0,
        };
        let span_counts = match (self.minimum, self.maximum) {
            (Some(a), Some(b)) => Some(
                [
                    b[0] as i32 - a[0] as i32,
                    b[1] as i32 - a[1] as i32,
                    b[2] as i32 - a[2] as i32,
                ],
            ),
            _ => None,
        };
        MagneticStatistics {
            window_id: self.id,
            sample_count: self.count,
            elapsed_ns: elapsed_time,
            frozen: self.end.is_some(),
            span_ns,
            minimum_counts: self.minimum,
            maximum_counts: self.maximum,
            span_counts,
        }
    }
}

/// What an ended window shows no longer depends on further samples or on time.
pub proof fn ended_windows_are_frozen(w: Window, xyz: [i16; 3], at: u64, now: u64, later: u64)
    requires
        w.end is Some,
    ensures
        w.with(xyz, at) == w,
        w.ended(at) == w,
        w.statistics(now) == w.statistics(later),
        w.statistics(now).frozen,
{
}

/// The extent of an open window takes in every sample, and never shrinks.
pub proof fn windows_cover_their_samples(w: Window, xyz: [i16; 3], now: u64, i: int)
    requires
        w.end is None,
        0 <= i < 3,
    ensures
        w.with(xyz, now).minimum matches Some(low) && low[i] <= xyz[i] && (w.minimum matches Some(
            before,
        ) ==> low[i] <= before[i]),
        w.with(xyz, now).maximum matches Some(high) && high[i] >= xyz[i] && (w.maximum matches Some(
            before,
        ) ==> high[i] >= before[i]),
{
}

/// A window that was opened under `id` and has seen samples at some times.
pub open spec fn window_of(id: u64, samples: Seq<[i16; 3]>, times: Seq<u64>) -> Window
    decreases samples.len(),
{
    if samples.len() == 0 {
        Window::opened(id)
    } else {
        window_of(id, samples.drop_last(), times.drop_last()).with(samples.last(), times.last())
    }
}

/// `low` is the least of the samples along an axis, and is one of them.
pub open spec fn is_least(samples: Seq<[i16; 3]>, axis: int, low: i16) -> bool {
    &&& forall|i: int| 0 <= i < samples.len() ==> low <= (#[trigger] samples[i])[axis]
    &&& exists|i: int| 0 <= i < samples.len() && (#[trigger] samples[i])[axis] == low
}

/// `high` is the greatest of the samples along an axis, and is one of them.
pub open spec fn is_greatest(samples: Seq<[i16; 3]>, axis: int, high: i16) -> bool {
    &&& forall|i: int| 0 <= i < samples.len() ==> (#[trigger] samples[i])[axis] <= high
    &&& exists|i: int| 0 <= i < samples.len() && (#[trigger] samples[i])[axis] == high
}

/// An open window counts the samples that it has seen, knows when the first and
/// the last of them came, and has for its extremes the least and the greatest of
/// them along each axis. Without samples it has none.
pub proof fn windows_hold_the_extremes_of_their_samples(
    id: u64,
    samples: Seq<[i16; 3]>,
    times: Seq<u64>,
)
    requires
        samples.len() == times.len(),
        samples.len() <= u64::MAX,
    ensures
        ({
            let w = window_of(id, samples, times);
            &&& w.id == id
            &&& w.count == samples.len()
            &&& w.end is None
            &&& samples.len() == 0 ==> w == Window::opened(id)
            &&& samples.len() > 0 ==> {
                &&& w.first == Some(times[0])
                &&& w.last == Some(times.last())
                &&& w.minimum is Some
                &&& w.maximum is Some
                &&& forall|axis: int|
                    0 <= axis < 3 ==> is_least(samples, axis, #[trigger] w.minimum->0[axis])
                &&& forall|axis: int|
                    0 <= axis < 3 ==> is_greatest(samples, axis, #[trigger] w.maximum->0[axis])
                &&& forall|axis: int|
                    0 <= axis < 3 ==> #[trigger] w.minimum->0[axis] <= w.maximum->0[axis]
            }
        }),
    decreases samples.len(),
{
    if samples.len() > 0 {
        let n = samples.len() as int;
        let front = samples.drop_last();
        let xyz = samples.last();
        windows_hold_the_extremes_of_their_samples(id, front, times.drop_last());
        let before = window_of(id, front, times.drop_last());
        let w = window_of(id, samples, times);
        assert(samples[n - 1] == xyz);
        assert forall|axis: int| 0 <= axis < 3 implies is_least(
            samples,
            axis,
            #[trigger] w.minimum->0[axis],
        ) by {
            let low = w.minimum->0[axis];
            if front.len() == 0 {
                assert(low == xyz[axis]);
            } else {
                let was = before.minimum->0[axis];
                assert(is_least(front, axis, was));
                assert(low == lesser(was, xyz[axis]));
                let i = choose|i: int| 0 <= i < front.len() && (#[trigger] front[i])[axis] == was;
                assert(samples[i] == front[i]);
            }
            assert forall|i: int| 0 <= i < n implies low <= (#[trigger] samples[i])[axis] by {
                if i < n - 1 {
                    assert(front[i] == samples[i]);
                }
            }
            assert(exists|i: int| 0 <= i < n && (#[trigger] samples[i])[axis] == low);
        }
        assert forall|axis: int| 0 <= axis < 3 implies is_greatest(
            samples,
            axis,
            #[trigger] w.maximum->0[axis],
        ) by {
            let high = w.maximum->0[axis];
            if front.len() == 0 {
                assert(high == xyz[axis]);
            } else {
                let was = before.maximum->0[axis];
                assert(is_greatest(front, axis, was));
                assert(high == greater(was, xyz[axis]));
                let i = choose|i: int| 0 <= i < front.len() && (#[trigger] front[i])[axis] == was;
                assert(samples[i] == front[i]);
            }
            assert forall|i: int| 0 <= i < n implies (#[trigger] samples[i])[axis] <= high by {
                if i < n - 1 {
                    assert(front[i] == samples[i]);
                }
            }
            assert(exists|i: int| 0 <= i < n && (#[trigger] samples[i])[axis] == high);
        }
        assert forall|axis: int| 0 <= axis < 3 implies #[trigger] w.minimum->0[axis]
            <= w.maximum->0[axis] by {
            assert(is_least(samples, axis, w.minimum->0[axis]));
            assert(is_greatest(samples, axis, w.maximum->0[axis]));
            assert(samples[n - 1][axis] == xyz[axis]);
        }
    }
}

#[derive(Clone, Copy, Debug)]
pub struct MagneticRecord {
    pub received: u64,
    pub sample: MagneticSample,
}

/// What the replies of a session have shown.
pub struct Readings {
    pub sequence: u64,
    pub phase: MagneticPhase,
    pub calsw: Option<u16>,
    pub calsw_at: Option<u64>,
    pub owned: bool,
    pub records: Seq<MagneticRecord>,
    pub window: Window,
}

/// What samples of a session have in common.
pub struct Identity {
    pub instance_id: u64,
    pub session_id: u64,
    pub scale: Option<Scale>,
}

pub open spec fn pushed(records: Seq<MagneticRecord>, r: MagneticRecord) -> Seq<MagneticRecord> {
    if records.len() >= MAGNETIC_HISTORY_CAPACITY {
        records.skip(1).push(r)
    } else {
        records.push(r)
    }
}

impl Readings {
    /// With one more field sample.
    pub open spec fn with_field(
        self,
        identity: Identity,
        xyz: [i16; 3],
        received: u64,
        start: u64,
    ) -> Readings {
        let sequence = (self.sequence + 1) as u64;
        let window = self.window.with(xyz, received);
        Readings {
            sequence,
            window,
            records: pushed(
                self.records,
                MagneticRecord {
                    received,
                    sample: MagneticSample {
                        cursor: MagneticCursor {
                            instance_id: identity.instance_id,
                            session_id: identity.session_id,
                            sequence,
                        },
                        window_id: window.id,
                        phase: self.phase,
                        register_xyz: xyz,
                        scale: identity.scale,
                        received_ns: elapsed(start, received),
                        age_ns: 0,
                        fresh: true,
                    },
                },
            ),
            ..self
        }
    }

    /// With the calibration switch read. A calibration that someone else runs is
    /// told apart from one of this session, and one of this session that has
    /// ended by itself is over.
    pub open spec fn with_calsw(self, value: u16, now: u64) -> Readings {
        let seen = Readings { calsw: Some(value), calsw_at: Some(now), ..self };
        if value == 7 && (self.phase == MagneticPhase::Monitoring || self.phase
            == MagneticPhase::ExternalCalibration || self.phase == MagneticPhase::Calibrated) {
            Readings { phase: MagneticPhase::ExternalCalibration, ..seen }
        } else if value == 0 && self.phase == MagneticPhase::ExternalCalibration {
            Readings { phase: MagneticPhase::Monitoring, ..seen }
        } else if value == 0 && self.phase == MagneticPhase::Calibrating {
            Readings {
                phase: MagneticPhase::Calibrated,
                owned: false,
                window: self.window.ended(now),
                ..seen
            }
        } else {
            seen
        }
    }

    /// With one frame: field and calibration-switch replies count, others do not.
    pub open spec fn with_frame(
        self,
        identity: Identity,
        frame: Frame,
        at: u64,
        start: u64,
    ) -> Readings {
        match frame {
            Frame::Registers { address, values } => if address == FIELD_REGISTER {
                self.with_field(identity, [values[0], values[1], values[2]], at, start)
            } else if address == CALSW_REGISTER {
                self.with_calsw(unsigned(values[0]), at)
            } else {
                self
            },
            _ => self,
        }
    }

    pub open spec fn with_frames(
        self,
        identity: Identity,
        frames: Seq<Frame>,
        at: u64,
        start: u64,
    ) -> Readings
        decreases frames.len(),
    {
        if frames.len() == 0 {
            self
        } else {
            self.with_frames(identity, frames.drop_last(), at, start).with_frame(
                identity,
                frames.last(),
                at,
                start,
            )
        }
    }
}

/// A sample as it stands at a query.
pub open spec fn at_query(r: MagneticRecord, now: u64, active: bool) -> MagneticSample {
    MagneticSample {
        age_ns: elapsed(r.received, now),
        fresh: active && elapsed(r.received, now) < FRESH_FOR_NS,
        ..r.sample
    }
}

/// The samples after a sequence number, as they stand at a query.
pub open spec fn samples_after(
    records: Seq<MagneticRecord>,
    after: u64,
    now: u64,
    active: bool,
) -> Seq<MagneticSample>
    decreases records.len(),
{
    if records.len() == 0 {
        seq![]
    } else {
        let earlier = samples_after(records.drop_last(), after, now, active);
        if records.last().sample.cursor.sequence > after {
            earlier.push(at_query(records.last(), now, active))
        } else {
            earlier
        }
    }
}

fn query(record: &MagneticRecord, now: u64, active: bool) -> (r: MagneticSample)
    ensures
        r == at_query(*record, now, active),
{
    let mut sample = record.sample;
    sample.age_ns = elapsed_ns(record.received, now);
    sample.fresh = active && sample.age_ns < FRESH_FOR_NS;
    sample
}

/// A magnetic session.
#[derive(Debug)]
pub struct State {
    pub instance_id: u64,
    pub session_id: u64,
    pub sequence: u64,
    pub phase: MagneticPhase,
    pub running: bool,
    pub sensor_type: Option<u16>,
    pub type_error: Option<String>,
    pub calsw: Option<u16>,
    pub calsw_at: Option<u64>,
    /// This session may have started a calibration that has not been seen to
    /// end; set before the start is written.
    pub owned: bool,
    pub records: VecDeque<MagneticRecord>,
    pub window: Window,
    pub cleanup: Option<OperationStatus>,
    pub last_error: Option<String>,
}

impl Default for State {
    fn default() -> (r: State)
        ensures
            r.wf(),
            r.is_idle(),
    {
        State {
            instance_id: 0,
            session_id: 0,
            sequence: 0,
            phase: MagneticPhase::Idle,
            running: false,
            sensor_type: None,
            type_error: None,
            calsw: None,
            calsw_at: None,
            owned: false,
            records: VecDeque::new(),
            window: Window::default(),
            cleanup: None,
            last_error: None,
        }
    }
}

impl State {
    /// The last samples of the session are kept, numbered without a gap.
    pub open spec fn wf(&self) -> bool {
        &&& self.records@.len() == (if self.sequence < MAGNETIC_HISTORY_CAPACITY {
            self.sequence as int
        } else {
            MAGNETIC_HISTORY_CAPACITY as int
        })
        &&& self.window.count <= self.sequence
        &&& forall|i: int|
            0 <= i < self.records@.len() ==> (#[trigger] self.records@[i]).sample.cursor == (
            MagneticCursor {
                instance_id: self.instance_id,
                session_id: self.session_id,
                sequence: (self.sequence - self.records@.len() + 1 + i) as u64,
            })
    }

    /// Nothing has been read in this session.
    pub open spec fn is_initial(&self, instance_id: u64, session_id: u64) -> bool {
        &&& self.instance_id == instance_id
        &&& self.session_id == session_id
        &&& self.sequence == 0
        &&& self.sensor_type is None
        &&& self.type_error is None
        &&& self.calsw is None
        &&& self.calsw_at is None
        &&& !self.owned
        &&& self.records@ == Seq::<MagneticRecord>::empty()
        &&& self.window == Window::opened(self.window.id)
        &&& is_identifier(self.window.id)
        &&& self.cleanup is None
        &&& self.last_error is None
    }

    /// No session is open.
    pub open spec fn is_idle(&self) -> bool {
        self.is_initial(0, 0) && self.phase == MagneticPhase::Idle && !self.running
    }

    pub open spec fn readings(&self) -> Readings {
        Readings {
            sequence: self.sequence,
            phase: self.phase,
            calsw: self.calsw,
            calsw_at: self.calsw_at,
            owned: self.owned,
            records: self.records@,
            window: self.window,
        }
    }

    pub open spec fn identity(&self) -> Identity {
        Identity {
            instance_id: self.instance_id,
            session_id: self.session_id,
            scale: match self.sensor_type {
                Some(t) => scale_of(t),
                None => None,
            },
        }
    }

    /// `other` differs from this state in its readings only.
    pub open spec fn same_session(&self, other: State) -> bool {
        &&& self.instance_id == other.instance_id
        &&& self.session_id == other.session_id
        &&& self.running == other.running
        &&& self.sensor_type == other.sensor_type
        &&& self.type_error == other.type_error
        &&& self.cleanup == other.cleanup
        &&& self.last_error == other.last_error
    }

    /// A session that is being opened.
    pub fn new(instance_id: u64, session_id: u64) -> (r: State)
        ensures
            r.wf(),
            r.is_initial(instance_id, session_id),
            r.phase == MagneticPhase::Opening,
            r.running,
    {
        let mut s = State::default();
        s.instance_id = instance_id;
        s.session_id = session_id;
        s.phase = MagneticPhase::Opening;
        s.running = true;
        s
    }

    pub open spec fn is_ready(&self) -> bool {
        &&& self.running
        &&& self.records@.len() > 0
        &&& self.phase != MagneticPhase::Opening
        &&& self.phase != MagneticPhase::Closed
        &&& self.phase != MagneticPhase::Failed
    }

    /// Whether commands are accepted: samples are coming in.
    pub fn ready(&self) -> (r: bool)
        ensures
            r == self.is_ready(),
    {
        self.running && self.records.len() > 0 && self.phase != MagneticPhase::Opening
            && self.phase != MagneticPhase::Closed && self.phase != MagneticPhase::Failed
    }

    pub fn observe(&mut self, xyz: [i16; 3], received: u64, start: u64)
        requires
            old(self).wf(),
            old(self).sequence < u64::MAX,
        ensures
            final(self).wf(),
            final(self).same_session(*old(self)),
            final(self).readings() == old(self).readings().with_field(
                old(self).identity(),
                xyz,
                received,
                start,
            ),
    {
        let ghost before = self.records@;
        self.sequence = self.sequence + 1;
        self.window.observe(xyz, received);
        let field_scale = match self.sensor_type {
            Some(t) => scale(t),
            None => None,
        };
        let sample = MagneticSample {
            cursor: MagneticCursor {
                instance_id: self.instance_id,
                session_id: self.session_id,
                sequence: self.sequence,
            },
            window_id: self.window.id,
            phase: self.phase,
            register_xyz: xyz,
            scale: field_scale,
            received_ns: elapsed_ns(start, received),
            age_ns: 0,
            fresh: true,
        };
        if self.records.len() == MAGNETIC_HISTORY_CAPACITY {
            self.records.pop_front();
        }
        self.records.push_back(MagneticRecord { received, sample });
        assert(self.records@ =~= pushed(before, MagneticRecord { received, sample }));
        assert forall|i: int| 0 <= i < self.records@.len() implies (
        #[trigger] self.records@[i]).sample.cursor == (MagneticCursor {
            instance_id: self.instance_id,
            session_id: self.session_id,
            sequence: (self.sequence - self.records@.len() + 1 + i) as u64,
        }) by {
            if i < self.records@.len() - 1 {
                if before.len() >= MAGNETIC_HISTORY_CAPACITY {
                    assert(self.records@[i] == before[i + 1]);
                } else {
                    assert(self.records@[i] == before[i]);
                }
            }
        }
    }

    pub fn observe_calsw(&mut self, value: u16, now: u64)
        requires
            old(self).wf(),
        ensures
            final(self).wf(),
            final(self).same_session(*old(self)),
            final(self).readings() == old(self).readings().with_calsw(value, now),
    {
        self.calsw = Some(value);
        self.calsw_at = Some(now);
        match self.phase {
            MagneticPhase::Monitoring
            | MagneticPhase::ExternalCalibration
            | MagneticPhase::Calibrated => {
                if value == 7 {
                    self.phase = MagneticPhase::ExternalCalibration;
                } else if value == 0 && self.phase == MagneticPhase::ExternalCalibration {
                    self.phase = MagneticPhase::Monitoring;
                }
            },
            MagneticPhase::Calibrating => {
                if value == 0 {
                    self.phase = MagneticPhase::Calibrated;
                    self.owned = false;
                    self.window.finish(now);
                }
            },
            _ => {},
        }
    }

    /// Takes in the frames of one read.
    pub fn observe_frames(&mut self, frames: &Vec<Frame>, at: u64, start: u64)
        requires
            old(self).wf(),
            old(self).sequence + frames@.len() <= u64::MAX,
        ensures
            final(self).wf(),
            final(self).same_session(*old(self)),
            final(self).readings() == old(self).readings().with_frames(
                old(self).identity(),
                frames@,
                at,
                start,
            ),
    {
        let ghost begin = *self;
        let mut i: usize = 0;
        while i < frames.len()
            invariant
                i <= frames@.len(),
                begin == *old(self),
                self.wf(),
                self.same_session(begin),
                begin.sequence + frames@.len() <= u64::MAX,
                self.sequence <= begin.sequence + i,
                self.readings() == begin.readings().with_frames(
                    begin.identity(),
                    frames@.take(i as int),
                    at,
                    start,
                ),
            decreases frames@.len() - i,
        {
            assert(frames@.take(i + 1).drop_last() =~= frames@.take(i as int));
            assert(frames@.take(i + 1).last() == frames@[i as int]);
            if let Frame::Registers { address, values } = &frames[i] {
                if *address == FIELD_REGISTER {
                    self.observe([values[0], values[1], values[2]], at, start);
                } else if *address == CALSW_REGISTER {
                    self.observe_calsw(to_unsigned(values[0]), at);
                }
            }
            i = i + 1;
        }
        assert(frames@.take(i as int) =~= frames@);
    }

    /// Ends the session, for an error or without one.
    pub fn finish(&mut self, error: Option<String>, now: u64)
        requires
            old(self).wf(),
        ensures
            final(self).wf(),
            final(self).records@ == old(self).records@,
            *final(self) == (State {
                running: false,
                window: old(self).window.ended(now),
                phase: if error is Some {
                    MagneticPhase::Failed
                } else {
                    MagneticPhase::Closed
                },
                last_error: error,
                ..*old(self)
            }),
    {
        self.running = false;
        self.window.finish(now);
        self.phase = if error.is_some() {
            MagneticPhase::Failed
        } else {
            MagneticPhase::Closed
        };
        self.last_error = error;
    }

    /// The sensor's type was read: its scale, or that there is none.
    pub fn observe_type(&mut self, sensor_type: u16)
        requires
            old(self).wf(),
        ensures
            final(self).wf(),
            *final(self) == (State {
                sensor_type: Some(sensor_type),
                type_error: final(self).type_error,
                ..*old(self)
            }),
            if scale_of(sensor_type) is None {
                final(self).type_error matches Some(m) && m@ == "unknown magnetic sensor type "@
                    + decimal(sensor_type as nat) + "; units unavailable"@
            } else {
                final(self).type_error == old(self).type_error
            },
    {
        self.sensor_type = Some(sensor_type);
        if scale(sensor_type).is_none() {
            let mut s = "unknown magnetic sensor type ".to_string();
            s.append(decimal_text(sensor_type as u64).as_str());
            s.append("; units unavailable");
            self.type_error = Some(s);
        }
    }

    /// Whether a cursor belongs to another session, or lies ahead of this one.
    pub open spec fn is_reset(&self, cursor: Option<MagneticCursor>) -> bool {
        cursor matches Some(c) && (c.instance_id != self.instance_id || c.session_id
            != self.session_id || c.sequence > self.sequence)
    }

    pub open spec fn read_after(&self, cursor: Option<MagneticCursor>) -> u64 {
        if cursor is None || self.is_reset(cursor) {
            0
        } else {
            cursor->0.sequence
        }
    }

    pub open spec fn overrun(&self, cursor: Option<MagneticCursor>) -> u64 {
        if cursor is Some && !self.is_reset(cursor) && self.records@.len() > 0 {
            let first = self.records@[0].sample.cursor.sequence;
            let after = self.read_after(cursor);
            if first > after + 1 {
                (first - after - 1) as u64
            } else {
                0
            }
        } else {
            0
        }
    }

    pub open spec fn is_active(&self, now: u64) -> bool {
        &&& self.running
        &&& self.last_error is None
        &&& self.records@.len() > 0
        &&& elapsed(self.records@.last().received, now) < FRESH_FOR_NS
    }

    /// What a query gives.
    pub open spec fn gives(
        self,
        cursor: Option<MagneticCursor>,
        source_id: String,
        operation: Option<OperationStatus>,
        now: u64,
        r: MagneticBatch,
    ) -> bool {
        &&& r.schema == 1
        &&& r.source_id == source_id
        &&& r.instance_id == self.instance_id
        &&& r.session_id == self.session_id
        &&& r.cursor == (if self.records@.len() == 0 {
            None
        } else {
            Some(self.records@.last().sample.cursor)
        })
        &&& r.reset == self.is_reset(cursor)
        &&& r.history_overrun == self.overrun(cursor)
        &&& r.active == self.is_active(now)
        &&& r.phase == self.phase
        &&& r.sensor_type == self.sensor_type
        &&& r.scale == self.identity().scale
        &&& r.type_error == self.type_error
        &&& r.calsw == self.calsw
        &&& r.calsw_age_ns == (match self.calsw_at {
            Some(t) => Some(elapsed(t, now)),
            None => None,
        })
        &&& r.device_may_be_calibrating == (self.owned || self.calsw == Some(7u16))
        &&& r.latest == (if self.records@.len() == 0 {
            None
        } else {
            Some(at_query(self.records@.last(), now, self.is_active(now)))
        })
        &&& r.samples@ == samples_after(
            self.records@,
            self.read_after(cursor),
            now,
            self.is_active(now),
        )
        &&& r.statistics == self.window.statistics(now)
        &&& r.operation == operation
        &&& r.cleanup == self.cleanup
        &&& r.last_error == self.last_error
    }

    /// The samples after a cursor and the state of the session. Nothing is
    /// taken out.
    pub fn since(
        &self,
        cursor: Option<MagneticCursor>,
        source_id: String,
        operation: Option<OperationStatus>,
        now: u64,
    ) -> (r: MagneticBatch)
        ensures
            self.gives(cursor, source_id, operation, now, r),
    {
        let n: usize = self.records.len();
        let reset = match cursor {
            Some(c) => c.instance_id != self.instance_id || c.session_id != self.session_id
                || c.sequence > self.sequence,
            None => false,
        };
        let after: u64 = match cursor {
            Some(c) => if reset {
                0
            } else {
                c.sequence
            },
            None => 0,
        };
        let active = self.running && self.last_error.is_none() && n > 0 && elapsed_ns(
            self.records[n - 1].received,
            now,
        ) < FRESH_FOR_NS;
        let mut history_overrun: u64 = 0;
        if cursor.is_some() && !reset && n > 0 {
            let first: u64 = self.records[0].sample.cursor.sequence;
            if first > after {
                history_overrun = first - after - 1;
            }
        }
        let mut samples: Vec<MagneticSample> = Vec::new();
        let mut i: usize = 0;
        while i < n
            invariant
                i <= n,
                n == self.records@.len(),
                samples@ == samples_after(self.records@.take(i as int), after, now, active),
            decreases n - i,
        {
            assert(self.records@.take(i + 1).drop_last() =~= self.records@.take(i as int));
            let record = &self.records[i];
            if record.sample.cursor.sequence > after {
                samples.push(query(record, now, active));
            }
            i = i + 1;
        }
        assert(self.records@.take(i as int) =~= self.records@);
        let calsw_age_ns = match self.calsw_at {
            Some(t) => Some(elapsed_ns(t, now)),
            None => None,
        };
        let field_scale = match self.sensor_type {
            Some(t) => scale(t),
            None => None,
        };
        let calibrating = self.owned || match self.calsw {
            Some(v) => v == 7,
            None => false,
        };
        MagneticBatch {
            schema: 1,
            source_id,
            instance_id: self.instance_id,
            session_id: self.session_id,
            cursor: if n == 0 {
                None
            } else {
                Some(self.records[n - 1].sample.cursor)
            },
            reset,
            history_overrun,
            active,
            phase: self.phase,
            sensor_type: self.sensor_type,
            scale: field_scale,
            type_error: copy_text(&self.type_error),
            calsw: self.calsw,
            calsw_age_ns,
            device_may_be_calibrating: calibrating,
            latest: if n == 0 {
                None
            } else {
                Some(query(&self.records[n - 1], now, active))
            },
            samples,
            statistics: self.window.snapshot(now),
            operation,
            cleanup: copy_operation(&self.cleanup),
            last_error: copy_text(&self.last_error),
        }
    }
}

proof fn lemma_samples_after_len(
    records: Seq<MagneticRecord>,
    first: int,
    after: u64,
    now: u64,
    active: bool,
)
    requires
        forall|i: int|
            0 <= i < records.len() ==> (#[trigger] records[i]).sample.cursor.sequence == first + i,
    ensures
        samples_after(records, after, now, active).len() == (if after < first {
            records.len() as int
        } else if after >= first + records.len() {
            0
        } else {
            first + records.len() - 1 - after
        }),
    decreases records.len(),
{
    if records.len() > 0 {
        assert(forall|i: int|
            0 <= i < records.len() - 1 ==> (#[trigger] records.drop_last()[i]) == records[i]);
        assert(records.last() == records[records.len() - 1]);
        lemma_samples_after_len(records.drop_last(), first, after, now, active);
    }
}

/// No sample is lost in silence: of the samples after a cursor, those that are
/// not returned are counted as overrun.
pub proof fn every_sample_is_returned_or_counted(s: State, cursor: MagneticCursor, now: u64)
    requires
        s.wf(),
        !s.is_reset(Some(cursor)),
    ensures
        samples_after(s.records@, cursor.sequence, now, s.is_active(now)).len() + s.overrun(
            Some(cursor),
        ) == s.sequence - cursor.sequence,
{
    let n = s.records@.len() as int;
    lemma_samples_after_len(
        s.records@,
        s.sequence - n + 1,
        cursor.sequence,
        now,
        s.is_active(now),
    );
}

/// Whether a register request is sent again when no reply comes. A field
/// request stays the only one on its way.
pub fn retries(address: u16) -> (r: bool)
    ensures
        r == (address != FIELD_REGISTER),
{
    address != FIELD_REGISTER
}

/// When the request for a magnetic register is sent, sent again, and given up.
pub fn read_schedule(address: u16, began: u64) -> (r: ReadSchedule)
    ensures
        r == (ReadSchedule { began, resends: address != FIELD_REGISTER, sent: None }),
{
    ReadSchedule::new(began, retries(address))
}

/// How an expected word is shown.
pub open spec fn expected_text(expected: Option<u16>) -> Seq<char> {
    match expected {
        Some(v) => "Some("@ + decimal(v as nat) + ")"@,
        None => "None"@,
    }
}

/// How a register is reported that did not show a word in time.
pub open spec fn unread_text(address: u16, expected: Option<u16>) -> Seq<char> {
    "magnetic register 0x"@ + hex(address as nat, 2) + ", expected "@ + expected_text(expected)
}

/// The error for a magnetic register that could not be read in time.
pub fn read_timed_out(address: u16, expected: Option<u16>) -> (r: Error)
    ensures
        r.is_timeout(unread_text(address, expected)),
{
    let mut s = "magnetic register 0x".to_string();
    s.append(hex_text(address, 2).as_str());
    s.append(", expected ");
    match expected {
        Some(v) => {
            let mut e = "Some(".to_string();
            e.append(decimal_text(v as u64).as_str());
            e.append(")");
            s.append(e.as_str());
        },
        None => {
            s.append("None");
        },
    }
    Error::Timeout(s)
}

/// What a magnetic command records as it goes.
#[derive(Clone, Copy, Debug, PartialEq, Eq, Structural)]
pub enum Mark {
    /// The command's phase is entered.
    Enter,
    /// Its write is about to be sent.
    Announce,
    Sent,
    Saved,
    Verified,
}

/// One step of a magnetic command.
#[derive(Clone, Copy, Debug)]
pub enum Step {
    /// Read the calibration switch and stop unless it allows the command.
    Gate,
    /// Read the field once.
    Field,
    Mark { mark: Mark },
    Write { bytes: [u8; 5] },
    Delay { millis: u64 },
    /// Read the calibration switch until it shows `value`.
    Expect { value: u16 },
    Finish,
}

/// The commands of a magnetic session.
pub open spec fn is_magnetic(command: DeviceCommand) -> bool {
    command is MagStart || command is MagStop || command is Save
}

pub fn is_magnetic_command(command: &DeviceCommand) -> (r: bool)
    ensures
        r == is_magnetic(*command),
{
    matches!(command, DeviceCommand::MagStart | DeviceCommand::MagStop | DeviceCommand::Save)
}

/// What the calibration switch must show before a command is written.
pub open spec fn allowed(command: DeviceCommand, calsw: u16) -> bool {
    if command is MagStop {
        calsw == 0 || calsw == 7
    } else {
        calsw == 0
    }
}

/// Everything that a magnetic command takes, in order. The field is read
/// before a calibration starts: a reply shows that samples will come.
pub open spec fn steps(command: DeviceCommand) -> Seq<Step> {
    let (address, value) = register_of(command)->0;
    let gate = if command is MagStart {
        seq![Step::Gate, Step::Field]
    } else {
        seq![Step::Gate]
    };
    let writing = seq![
        Step::Mark { mark: Mark::Enter },
        Step::Write { bytes: UNLOCK },
        Step::Delay { millis: 200 },
        Step::Mark { mark: Mark::Announce },
        Step::Write { bytes: write_bytes(address, value) },
        Step::Mark { mark: Mark::Sent },
    ];
    let after = if command is Save {
        seq![Step::Mark { mark: Mark::Saved }, Step::Finish]
    } else {
        seq![
            Step::Delay { millis: 100 },
            Step::Expect { value },
            Step::Mark { mark: Mark::Verified },
            Step::Finish,
        ]
    };
    gate + writing + after
}

/// What is to be done next.
#[derive(Debug)]
pub enum Task {
    Read { address: u16, expected: Option<u16> },
    Write { bytes: [u8; 5] },
    Delay { millis: u64 },
    Mark { mark: Mark },
    Finish,
    Fail { error: Error },
}

/// How the last task went.
#[derive(Debug)]
pub enum Answer {
    Done,
    Registers { words: [u16; 8] },
    Failed { error: Error },
}

pub open spec fn task_for(step: Step) -> Task {
    match step {
        Step::Gate => Task::Read { address: CALSW_REGISTER, expected: None },
        Step::Field => Task::Read { address: FIELD_REGISTER, expected: None },
        Step::Mark { mark } => Task::Mark { mark },
        Step::Write { bytes } => Task::Write { bytes },
        Step::Delay { millis } => Task::Delay { millis },
        Step::Expect { value } => Task::Read { address: CALSW_REGISTER, expected: Some(value) },
        Step::Finish => Task::Finish,
    }
}

/// A magnetic command on its way.
#[derive(Debug)]
pub struct Execution {
    pub command: DeviceCommand,
    pub steps: Vec<Step>,
    pub index: usize,
}

impl Execution {
    pub open spec fn wf(&self) -> bool {
        &&& is_magnetic(self.command)
        &&& self.steps@ == steps(self.command)
        &&& self.index <= self.steps@.len()
    }

    /// Whether an answer carries the command on to its next step.
    pub open spec fn proceeds(&self, answer: Answer) -> bool {
        &&& self.index < self.steps@.len() - 1
        &&& match (self.steps@[self.index as int], answer) {
            (Step::Gate, Answer::Registers { words }) => allowed(self.command, words[0]),
            (Step::Field, Answer::Registers { .. }) => true,
            (Step::Expect { value }, Answer::Registers { words }) => words[0] == value,
            (Step::Mark { .. }, Answer::Done) => true,
            (Step::Write { .. }, Answer::Done) => true,
            (Step::Delay { .. }, Answer::Done) => true,
            _ => false,
        }
    }

    pub open spec fn refusal(&self, answer: Answer, e: Error) -> bool {
        match answer {
            Answer::Failed { error } => e == error,
            Answer::Registers { words } => if self.index < self.steps@.len()
                && self.steps@[self.index as int] is Gate {
                e.is_invalid(
                    "magnetic command not allowed with CALSW="@ + decimal(words[0] as nat),
                )
            } else if self.index < self.steps@.len() && self.steps@[self.index as int] is Expect {
                e.is_timeout(
                    unread_text(
                        CALSW_REGISTER,
                        Some(self.steps@[self.index as int]->Expect_value),
                    ),
                )
            } else {
                e matches Error::Internal(m) && m@ == "unexpected magnetic reply"@
            },
            _ => e matches Error::Internal(m) && m@ == "unexpected magnetic reply"@,
        }
    }

    pub fn new(command: DeviceCommand) -> (r: Execution)
        requires
            is_magnetic(command),
        ensures
            r.wf(),
            r.command == command,
            r.index == 0,
    {
        let mut list: Vec<Step> = Vec::new();
        list.push(Step::Gate);
        if matches!(command, DeviceCommand::MagStart) {
            list.push(Step::Field);
        }
        let (address, value): (u8, u16) = match command {
            DeviceCommand::MagStart => (0x01, 0x07),
            DeviceCommand::MagStop => (0x01, 0x00),
            _ => (0x00, 0x00),
        };
        list.push(Step::Mark { mark: Mark::Enter });
        list.push(Step::Write { bytes: UNLOCK });
        list.push(Step::Delay { millis: 200 });
        list.push(Step::Mark { mark: Mark::Announce });
        list.push(Step::Write { bytes: write_register(address, value) });
        list.push(Step::Mark { mark: Mark::Sent });
        if matches!(command, DeviceCommand::Save) {
            list.push(Step::Mark { mark: Mark::Saved });
        } else {
            list.push(Step::Delay { millis: 100 });
            list.push(Step::Expect { value });
            list.push(Step::Mark { mark: Mark::Verified });
        }
        list.push(Step::Finish);
        assert(list@ =~= steps(command));
        Execution { command, steps: list, index: 0 }
    }

    /// What to do first.
    pub fn start(&self) -> (r: Task)
        requires
            self.wf(),
            self.index < self.steps@.len(),
        ensures
            r == task_for(self.steps@[self.index as int]),
    {
        self.current()
    }

    fn current(&self) -> (r: Task)
        requires
            self.index < self.steps@.len(),
        ensures
            r == task_for(self.steps@[self.index as int]),
    {
        match self.steps[self.index] {
            Step::Gate => Task::Read { address: CALSW_REGISTER, expected: None },
            Step::Field => Task::Read { address: FIELD_REGISTER, expected: None },
            Step::Mark { mark } => Task::Mark { mark },
            Step::Write { bytes } => Task::Write { bytes },
            Step::Delay { millis } => Task::Delay { millis },
            Step::Expect { value } => Task::Read { address: CALSW_REGISTER, expected: Some(value) },
            Step::Finish => Task::Finish,
        }
    }

    /// Takes how the last task went and says what to do next.
    pub fn step(&mut self, answer: Answer) -> (r: Task)
        requires
            old(self).wf(),
        ensures
            final(self).wf(),
            final(self).command == old(self).command,
            if old(self).proceeds(answer) {
                &&& final(self).index == old(self).index + 1
                &&& r == task_for(steps(old(self).command)[old(self).index + 1])
            } else {
                &&& final(self).index == final(self).steps@.len()
                &&& r matches Task::Fail { error } && old(self).refusal(answer, error)
            },
    {
        let n: usize = self.steps.len();
        if self.index >= n {
            return match answer {
                Answer::Failed { error } => Task::Fail { error },
                _ => Task::Fail { error: Error::Internal("unexpected magnetic reply".to_string()) },
            };
        }
        let current = self.steps[self.index];
        match (current, answer) {
            (_, Answer::Failed { error }) => {
                self.index = n;
                return Task::Fail { error };
            },
            (Step::Gate, Answer::Registers { words }) => {
                let calsw: u16 = words[0];
                let ok = calsw == 0 || (calsw == 7 && matches!(
                    self.command,
                    DeviceCommand::MagStop
                ));
                if !ok {
                    let mut s = "magnetic command not allowed with CALSW=".to_string();
                    s.append(decimal_text(calsw as u64).as_str());
                    self.index = n;
                    return Task::Fail { error: Error::Invalid(s) };
                }
            },
            (Step::Field, Answer::Registers { .. }) => {},
            (Step::Expect { value }, Answer::Registers { words }) => {
                if words[0] != value {
                    self.index = n;
                    return Task::Fail { error: read_timed_out(CALSW_REGISTER, Some(value)) };
                }
            },
            (Step::Mark { .. }, Answer::Done) => {},
            (Step::Write { .. }, Answer::Done) => {},
            (Step::Delay { .. }, Answer::Done) => {},
            (_, _) => {
                self.index = n;
                return Task::Fail {
                    error: Error::Internal("unexpected magnetic reply".to_string()),
                };
            },
        }
        proof {
            lemma_only_last_finishes(self.command, self.index as int);
        }
        self.index = self.index + 1;
        self.current()
    }
}

proof fn lemma_only_last_finishes(command: DeviceCommand, i: int)
    requires
        is_magnetic(command),
        0 <= i < steps(command).len(),
        !(steps(command)[i] is Finish),
    ensures
        i < steps(command).len() - 1,
{
    assert(steps(command).last() is Finish);
}

/// A magnetic command writes nothing until the calibration switch has been
/// read and allows it; it writes unlock and its own register once each, and no
/// SAVE unless it is one; its write is marked before it is sent.
pub proof fn magnetic_writes_are_gated(command: DeviceCommand, i: int)
    requires
        is_magnetic(command),
        0 <= i < steps(command).len(),
        steps(command)[i] is Write,
    ensures
        steps(command)[0] is Gate,
        i > 0,
        ({
            let (address, value) = register_of(command)->0;
            let bytes = steps(command)[i]->Write_bytes;
            let unlock = if command is MagStart {
                3int
            } else {
                2int
            };
            ||| i == unlock && bytes == UNLOCK
            ||| i == unlock + 3 && bytes == write_bytes(address, value) && steps(command)[i - 1] == (
            Step::Mark { mark: Mark::Announce })
        }),
{
}

/// A command is marked as verified only right after the calibration switch was
/// read and showed the value that the command has written.
pub proof fn verified_only_if_read_back(e: Execution, answer: Answer)
    requires
        e.wf(),
        e.proceeds(answer),
        e.steps@[e.index + 1] == (Step::Mark { mark: Mark::Verified }),
    ensures
        !(e.command is Save),
        task_for(e.steps@[e.index as int]) == (Task::Read {
            address: CALSW_REGISTER,
            expected: Some((register_of(e.command)->0).1),
        }),
        answer matches Answer::Registers { words } && words[0] == (register_of(e.command)->0).1,
{
}

/// The vendor's microteslas per count of sensor types 2 to 7, as fractions.
pub open spec fn vendor_scales() -> Seq<(int, int)> {
    seq![
        (15int, 100int),
        (13int, 1000int),
        (58int, 1000int),
        (98int, 1000int),
        (1int, 120int),
        (2int, 100int),
    ]
}

/// A sensor type from 2 to 7 has the scale that the vendor lists, in value, and
/// any other has none: its unit is not made up.
pub proof fn scales_are_the_vendors(sensor_type: u16)
    ensures
        2 <= sensor_type <= 7 ==> (scale_of(sensor_type) matches Some(s) && s.denominator > 0
            && s.numerator * vendor_scales()[sensor_type - 2].1 == s.denominator
            * vendor_scales()[sensor_type - 2].0),
        sensor_type < 2 || sensor_type > 7 ==> scale_of(sensor_type) is None,
{
    let v = vendor_scales();
    assert(v[0] == (15int, 100int) && v[1] == (13int, 1000int) && v[2] == (58int, 1000int) && v[3]
        == (98int, 1000int) && v[4] == (1int, 120int) && v[5] == (2int, 100int));
}

/// A query changes nothing of a sample but its age, which is the time since it
/// was received, and whether it is fresh: samples come in, and it is younger than
/// half a second.
pub proof fn queries_change_age_and_freshness_only(r: MagneticRecord, now: u64, active: bool)
    requires
        r.received <= now,
        now - r.received < 0x8000_0000_0000_0000,
    ensures
        ({
            let s = at_query(r, now, active);
            &&& s.age_ns == now - r.received
            &&& s.fresh <==> active && now - r.received < 500_000_000
            &&& s == (MagneticSample { age_ns: s.age_ns, fresh: s.fresh, ..r.sample })
        }),
{
}

/// A session is active while it runs without an error and its last sample is
/// younger than half a second.
pub proof fn sessions_are_active_while_samples_come_in(s: State, now: u64)
    requires
        s.records@.len() > 0,
        s.records@.last().received <= now,
        now - s.records@.last().received < 0x8000_0000_0000_0000,
    ensures
        s.is_active(now) <==> s.running && s.last_error is None && now
            - s.records@.last().received < 500_000_000,
{
}

proof fn lemma_later_samples(
    records: Seq<MagneticRecord>,
    first: int,
    after: u64,
    now: u64,
    active: bool,
)
    requires
        forall|i: int|
            0 <= i < records.len() ==> (#[trigger] records[i]).sample.cursor.sequence == first + i,
        first >= 1,
    ensures
        ({
            let s = samples_after(records, after, now, active);
            let skipped = if after < first {
                0
            } else if after >= first + records.len() {
                records.len() as int
            } else {
                after - first + 1
            };
            &&& s.len() == records.len() - skipped
            &&& forall|i: int|
                0 <= i < s.len() ==> #[trigger] s[i] == at_query(records[skipped + i], now, active)
        }),
    decreases records.len(),
{
    lemma_samples_after_len(records, first, after, now, active);
    if records.len() > 0 {
        let front = records.drop_last();
        assert forall|i: int| 0 <= i < front.len() implies (
        #[trigger] front[i]).sample.cursor.sequence == first + i by {
            assert(front[i] == records[i]);
        }
        lemma_samples_after_len(front, first, after, now, active);
        lemma_later_samples(front, first, after, now, active);
        assert(records.last() == records[records.len() - 1]);
    }
}

/// Without a cursor, and with one of another session or ahead of this one, all
/// samples on record are returned, in order. Any other cursor gets the samples
/// that follow it, in order and without a gap but for those that are counted as
/// overrun.
pub proof fn cursors_get_what_follows_them(s: State, cursor: Option<MagneticCursor>, now: u64)
    requires
        s.wf(),
    ensures
        ({
            let given = samples_after(s.records@, s.read_after(cursor), now, s.is_active(now));
            let n = s.records@.len();
            let known = cursor matches Some(c) && c.instance_id == s.instance_id && c.session_id
                == s.session_id && c.sequence <= s.sequence;
            &&& s.is_reset(cursor) <==> cursor is Some && !known
            &&& !known ==> given.len() == n && s.overrun(cursor) == 0
            &&& known ==> given.len() + s.overrun(cursor) == s.sequence - cursor->0.sequence
            &&& known && given.len() > 0 ==> given[0].cursor.sequence == cursor->0.sequence + 1
                + s.overrun(cursor)
            &&& forall|i: int|
                0 <= i < given.len() ==> #[trigger] given[i] == at_query(
                    s.records@[n - given.len() + i],
                    now,
                    s.is_active(now),
                )
        }),
{
    let n = s.records@.len() as int;
    let after = s.read_after(cursor);
    assert forall|i: int| 0 <= i < n implies (#[trigger] s.records@[i]).sample.cursor.sequence
        == s.sequence - n + 1 + i by {}
    lemma_later_samples(s.records@, s.sequence - n + 1, after, now, s.is_active(now));
    if n > 0 {
        assert(s.records@[0].sample.cursor.sequence == s.sequence - n + 1);
    }
}

/// A field reply is recorded as it was read: x, y and z in order, numbered next,
/// under the present phase and window, and the last 256 are kept.
pub proof fn field_replies_are_recorded(
    r: Readings,
    identity: Identity,
    values: [i16; 8],
    at: u64,
    start: u64,
)
    requires
        r.sequence < u64::MAX,
        r.records.len() <= 256,
        start <= at,
        at - start < 0x8000_0000_0000_0000,
    ensures
        ({
            let q = r.with_frame(
                identity,
                Frame::Registers { address: 0x3a, values },
                at,
                start,
            );
            let last = q.records.last();
            let n = r.records.len();
            &&& q.sequence == r.sequence + 1
            &&& last.received == at
            &&& last.sample.register_xyz[0] == values[0]
            &&& last.sample.register_xyz[1] == values[1]
            &&& last.sample.register_xyz[2] == values[2]
            &&& last.sample.received_ns == at - start
            &&& last.sample.cursor == (MagneticCursor {
                instance_id: identity.instance_id,
                session_id: identity.session_id,
                sequence: q.sequence,
            })
            &&& last.sample.phase == r.phase
            &&& last.sample.window_id == r.window.id
            &&& last.sample.scale == identity.scale
            &&& q.records.len() == (if n == 256 {
                256
            } else {
                n + 1
            })
            &&& forall|i: int|
                0 <= i < q.records.len() - 1 ==> #[trigger] q.records[i] == r.records[n
                    - q.records.len() + 1 + i]
            &&& q.phase == r.phase && q.owned == r.owned && q.calsw == r.calsw
        }),
{
}

/// A reply from any other register than the field's and the calibration switch
/// changes nothing, nor does any other frame.
pub proof fn other_frames_change_nothing(
    r: Readings,
    identity: Identity,
    frame: Frame,
    at: u64,
    start: u64,
)
    requires
        !(frame matches Frame::Registers { address, .. } && (address == 0x3a || address == 0x01)),
    ensures
        r.with_frame(identity, frame, at, start) == r,
{
}

/// A calibration switch that reads 7 while this session is not calibrating shows
/// a calibration of somebody else; one that then reads 0 shows its end. One that
/// reads 0 while this session calibrates shows the end of its own, and ends the
/// window. No reading gives this session a calibration, or ends another's phase.
pub proof fn switch_readings_tell_whose_calibration_it_is(
    r: Readings,
    identity: Identity,
    values: [i16; 8],
    at: u64,
    start: u64,
)
    ensures
        ({
            let q = r.with_frame(
                identity,
                Frame::Registers { address: 0x01, values },
                at,
                start,
            );
            let idle = values[0] == 0;
            let magnetic = values[0] == 7;
            let watching = r.phase == MagneticPhase::Monitoring || r.phase
                == MagneticPhase::ExternalCalibration || r.phase == MagneticPhase::Calibrated;
            &&& q.calsw == Some(unsigned(values[0])) && q.calsw_at == Some(at)
            &&& q.records == r.records && q.sequence == r.sequence
            &&& magnetic && watching ==> q.phase == MagneticPhase::ExternalCalibration
            &&& idle && r.phase == MagneticPhase::ExternalCalibration ==> q.phase
                == MagneticPhase::Monitoring
            &&& idle && r.phase == MagneticPhase::Calibrating ==> {
                &&& q.phase == MagneticPhase::Calibrated
                &&& !q.owned
                &&& q.window.end is Some
            }
            &&& !(magnetic && watching) && !(idle && (r.phase == MagneticPhase::ExternalCalibration
                || r.phase == MagneticPhase::Calibrating)) ==> q.phase == r.phase && q.owned
                == r.owned && q.window == r.window
            &&& q.owned ==> r.owned
        }),
{
}

/// Starting and saving need an idle switch; stopping needs one that is idle or
/// shows a magnetic calibration, so that no other calibration is ended.
pub proof fn commands_need_their_switch(command: DeviceCommand, calsw: u16)
    requires
        is_magnetic(command),
    ensures
        allowed(command, calsw) <==> calsw == 0 || (calsw == 7 && command is MagStop),
        is_magnetic(command) <==> command is MagStart || command is MagStop || command is Save,
{
}

/// A magnetic command waits 200 ms after its unlock, and 100 ms after its write
/// before the switch is read back; saving is not read back.
pub proof fn magnetic_writes_are_followed_by_their_pauses(command: DeviceCommand, i: int)
    requires
        is_magnetic(command),
        0 <= i < steps(command).len() - 2,
        steps(command)[i] is Write,
    ensures
        ({
            let bytes = steps(command)[i]->Write_bytes;
            &&& bytes == UNLOCK ==> steps(command)[i + 1] == (Step::Delay { millis: 200 })
            &&& bytes != UNLOCK ==> steps(command)[i + 1] == (Step::Mark { mark: Mark::Sent })
            &&& bytes != UNLOCK && command is Save ==> steps(command)[i + 2] == (Step::Mark {
                mark: Mark::Saved,
            })
            &&& bytes != UNLOCK && !(command is Save) ==> steps(command)[i + 2] == (Step::Delay {
                millis: 100,
            })
        }),
{
    let (address, value) = register_of(command)->0;
    assert(write_bytes(address, value)[2] == address);
    assert(UNLOCK[2] == 0x69);
}

/// Commands are taken while a session runs and has had a sample, and is neither
/// opening nor over.
pub proof fn sessions_are_ready_with_their_first_sample(s: State)
    ensures
        s.is_ready() <==> s.running && s.records@.len() > 0 && !(s.phase == MagneticPhase::Opening
            || s.phase == MagneticPhase::Closed || s.phase == MagneticPhase::Failed),
{
}

/// A window tells how long it has been open since its first sample, up to its
/// end, and how far its samples are apart.
pub proof fn windows_tell_their_time_and_extent(w: Window, now: u64, k: int)
    requires
        0 <= k < 3,
    ensures
        ({
            let t = w.statistics(now);
            &&& t.sample_count == w.count
            &&& t.window_id == w.id
            &&& t.frozen <==> w.end is Some
            &&& w.first is None ==> t.elapsed_ns == 0
            &&& w.first is Some && w.end is None && w.first->0 <= now && (now - w.first->0)
                <= i64::MAX ==> t.elapsed_ns == now - w.first->0
            &&& w.first is Some && w.end is Some && w.first->0 <= w.end->0 && (w.end->0
                - w.first->0) <= i64::MAX ==> t.elapsed_ns == w.end->0 - w.first->0
            &&& w.minimum is Some && w.maximum is Some ==> {
                &&& t.span_counts matches Some(span) && span[k] == w.maximum->0[k]
                    - w.minimum->0[k]
                &&& t.minimum_counts == w.minimum
                &&& t.maximum_counts == w.maximum
            }
        }),
{
}

/// A query shows the session as it is: its identity, its phase, its sensor, its
/// calibration switch with the age of its reading, its window and its operations,
/// and the newest sample whether or not it is among those returned.
pub proof fn magnetic_queries_show_the_session(
    s: State,
    cursor: Option<MagneticCursor>,
    source_id: String,
    operation: Option<OperationStatus>,
    now: u64,
    r: MagneticBatch,
)
    requires
        s.wf(),
        s.gives(cursor, source_id, operation, now, r),
    ensures
        r.schema == 1,
        r.source_id == source_id,
        r.instance_id == s.instance_id && r.session_id == s.session_id,
        s.sequence == 0 ==> r.cursor is None && r.latest is None && r.samples@.len() == 0,
        s.sequence > 0 ==> {
            &&& r.cursor == Some(
                MagneticCursor {
                    instance_id: s.instance_id,
                    session_id: s.session_id,
                    sequence: s.sequence,
                },
            )
            &&& r.latest is Some && r.latest->0.cursor.sequence == s.sequence
            &&& r.latest->0.register_xyz == s.records@.last().sample.register_xyz
            &&& r.samples@.len() > 0 ==> r.samples@.last() == r.latest->0
        },
        r.phase == s.phase && r.sensor_type == s.sensor_type && r.type_error == s.type_error,
        r.scale == (match s.sensor_type {
            Some(t) => scale_of(t),
            None => None,
        }),
        r.calsw == s.calsw,
        s.calsw_at is None ==> r.calsw_age_ns is None,
        s.calsw_at is Some && s.calsw_at->0 <= now && now - s.calsw_at->0 <= i64::MAX
            ==> r.calsw_age_ns == Some((now - s.calsw_at->0) as u64),
        r.device_may_be_calibrating <==> s.owned || s.calsw == Some(7u16),
        r.active == s.is_active(now),
        r.statistics == s.window.statistics(now),
        r.operation == operation && r.cleanup == s.cleanup && r.last_error == s.last_error,
{
    let n = s.records@.len() as int;
    cursors_get_what_follows_them(s, cursor, now);
    if s.sequence > 0 {
        assert(n > 0);
        assert(s.records@[n - 1].sample.cursor.sequence == s.sequence);
        assert(s.records@.last() == s.records@[n - 1]);
        let m = r.samples@.len() as int;
        if m > 0 {
            assert(r.samples@[m - 1] == at_query(s.records@[n - m + m - 1], now, s.is_active(now)));
        }
    }
}

/// What each step of a magnetic command does: the switch, register 1, is read
/// before anything and after a write, the field, register 0x3a, before a start.
pub proof fn steps_read_their_registers(step: Step)
    ensures
        step is Gate ==> task_for(step) == (Task::Read { address: 0x01, expected: None }),
        step is Field ==> task_for(step) == (Task::Read { address: 0x3a, expected: None }),
        step matches Step::Expect { value } ==> task_for(step) == (Task::Read {
            address: 0x01,
            expected: Some(value),
        }),
        step matches Step::Write { bytes } ==> task_for(step) == (Task::Write { bytes }),
        step matches Step::Delay { millis } ==> task_for(step) == (Task::Delay { millis }),
        step matches Step::Mark { mark } ==> task_for(step) == (Task::Mark { mark }),
        step is Finish ==> task_for(step) is Finish,
{
}

/// A window ends when its end is seen, once, with the samples that it has had.
pub proof fn windows_end_when_seen(w: Window, now: u64, r: Readings, at: u64)
    ensures
        w.end is None ==> w.ended(now).end == Some(now),
        w.end is Some ==> w.ended(now) == w,
        w.ended(now).count == w.count && w.ended(now).minimum == w.minimum && w.ended(now).maximum
            == w.maximum && w.ended(now).id == w.id && w.ended(now).first == w.first,
        r.phase == MagneticPhase::Calibrating ==> r.with_calsw(0, at).window == r.window.ended(at),
{
}

} // verus!
