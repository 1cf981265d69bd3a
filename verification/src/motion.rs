//! A bounded record of recent samples, read by cursor.

use crate::clock::{elapsed, elapsed_ns};
use crate::model::SampleTime;
use crate::number::Number;
use std::collections::VecDeque;
use vstd::prelude::*;

verus! {

pub const MOTION_HISTORY_CAPACITY: usize = 256;

/// Stays false until the 20 Hz full inertial profile has passed acceptance on hardware.
pub const FULL_INERTIAL_20HZ_VALIDATED: bool = false;

/// From this age on, nothing is fresh.
pub const FRESH_FOR_NS: u64 = 500_000_000;

#[derive(Clone, Copy, Debug, PartialEq, Eq, Structural)]
pub struct MotionCursor {
    pub instance_id: u64,
    pub session_id: u64,
    pub sequence: u64,
}

#[derive(Clone, Copy, Debug, PartialEq, Eq, Structural)]
pub enum OrientationSource {
    NativeQuaternion,
    ConvertedEuler,
    RegisterQuaternion,
    Simulator,
}

#[derive(Debug)]
pub struct MotionSample {
    pub source_id: String,
    pub cursor: MotionCursor,
    pub reference_epoch: u64,
    pub metadata_revision: u64,
    /// Samples of one transport read share this number and appear together.
    pub delivery_id: u64,
    pub received_ns: u64,
    /// Age at the query; all samples of a batch are queried at the same moment.
    pub age_ns: u64,
    pub fresh: bool,
    pub sample_time: Option<SampleTime>,
    /// Orientation in head axes: x right, y forward, z up.
    pub orientation_xyzw: [Number; 4],
    pub euler_deg: [Number; 3],
    /// Head axes, radians per second, of the same frame.
    pub angular_velocity_rad_s: Option<[Number; 3]>,
    pub acceleration_g: Option<[Number; 3]>,
    pub orientation_source: OrientationSource,
    /// The frame's flag byte; zero for a simulated sample.
    pub profile: u8,
}

impl Clone for MotionSample {
    fn clone(&self) -> (r: MotionSample)
        ensures
            r == *self,
    {
        MotionSample {
            source_id: self.source_id.clone(),
            cursor: self.cursor,
            reference_epoch: self.reference_epoch,
            metadata_revision: self.metadata_revision,
            delivery_id: self.delivery_id,
            received_ns: self.received_ns,
            age_ns: self.age_ns,
            fresh: self.fresh,
            sample_time: self.sample_time,
            orientation_xyzw: self.orientation_xyzw,
            euler_deg: self.euler_deg,
            angular_velocity_rad_s: self.angular_velocity_rad_s,
            acceleration_g: self.acceleration_g,
            orientation_source: self.orientation_source,
            profile: self.profile,
        }
    }
}

#[derive(Debug)]
pub struct MotionBatch {
    pub source_id: String,
    pub queried_at: u64,
    /// The latest sample is fresh at the query, also where no sample is returned.
    pub active: bool,
    pub cursor: Option<MotionCursor>,
    pub reset: bool,
    /// Samples after the cursor that were dropped before they could be read.
    pub history_overrun: u64,
    pub samples: Vec<MotionSample>,
}

/// A sample and when it was received.
#[derive(Debug)]
pub struct MotionRecord {
    pub received: u64,
    pub sample: MotionSample,
}

#[derive(Debug)]
pub struct History {
    pub records: VecDeque<MotionRecord>,
    /// The number of the last transport read.
    pub delivery: u64,
}

impl Default for History {
    fn default() -> (r: History)
        ensures
            r.wf(),
            r.is_empty(),
    {
        History { records: VecDeque::new(), delivery: 0 }
    }
}

/// A sample as it stands at a query.
pub open spec fn at_query(r: MotionRecord, now: u64, active: bool) -> MotionSample {
    MotionSample {
        age_ns: elapsed(r.received, now),
        fresh: active && elapsed(r.received, now) < FRESH_FOR_NS,
        ..r.sample
    }
}

/// The samples after a sequence number, as they stand at a query.
pub open spec fn samples_after(
    records: Seq<MotionRecord>,
    after: u64,
    now: u64,
    active: bool,
) -> Seq<MotionSample>
    decreases records.len(),
{
    if records.len() == 0 {
        seq![]
    } else {
        let earlier = samples_after(records.drop_last(), after, now, active);
        if records.last().sample.cursor.sequence > after {
            earlier.push(at_query(records.last(), now, active))
        } else {
            earlier
        }
    }
}

/// Whether a cursor belongs to another run, or lies ahead of the latest sample.
pub open spec fn is_reset(records: Seq<MotionRecord>, cursor: Option<MotionCursor>) -> bool {
    &&& cursor is Some
    &&& records.len() > 0
    &&& ({
        let a = cursor->0;
        let b = records.last().sample.cursor;
        a.instance_id != b.instance_id || a.session_id != b.session_id || a.sequence > b.sequence
    })
}

/// The sequence number after which samples are read.
pub open spec fn read_after(records: Seq<MotionRecord>, cursor: Option<MotionCursor>) -> u64 {
    if cursor is None || is_reset(records, cursor) {
        0
    } else {
        cursor->0.sequence
    }
}

/// How many samples after the cursor had been dropped.
pub open spec fn overrun(records: Seq<MotionRecord>, cursor: Option<MotionCursor>) -> u64 {
    if cursor is Some && !is_reset(records, cursor) && records.len() > 0 {
        let first = records[0].sample.cursor.sequence;
        let after = read_after(records, cursor);
        if first > after + 1 {
            (first - after - 1) as u64
        } else {
            0
        }
    } else {
        0
    }
}

impl History {
    pub open spec fn wf(&self) -> bool {
        self.records@.len() <= MOTION_HISTORY_CAPACITY
    }

    pub open spec fn is_empty(&self) -> bool {
        self.records@ == Seq::<MotionRecord>::empty() && self.delivery == 0
    }

    /// Appends a sample; a full record drops its oldest one.
    pub fn push(&mut self, received: u64, sample: MotionSample)
        requires
            old(self).wf(),
        ensures
            final(self).wf(),
            final(self).delivery == old(self).delivery,
            final(self).records@ == pushed(
                old(self).records@,
                MotionRecord { received, sample },
            ),
    {
        if self.records.len() == MOTION_HISTORY_CAPACITY {
            self.records.pop_front();
        }
        self.records.push_back(MotionRecord { received, sample });
    }

    /// The samples after a cursor. The record itself stays as it is.
    pub fn since(&self, cursor: Option<MotionCursor>, now: u64, active: bool) -> (r: MotionBatch)
        ensures
            r.source_id@ == Seq::<char>::empty(),
            r.queried_at == now,
            r.active == active,
            r.cursor == (if self.records@.len() == 0 {
                None
            } else {
                Some(self.records@.last().sample.cursor)
            }),
            r.reset == is_reset(self.records@, cursor),
            r.history_overrun == overrun(self.records@, cursor),
            r.samples@ == samples_after(
                self.records@,
                read_after(self.records@, cursor),
                now,
                active,
            ),
    {
        let n: usize = self.records.len();
        let latest = if n == 0 {
            None
        } else {
            Some(self.records[n - 1].sample.cursor)
        };
        let reset = match (cursor, latest) {
            (Some(a), Some(b)) => a.instance_id != b.instance_id || a.session_id != b.session_id
                || a.sequence > b.sequence,
            _ => false,
        };
        let after: u64 = match cursor {
            Some(c) => if reset {
                0
            } else {
                c.sequence
            },
            None => 0,
        };
        let mut history_overrun: u64 = 0;
        if cursor.is_some() && !reset && n > 0 {
            let first: u64 = self.records[0].sample.cursor.sequence;
            if first > after {
                history_overrun = first - after - 1;
            }
        }
        let mut samples: Vec<MotionSample> = Vec::new();
        let mut i: usize = 0;
        while i < n
            invariant
                i <= n,
                n == self.records@.len(),
                samples@ == samples_after(self.records@.take(i as int), after, now, active),
            decreases n - i,
        {
            let record = &self.records[i];
            proof {
                assert(self.records@.take(i + 1).drop_last() =~= self.records@.take(i as int));
            }
            if record.sample.cursor.sequence > after {
                let mut sample = record.sample.clone();
                sample.age_ns = elapsed_ns(record.received, now);
                sample.fresh = active && sample.age_ns < FRESH_FOR_NS;
                assert(sample == at_query(*record, now, active));
                samples.push(sample);
            }
            i = i + 1;
        }
        assert(self.records@.take(i as int) =~= self.records@);
        MotionBatch {
            source_id: String::new(),
            queried_at: now,
            active,
            cursor: latest,
            reset,
            history_overrun,
            samples,
        }
    }
}

/// A record with one more sample.
pub open spec fn pushed(records: Seq<MotionRecord>, r: MotionRecord) -> Seq<MotionRecord> {
    if records.len() >= MOTION_HISTORY_CAPACITY {
        records.skip(1).push(r)
    } else {
        records.push(r)
    }
}

/// Samples of one run, numbered one after another from 1 or more.
pub open spec fn numbered(records: Seq<MotionRecord>) -> bool {
    forall|i: int|
        0 <= i < records.len() ==> {
            let c = (#[trigger] records[i]).sample.cursor;
            let first = records[0].sample.cursor;
            &&& c.instance_id == first.instance_id
            &&& c.session_id == first.session_id
            &&& c.sequence == first.sequence + i
            &&& first.sequence >= 1
        }
}

/// Dropping the oldest sample and adding the next one keeps samples numbered.
pub proof fn pushing_keeps_numbers(records: Seq<MotionRecord>, r: MotionRecord)
    requires
        numbered(records),
        r.sample.cursor.sequence >= 1,
        records.len() > 0 ==> {
            let last = records.last().sample.cursor;
            &&& r.sample.cursor.instance_id == last.instance_id
            &&& r.sample.cursor.session_id == last.session_id
            &&& r.sample.cursor.sequence == last.sequence + 1
        },
    ensures
        numbered(pushed(records, r)),
{
    let p = pushed(records, r);
    if records.len() > 0 {
        assert(records[0].sample.cursor == records[0].sample.cursor);
        let n = records.len() as int;
        assert(records[n - 1].sample.cursor.sequence == records[0].sample.cursor.sequence + n - 1);
        if records.len() >= MOTION_HISTORY_CAPACITY {
            assert(records[1].sample.cursor.sequence == records[0].sample.cursor.sequence + 1);
            assert(p[0] == records[1]);
            assert forall|i: int| 0 <= i < p.len() implies {
                let c = (#[trigger] p[i]).sample.cursor;
                let first = p[0].sample.cursor;
                &&& c.instance_id == first.instance_id
                &&& c.session_id == first.session_id
                &&& c.sequence == first.sequence + i
                &&& first.sequence >= 1
            } by {
                if i < p.len() - 1 {
                    assert(p[i] == records[i + 1]);
                }
            }
        } else {
            assert forall|i: int| 0 <= i < p.len() implies {
                let c = (#[trigger] p[i]).sample.cursor;
                let first = p[0].sample.cursor;
                &&& c.instance_id == first.instance_id
                &&& c.session_id == first.session_id
                &&& c.sequence == first.sequence + i
                &&& first.sequence >= 1
            } by {
                assert(p[0] == records[0]);
                if i < p.len() - 1 {
                    assert(p[i] == records[i]);
                }
            }
        }
    }
}

proof fn lemma_samples_after_len(
    records: Seq<MotionRecord>,
    first: int,
    after: u64,
    now: u64,
    active: bool,
)
    requires
        forall|i: int|
            0 <= i < records.len() ==> (#[trigger] records[i]).sample.cursor.sequence == first + i,
        first >= 1,
    ensures
        samples_after(records, after, now, active).len() == (if after < first {
            records.len() as int
        } else if after >= first + records.len() {
            0
        } else {
            first + records.len() - 1 - after
        }),
    decreases records.len(),
{
    if records.len() > 0 {
        assert(forall|i: int|
            0 <= i < records.len() - 1 ==> (#[trigger] records.drop_last()[i]) == records[i]);
        assert(records.last() == records[records.len() - 1]);
        lemma_samples_after_len(records.drop_last(), first, after, now, active);
    }
}

/// No sample is lost in silence: of the samples after a cursor, those that are
/// not returned are counted as overrun; a cursor at the latest sample gets none.
pub proof fn every_sample_is_returned_or_counted(
    records: Seq<MotionRecord>,
    cursor: MotionCursor,
    now: u64,
    active: bool,
)
    requires
        numbered(records),
        records.len() > 0,
        !is_reset(records, Some(cursor)),
    ensures
        samples_after(records, cursor.sequence, now, active).len() + overrun(records, Some(cursor))
            == records.last().sample.cursor.sequence - cursor.sequence,
        samples_after(
            records,
            records.last().sample.cursor.sequence,
            now,
            active,
        ).len() == 0,
{
    let first = records[0].sample.cursor.sequence as int;
    let n = records.len() as int;
    assert(records[n - 1].sample.cursor.sequence == first + n - 1);
    lemma_samples_after_len(records, first, cursor.sequence, now, active);
    lemma_samples_after_len(
        records,
        first,
        records.last().sample.cursor.sequence,
        now,
        active,
    );
}

/// Where reception has stopped no sample is fresh, and no sample is fresh from
/// half a second of age on.
pub proof fn old_samples_are_not_fresh(r: MotionRecord, now: u64, active: bool)
    ensures
        at_query(r, now, active).fresh ==> active && elapsed(r.received, now) < FRESH_FOR_NS,
        !at_query(r, now, false).fresh,
{
}

/// A query changes nothing of a sample but its age, which is the time since it
/// was received, and whether it is fresh: reception goes on, and it is younger
/// than half a second.
pub proof fn queries_change_age_and_freshness_only(r: MotionRecord, now: u64, active: bool)
    requires
        r.received <= now,
        now - r.received < 0x8000_0000_0000_0000,
    ensures
        ({
            let s = at_query(r, now, active);
            &&& s.age_ns == now - r.received
            &&& s.fresh <==> active && now - r.received < 500_000_000
            &&& s == (MotionSample { age_ns: s.age_ns, fresh: s.fresh, ..r.sample })
        }),
{
}

proof fn lemma_later_samples(
    records: Seq<MotionRecord>,
    first: int,
    after: u64,
    now: u64,
    active: bool,
)
    requires
        forall|i: int|
            0 <= i < records.len() ==> (#[trigger] records[i]).sample.cursor.sequence == first + i,
        first >= 1,
    ensures
        ({
            let s = samples_after(records, after, now, active);
            let skipped = if after < first {
                0
            } else if after >= first + records.len() {
                records.len() as int
            } else {
                after - first + 1
            };
            &&& s.len() == records.len() - skipped
            &&& forall|i: int|
                0 <= i < s.len() ==> #[trigger] s[i] == at_query(records[skipped + i], now, active)
        }),
    decreases records.len(),
{
    lemma_samples_after_len(records, first, after, now, active);
    if records.len() > 0 {
        let front = records.drop_last();
        assert forall|i: int| 0 <= i < front.len() implies (
        #[trigger] front[i]).sample.cursor.sequence == first + i by {
            assert(front[i] == records[i]);
        }
        lemma_samples_after_len(front, first, after, now, active);
        lemma_later_samples(front, first, after, now, active);
        assert(records.last() == records[records.len() - 1]);
    }
}

/// Where a cursor starts over, or there is none, all samples on record are
/// returned, in order.
pub proof fn starting_over_returns_everything(
    records: Seq<MotionRecord>,
    cursor: Option<MotionCursor>,
    now: u64,
    active: bool,
)
    requires
        numbered(records),
        cursor is None || is_reset(records, cursor),
    ensures
        ({
            let s = samples_after(records, read_after(records, cursor), now, active);
            &&& s.len() == records.len()
            &&& forall|i: int|
                0 <= i < s.len() ==> #[trigger] s[i] == at_query(records[i], now, active)
            &&& overrun(records, cursor) == 0
        }),
{
    if records.len() > 0 {
        let first = records[0].sample.cursor.sequence as int;
        lemma_later_samples(records, first, 0, now, active);
    }
}

/// A cursor of this run gets the samples that follow it, in order and without a
/// gap but for those that are counted as overrun.
pub proof fn a_cursor_gets_what_follows_it(
    records: Seq<MotionRecord>,
    cursor: MotionCursor,
    now: u64,
    active: bool,
)
    requires
        numbered(records),
        records.len() > 0,
        cursor.instance_id == records[0].sample.cursor.instance_id,
        cursor.session_id == records[0].sample.cursor.session_id,
        cursor.sequence <= records.last().sample.cursor.sequence,
    ensures
        !is_reset(records, Some(cursor)),
        ({
            let s = samples_after(records, read_after(records, Some(cursor)), now, active);
            let lost = overrun(records, Some(cursor));
            &&& s.len() + lost == records.last().sample.cursor.sequence - cursor.sequence
            &&& forall|i: int|
                0 <= i < s.len() ==> (#[trigger] s[i]).cursor.sequence == cursor.sequence + lost + 1
                    + i
            &&& forall|i: int|
                0 <= i < s.len() ==> #[trigger] s[i] == at_query(
                    records[records.len() - s.len() + i],
                    now,
                    active,
                )
            &&& lost > 0 ==> s.len() == records.len()
        }),
{
    let first = records[0].sample.cursor.sequence as int;
    let n = records.len() as int;
    assert(records[n - 1].sample.cursor.sequence == first + n - 1);
    assert(records.last() == records[n - 1]);
    lemma_later_samples(records, first, cursor.sequence, now, active);
    let s = samples_after(records, cursor.sequence, now, active);
    let lost = overrun(records, Some(cursor));
    assert forall|i: int| 0 <= i < s.len() implies (#[trigger] s[i]).cursor.sequence
        == cursor.sequence + lost + 1 + i by {
        let k = n - s.len() + i;
        assert(s[i] == at_query(records[k], now, active));
        assert(records[k].sample.cursor.sequence == first + k);
    }
}

/// A cursor starts over exactly where the latest sample is of another instance or
/// session, or comes before it.
pub proof fn cursors_start_over_with_the_run(
    records: Seq<MotionRecord>,
    cursor: MotionCursor,
    latest: MotionRecord,
)
    ensures
        is_reset(records.push(latest), Some(cursor)) <==> !({
            &&& cursor.instance_id == latest.sample.cursor.instance_id
            &&& cursor.session_id == latest.sample.cursor.session_id
            &&& cursor.sequence <= latest.sample.cursor.sequence
        }),
        !is_reset(records, None),
{
    assert(records.push(latest).last() == latest);
}

/// The record keeps the last 256 samples, the newest last.
pub proof fn the_last_256_samples_are_kept(records: Seq<MotionRecord>, r: MotionRecord)
    requires
        records.len() <= 256,
    ensures
        ({
            let p = pushed(records, r);
            &&& p.len() == (if records.len() == 256 {
                256
            } else {
                records.len() + 1
            })
            &&& p.last() == r
            &&& forall|i: int|
                0 <= i < p.len() - 1 ==> #[trigger] p[i] == records[records.len() - p.len() + 1 + i]
        }),
{
}

} // verus!
