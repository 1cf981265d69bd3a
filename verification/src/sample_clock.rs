//! Follows the clock that stamps samples, within one connection.

use crate::model::{SampleTime, SampleTimeKind};
use vstd::prelude::*;

verus! {

/// How far a device clock may run ahead of the host clock between two samples.
pub const MAX_LEAD_MS: u64 = 2000;

/// Whether a sample time after `last`, received at `last_ns`, starts a new run
/// of the clock: another clock, a step back, or a step ahead of the host's time
/// by more than two seconds.
pub open spec fn breaks_off(
    last: SampleTime,
    last_ns: u64,
    kind: SampleTimeKind,
    time_ms: u64,
    received_ns: u64,
) -> bool {
    let host_ms = if received_ns > last_ns {
        (received_ns - last_ns) / 1_000_000
    } else {
        0
    };
    kind != last.kind || time_ms < last.time_ms || time_ms - last.time_ms > host_ms + MAX_LEAD_MS
}

/// The stamp of a sample after `previous`; `None` repeats the previous stamp.
pub open spec fn stamped(
    previous: Option<(SampleTime, u64)>,
    kind: SampleTimeKind,
    time_ms: u64,
    received_ns: u64,
) -> Option<SampleTime> {
    match previous {
        None => Some(SampleTime { kind, time_ms, clock_epoch: 1 }),
        Some((last, last_ns)) => if kind == last.kind && time_ms == last.time_ms {
            None
        } else {
            Some(
                SampleTime {
                    kind,
                    time_ms,
                    clock_epoch: if breaks_off(last, last_ns, kind, time_ms, received_ns) {
                        (last.clock_epoch + 1) as u64
                    } else {
                        last.clock_epoch
                    },
                },
            )
        },
    }
}

/// A connection-local clock tracker, fed with valid samples only.
#[derive(Debug)]
pub struct SampleClock {
    pub previous: Option<(SampleTime, u64)>,
    pub duplicates: u64,
    pub discontinuities: u64,
}

impl Default for SampleClock {
    fn default() -> (r: SampleClock)
        ensures
            r.wf(),
            r.previous is None,
            r.duplicates == 0,
            r.discontinuities == 0,
    {
        SampleClock { previous: None, duplicates: 0, discontinuities: 0 }
    }
}

impl SampleClock {
    /// Each discontinuity has started one more run of the clock.
    pub open spec fn wf(&self) -> bool {
        match self.previous {
            None => self.discontinuities == 0,
            Some((last, _)) => last.clock_epoch == self.discontinuities + 1,
        }
    }

    /// What a sample is stamped with, and what it leaves of the clock.
    pub open spec fn observes(
        self,
        kind: SampleTimeKind,
        time_ms: u64,
        received_ns: u64,
        r: Option<SampleTime>,
        after: SampleClock,
    ) -> bool {
        &&& r == stamped(self.previous, kind, time_ms, received_ns)
        &&& match r {
            None => after == (SampleClock {
                duplicates: (self.duplicates + 1) as u64,
                ..self
            }),
            Some(t) => {
                &&& after.previous == Some((t, received_ns))
                &&& after.duplicates == self.duplicates
                &&& after.discontinuities == t.clock_epoch - 1
            },
        }
    }

    /// Stamps a sample. A repeated time gives `None` and leaves the clock where
    /// it was.
    pub fn observe(&mut self, kind: SampleTimeKind, time_ms: u64, received_ns: u64) -> (r: Option<
        SampleTime,
    >)
        requires
            old(self).wf(),
            old(self).duplicates < u64::MAX,
            old(self).discontinuities < u64::MAX - 1,
        ensures
            final(self).wf(),
            old(self).observes(kind, time_ms, received_ns, r, *final(self)),
    {
        let mut epoch: u64 = 1;
        if let Some((last, last_ns)) = self.previous {
            if kind == last.kind && time_ms == last.time_ms {
                self.duplicates = self.duplicates + 1;
                return None;
            }
            let host_ms: u64 = received_ns.saturating_sub(last_ns) / 1_000_000;
            let jump = kind != last.kind || time_ms < last.time_ms || time_ms - last.time_ms
                > host_ms + MAX_LEAD_MS;
            epoch = last.clock_epoch;
            if jump {
                epoch = epoch + 1;
                self.discontinuities = self.discontinuities + 1;
            }
        }
        let time = SampleTime { kind, time_ms, clock_epoch: epoch };
        self.previous = Some((time, received_ns));
        Some(time)
    }
}

/// A sample has no stamp where it repeats the time of the last one that had,
/// and only there. It is counted, and leaves no other trace: later samples are
/// stamped as they would have been without it.
pub proof fn repeated_times_leave_no_trace(
    c: SampleClock,
    kind: SampleTimeKind,
    time_ms: u64,
    received_ns: u64,
    r: Option<SampleTime>,
    after: SampleClock,
    later_kind: SampleTimeKind,
    later_ms: u64,
    later_ns: u64,
)
    requires
        c.duplicates < u64::MAX,
        c.observes(kind, time_ms, received_ns, r, after),
    ensures
        r is None <==> (c.previous matches Some((last, _)) && last.kind == kind && last.time_ms
            == time_ms),
        r is None ==> {
            &&& after.duplicates == c.duplicates + 1
            &&& after.discontinuities == c.discontinuities
            &&& stamped(after.previous, later_kind, later_ms, later_ns) == stamped(
                c.previous,
                later_kind,
                later_ms,
                later_ns,
            )
        },
{
}

/// A stamp carries the sample's own clock and time. Its epoch is 1 on a new clock
/// and otherwise that of the last stamp, one more where the clock breaks off; it
/// is always one more than the discontinuities counted.
pub proof fn epochs_count_discontinuities(
    c: SampleClock,
    kind: SampleTimeKind,
    time_ms: u64,
    received_ns: u64,
    s: SampleTime,
    after: SampleClock,
)
    requires
        c.wf(),
        c.discontinuities < u64::MAX - 1,
        c.observes(kind, time_ms, received_ns, Some(s), after),
    ensures
        after.wf(),
        s.kind == kind,
        s.time_ms == time_ms,
        s.clock_epoch == after.discontinuities + 1,
        match c.previous {
            None => s.clock_epoch == 1,
            Some((last, last_ns)) => {
                &&& last.clock_epoch == c.discontinuities + 1
                &&& s.clock_epoch == last.clock_epoch + (if breaks_off(
                    last,
                    last_ns,
                    kind,
                    time_ms,
                    received_ns,
                ) {
                    1int
                } else {
                    0int
                })
            },
        },
{
}

/// Of two samples in a row with the same epoch, the later one has the later
/// time on the same clock; an epoch is never less than the one before.
pub proof fn time_advances_within_an_epoch(
    last: SampleTime,
    last_ns: u64,
    kind: SampleTimeKind,
    time_ms: u64,
    received_ns: u64,
)
    requires
        last.clock_epoch < u64::MAX,
        stamped(Some((last, last_ns)), kind, time_ms, received_ns) is Some,
    ensures
        ({
            let t = stamped(Some((last, last_ns)), kind, time_ms, received_ns)->0;
            &&& t.clock_epoch >= last.clock_epoch
            &&& t.clock_epoch == last.clock_epoch ==> t.kind == last.kind && t.time_ms > last.time_ms
        }),
{
}

/// On one clock, a sample that is later than the last by no more than two seconds
/// over the time between their receptions goes on with its epoch. One that is
/// earlier, further ahead, or on another clock begins a new one.
pub proof fn epochs_end_with_jumps(
    last: SampleTime,
    at: u64,
    kind: SampleTimeKind,
    time_ms: u64,
    received_ns: u64,
)
    requires
        at <= received_ns,
        last.clock_epoch < u64::MAX,
    ensures
        ({
            let s = stamped(Some((last, at)), kind, time_ms, received_ns);
            let host_ms = (received_ns - at) as int / 1_000_000;
            &&& kind == last.kind && time_ms == last.time_ms ==> s is None
            &&& kind == last.kind && 1 <= time_ms - last.time_ms <= host_ms + 2000 ==> s == Some(
                SampleTime { kind, time_ms, clock_epoch: last.clock_epoch },
            )
            &&& kind != last.kind || time_ms < last.time_ms || time_ms - last.time_ms > host_ms
                + 2000 ==> s == Some(
                SampleTime { kind, time_ms, clock_epoch: (last.clock_epoch + 1) as u64 },
            )
        }),
{
}

/// A reception that seems to lie before the last one allows no more than two
/// seconds of lead.
pub proof fn late_receptions_allow_two_seconds(
    last: SampleTime,
    at: u64,
    time_ms: u64,
    received_ns: u64,
)
    requires
        received_ns < at,
        last.clock_epoch < u64::MAX,
        time_ms > last.time_ms,
    ensures
        stamped(Some((last, at)), last.kind, time_ms, received_ns) == Some(
            SampleTime {
                kind: last.kind,
                time_ms,
                clock_epoch: if time_ms - last.time_ms <= 2000 {
                    last.clock_epoch
                } else {
                    (last.clock_epoch + 1) as u64
                },
            },
        ),
{
}

} // verus!
