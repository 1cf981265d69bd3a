//! How acquisition goes on between reads: simulated samples, output of the
//! latest pose, and retries of a connection.

use crate::battery::{Battery, BatteryError};
use crate::clock::{elapsed, elapsed_ns};
use crate::controller::{doubled, is_final, next_backoff, Controller, COUNTER_LIMIT};
use crate::model::{
    Error, PoseSnapshot, SampleTime, SampleTimeKind, StatusSnapshot,
};
use crate::osc::{encodable, is_pose_datagram, refused, Sender};
use crate::sample_clock::{stamped, SampleClock};
use vstd::prelude::*;

verus! {

/// What a tick of the simulator gives.
#[derive(Clone, Copy, Debug, PartialEq, Eq, Structural)]
pub enum Tick {
    /// A pose of `elapsed_ns` after the start is published.
    Sample { elapsed_ns: u64, time: Option<SampleTime> },
    /// The tick falls into the same millisecond as the last one.
    Duplicate,
}

/// A simulated source.
#[derive(Debug)]
pub struct Simulation {
    pub start: u64,
    /// Samples carry the elapsed time as their sample time.
    pub timed: bool,
    pub clock: SampleClock,
}

impl Simulation {
    pub open spec fn wf(&self) -> bool {
        self.clock.wf()
    }

    pub open spec fn roomy(&self) -> bool {
        self.clock.duplicates <= COUNTER_LIMIT && self.clock.discontinuities <= COUNTER_LIMIT
    }

    pub fn has_room(&self) -> (r: bool)
        ensures
            r == self.roomy(),
    {
        self.clock.duplicates <= COUNTER_LIMIT && self.clock.discontinuities <= COUNTER_LIMIT
    }

    pub fn new(timed: bool, start: u64) -> (r: Simulation)
        ensures
            r.wf(),
            r.roomy(),
            r.start == start,
            r.timed == timed,
            r.clock.previous is None,
            r.clock.duplicates == 0,
    {
        Simulation { start, timed, clock: SampleClock::default() }
    }

    /// The stamp of a timed tick.
    pub open spec fn stamp(&self, now: u64) -> Option<SampleTime> {
        let age = elapsed(self.start, now);
        stamped(
            self.clock.previous,
            SampleTimeKind::SimulatedElapsed,
            (age / 1_000_000) as u64,
            age,
        )
    }

    /// A tick at `now`. A late tick and a prompt one can share a millisecond: no
    /// newer time is made up for the second.
    pub fn tick(&mut self, controller: &mut Controller, now: u64) -> (r: Tick)
        requires
            old(self).wf(),
            old(self).clock.duplicates < u64::MAX,
            old(self).clock.discontinuities < u64::MAX - 1,
            old(controller).wf(),
        ensures
            final(self).wf(),
            final(controller).wf(),
            ({
                let age = elapsed(old(self).start, now);
                if !old(self).timed {
                    &&& r == (Tick::Sample { elapsed_ns: age, time: None })
                    &&& *final(self) == *old(self)
                    &&& *final(controller) == *old(controller)
                } else {
                    match old(self).stamp(now) {
                        Some(time) => {
                            &&& r == (Tick::Sample { elapsed_ns: age, time: Some(time) })
                            &&& final(self).clock.previous == Some((time, age))
                            &&& final(self).start == old(self).start
                            &&& final(self).timed
                            &&& final(self).clock.duplicates == old(self).clock.duplicates
                            &&& *final(controller) == *old(controller)
                        },
                        None => {
                            &&& r == Tick::Duplicate
                            &&& *final(self) == (Simulation {
                                clock: SampleClock {
                                    duplicates: (old(self).clock.duplicates + 1) as u64,
                                    ..old(self).clock
                                },
                                ..*old(self)
                            })
                            &&& *final(controller) == (Controller {
                                status: StatusSnapshot {
                                    duplicate_sample_times: (old(self).clock.duplicates + 1)
                                        as u64,
                                    ..old(controller).status
                                },
                                ..*old(controller)
                            })
                        },
                    }
                }
            }),
    {
        let age: u64 = elapsed_ns(self.start, now);
        if !self.timed {
            return Tick::Sample { elapsed_ns: age, time: None };
        }
        match self.clock.observe(SampleTimeKind::SimulatedElapsed, age / 1_000_000, age) {
            Some(time) => Tick::Sample { elapsed_ns: age, time: Some(time) },
            None => {
                controller.status.duplicate_sample_times = self.clock.duplicates;
                Tick::Duplicate
            },
        }
    }
}

impl Controller {
    /// The datagram of the latest pose, if one is due. Where there is no pose,
    /// none is waiting.
    pub fn packet_if_due(&self, sender: &mut Sender, now: u64) -> (r: Result<
        Option<(PoseSnapshot, Vec<u8>)>,
        Error,
    >)
        requires
            old(sender).tx_sequence < u64::MAX,
        ensures
            match self.pose_at(now) {
                None => {
                    &&& r matches Ok(p) && p is None
                    &&& *final(sender) == (Sender { pending: None, ..*old(sender) })
                },
                Some(pose) => if old(sender).skips(pose) {
                    &&& r matches Ok(p) && p is None
                    &&& *final(sender) == (Sender { pending: None, ..*old(sender) })
                } else if old(sender).waits(now) {
                    &&& r matches Ok(p) && p is None
                    &&& *final(sender) == (Sender {
                        pending: old(sender).next_slot,
                        ..*old(sender)
                    })
                } else {
                    &&& *final(sender) == *old(sender)
                    &&& match r {
                        Ok(p) => {
                            let tx = (old(sender).tx_sequence + 1) as u64;
                            &&& encodable(pose, old(sender).format, tx, pose.age_ns)
                            &&& p matches Some((sent, bytes)) && sent == pose && is_pose_datagram(
                                bytes@,
                                pose,
                                old(sender).format,
                                self.descriptor.source_id@,
                                tx,
                                pose.age_ns,
                            )
                        },
                        Err(e) => refused(
                            e,
                            pose,
                            old(sender).format,
                            (old(sender).tx_sequence + 1) as u64,
                            pose.age_ns,
                        ),
                    }
                },
            },
    {
        match self.latest_pose(now) {
            None => {
                sender.clear_pending();
                Ok(None)
            },
            Some(pose) => {
                let packet = sender.packet_if_due(
                    &pose,
                    self.descriptor.source_id.as_str(),
                    pose.age_ns,
                    now,
                )?;
                match packet {
                    Some(bytes) => Ok(Some((pose, bytes))),
                    None => Ok(None),
                }
            },
        }
    }
}

/// A pose that is sent was received less than half a second ago.
pub proof fn sent_poses_are_recent(c: Controller, s: Sender, now: u64)
    requires
        c.pose_at(now) is Some,
        !s.skips(c.pose_at(now)->0),
    ensures
        c.pose_at(now)->0.age_ns < crate::controller::STALE_AFTER_NS,
{
}

/// The wait before the next attempt, where it would be `seconds`: one second
/// after a connection that has given samples.
pub open spec fn wait_from(seconds: u64, sampled: bool) -> u64 {
    if sampled {
        1
    } else {
        seconds
    }
}

/// The wait before the next attempt, after a connection was open: it starts
/// over once the connection has given samples.
pub fn backoff_after_session(seconds: u64, session_samples: u64) -> (r: u64)
    requires
        1 <= seconds <= 8,
    ensures
        1 <= r <= 8,
        r == wait_from(seconds, session_samples > 0),
{
    if session_samples > 0 {
        1
    } else {
        seconds
    }
}

/// What follows an attempt to acquire from a device.
#[derive(Debug)]
pub enum AfterAttempt {
    Done,
    Failed { error: Error },
    /// The same source is tried again after so many seconds.
    Retry { seconds: u64 },
}

/// The attempts to acquire from one device.
#[derive(Clone, Copy, Debug)]
pub struct Reconnection {
    /// How long the next wait is, unless samples come in before.
    pub seconds: u64,
}

impl Reconnection {
    pub open spec fn wf(&self) -> bool {
        1 <= self.seconds <= 8
    }

    pub fn new() -> (r: Reconnection)
        ensures
            r == (Reconnection { seconds: 1 }),
    {
        Reconnection { seconds: 1 }
    }

    /// An attempt has ended: the connection could not be opened, or was open and
    /// is closed again. What a retry cannot mend ends the run; after anything
    /// else the source is tried again.
    pub fn attempt_ended(
        &mut self,
        controller: &mut Controller,
        opened: bool,
        result: Result<(), Error>,
    ) -> (r: AfterAttempt)
        requires
            old(self).wf(),
            old(controller).wf(),
            old(controller).status.reconnect_count < u64::MAX,
        ensures
            final(self).wf(),
            final(controller).wf(),
            match result {
                Ok(()) => {
                    &&& r == AfterAttempt::Done
                    &&& *final(controller) == *old(controller)
                    &&& *final(self) == *old(self)
                },
                Err(e) => if is_final(e) {
                    &&& r == (AfterAttempt::Failed { error: e })
                    &&& *final(controller) == *old(controller)
                    &&& *final(self) == *old(self)
                } else {
                    let sampled = opened && old(controller).status.session_samples > 0;
                    let seconds = wait_from(old(self).seconds, sampled);
                    &&& r == (AfterAttempt::Retry { seconds })
                    &&& old(controller).loses_as(e, Ok(()), *final(controller))
                    &&& *final(self) == (Reconnection { seconds: doubled(seconds) })
                },
            },
    {
        match result {
            Ok(()) => AfterAttempt::Done,
            Err(error) => {
                let samples: u64 = controller.status.session_samples;
                match controller.connection_lost(error) {
                    Err(error) => AfterAttempt::Failed { error },
                    Ok(()) => {
                        let mut seconds: u64 = self.seconds;
                        if opened {
                            seconds = backoff_after_session(seconds, samples);
                        }
                        self.seconds = next_backoff(seconds);
                        AfterAttempt::Retry { seconds }
                    },
                }
            },
        }
    }
}

/// What attempts that have failed one after another leave of the wait, given
/// which of them had samples.
pub open spec fn seconds_after(sampled: Seq<bool>) -> u64
    decreases sampled.len(),
{
    if sampled.len() == 0 {
        1
    } else {
        doubled(wait_from(seconds_after(sampled.drop_last()), sampled.last()))
    }
}

/// The wait after the last of such attempts.
pub open spec fn wait_after(sampled: Seq<bool>) -> u64 {
    wait_from(seconds_after(sampled.drop_last()), sampled.last())
}

/// Attempts that fail are repeated after 1, 2, 4, 8, 8, ... seconds, counted from
/// the first attempt, or from the last one that had samples.
pub proof fn waits_double_up_to_eight_seconds(sampled: Seq<bool>, from: int)
    requires
        0 <= from < sampled.len(),
        from == 0 || sampled[from],
        forall|i: int| from < i < sampled.len() ==> !#[trigger] sampled[i],
    ensures
        ({
            let n = sampled.len() - 1 - from;
            wait_after(sampled) == (if n == 0 {
                1
            } else if n == 1 {
                2
            } else if n == 2 {
                4
            } else {
                8int
            })
        }),
    decreases sampled.len(),
{
    let last = sampled.len() - 1;
    if from < last {
        let before = sampled.drop_last();
        assert(!sampled[last]);
        assert forall|i: int| from < i < before.len() implies !#[trigger] before[i] by {
            assert(before[i] == sampled[i]);
        }
        waits_double_up_to_eight_seconds(before, from);
        assert(seconds_after(before) == doubled(wait_after(before)));
    } else if from == 0 {
        assert(seconds_after(sampled.drop_last()) == 1);
    }
}

/// The battery as an inspection found it. A register that cannot be read does
/// not spoil the inspection; cancelling it does.
pub fn inspected_battery(result: Result<[u16; 8], Error>, now: u64) -> (r: Result<Battery, Error>)
    ensures
        match result {
            Ok(words) => r == Ok::<Battery, Error>(Battery::unread().after(words[0], now)),
            Err(e) => if e is Cancelled {
                r == Err::<Battery, Error>(e)
            } else {
                r matches Ok(b) && b == (Battery {
                    last_error: b.last_error,
                    ..Battery::unread()
                }) && (b.last_error matches Some(m) && m.text() == e.text())
            },
        },
{
    let mut battery = Battery::default();
    match result {
        Ok(words) => {
            battery.observe(words[0], now);
            Ok(battery)
        },
        Err(error) => {
            if matches!(error, Error::Cancelled) {
                return Err(error);
            }
            battery.fail(BatteryError::Request(error.message()));
            Ok(battery)
        },
    }
}

/// A simulated sample is stamped with the milliseconds since the start on the
/// simulator's own clock, and one in the same millisecond as the last has no
/// stamp.
pub proof fn simulated_stamps_are_elapsed_milliseconds(s: Simulation, now: u64)
    requires
        s.start <= now,
        now - s.start <= i64::MAX,
    ensures
        ({
            let ms = (now - s.start) as int / 1_000_000;
            &&& s.stamp(now) matches Some(t) ==> t.kind == SampleTimeKind::SimulatedElapsed
                && t.time_ms == ms
            &&& s.clock.previous is None ==> s.stamp(now) is Some
            &&& s.clock.previous is Some && (s.clock.previous->0).0.kind
                == SampleTimeKind::SimulatedElapsed ==> (s.stamp(now) is None <==> (
            s.clock.previous->0).0.time_ms == ms)
        }),
{
}

} // verus!
