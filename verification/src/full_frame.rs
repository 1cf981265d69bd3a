//! The rate guard of the full inertial profile, which is for 20 Hz only.

use crate::model::Error;
use vstd::prelude::*;
use vstd::relations::sorted_by;

verus! {

/// How many gaps are remembered.
pub const GAPS: usize = 8;

/// The last gaps between the times of full inertial frames, in milliseconds.
#[derive(Clone, Copy, Debug)]
pub struct FullFrameRate {
    pub last: Option<u64>,
    /// The newest gap is last; only the last `count` of them are gaps.
    pub gaps: [u64; 8],
    pub count: usize,
}

impl Default for FullFrameRate {
    fn default() -> (r: FullFrameRate)
        ensures
            r == FullFrameRate::empty(),
    {
        FullFrameRate { last: None, gaps: [0, 0, 0, 0, 0, 0, 0, 0], count: 0 }
    }
}

pub open spec fn at_most(a: u64, b: u64) -> bool {
    a <= b
}

/// The upper median.
pub open spec fn median(s: Seq<u64>) -> u64 {
    s.sort_by(|a: u64, b: u64| at_most(a, b))[s.len() as int / 2]
}

impl FullFrameRate {
    pub open spec fn empty() -> FullFrameRate {
        FullFrameRate { last: None, gaps: [0, 0, 0, 0, 0, 0, 0, 0], count: 0 }
    }

    pub open spec fn wf(self) -> bool {
        self.count <= GAPS
    }

    pub open spec fn recent(self) -> Seq<u64> {
        self.gaps@.skip(GAPS - self.count)
    }

    /// With one more gap, the oldest of eight making room.
    pub open spec fn with_gap(self, gap: u64) -> FullFrameRate {
        let g = self.gaps;
        FullFrameRate {
            gaps: [g[1], g[2], g[3], g[4], g[5], g[6], g[7], gap],
            count: if self.count < GAPS {
                (self.count + 1) as usize
            } else {
                self.count
            },
            ..self
        }
    }

    /// The guard with a frame's time taken in, before it is judged.
    pub open spec fn noted(self, time: u64) -> FullFrameRate {
        match self.last {
            Some(previous) => if time < previous {
                FullFrameRate { count: 0, ..self }
            } else if time > previous {
                self.with_gap((time - previous) as u64)
            } else {
                self
            },
            None => self,
        }
    }

    /// Whether a frame's time shows that frames do not come at 20 Hz: of at
    /// least four gaps, the median is not from 45 to 55 ms.
    pub open spec fn too_far(self, time: u64) -> bool {
        let n = self.noted(time);
        &&& self.last matches Some(previous) && time > previous
        &&& n.count >= 4
        &&& !(45 <= median(n.recent()) <= 55)
    }

    /// Takes in the time of a frame. Another profile starts the guard over; a
    /// full inertial frame must carry a time, and come at 20 Hz.
    pub fn observe(&mut self, profile: u8, time: Option<u64>) -> (r: Result<(), Error>)
        requires
            old(self).wf(),
        ensures
            final(self).wf(),
            if profile != 0xe4 {
                r is Ok && *final(self) == FullFrameRate::empty()
            } else {
                match time {
                    None => *final(self) == *old(self) && (r matches Err(e) && e.is_protocol(
                        "full inertial frame lacks a clock"@,
                    )),
                    Some(t) => if old(self).too_far(t) {
                        &&& *final(self) == old(self).noted(t)
                        &&& r matches Err(e) && e.is_protocol(
                            "full inertial frames are outside the 20 Hz validation range; select a short profile"@,
                        )
                    } else {
                        r is Ok && *final(self) == (FullFrameRate {
                            last: Some(t),
                            ..old(self).noted(t)
                        })
                    },
                }
            },
    {
        if profile != 0xe4 {
            *self = FullFrameRate::default();
            return Ok(());
        }
        let t: u64 = match time {
            None => {
                return Err(Error::protocol("full inertial frame lacks a clock"));
            },
            Some(t) => t,
        };
        if let Some(previous) = self.last {
            if t < previous {
                self.count = 0;
            } else if t > previous {
                let g = self.gaps;
                self.gaps = [g[1], g[2], g[3], g[4], g[5], g[6], g[7], t - previous];
                if self.count < GAPS {
                    self.count = self.count + 1;
                }
                if self.count >= 4 {
                    let m: u64 = self.middle();
                    if m < 45 || m > 55 {
                        return Err(
                            Error::protocol(
                                "full inertial frames are outside the 20 Hz validation range; select a short profile",
                            ),
                        );
                    }
                }
            }
        }
        self.last = Some(t);
        Ok(())
    }

    fn middle(&self) -> (r: u64)
        requires
            self.wf(),
            self.count > 0,
        ensures
            r == median(self.recent()),
    {
        let ghost leq = |a: u64, b: u64| at_most(a, b);
        let ghost all = self.recent();
        let mut sorted: Vec<u64> = Vec::new();
        let mut i: usize = GAPS - self.count;
        assert(all.take(0) =~= sorted@);
        while i < GAPS
            invariant
                self.wf(),
                all == self.recent(),
                leq == (|a: u64, b: u64| at_most(a, b)),
                GAPS - self.count <= i <= GAPS,
                sorted@.len() == i - (GAPS - self.count),
                sorted@.to_multiset() =~= all.take(sorted@.len() as int).to_multiset(),
                forall|a: int, b: int| 0 <= a <= b < sorted@.len() ==> sorted@[a] <= sorted@[b],
            decreases GAPS - i,
        {
            let x: u64 = self.gaps[i];
            let ghost before = sorted@;
            let ghost n = sorted@.len() as int;
            let mut k: usize = 0;
            while k < sorted.len() && sorted[k] <= x
                invariant
                    k <= sorted@.len(),
                    forall|a: int| 0 <= a < k ==> sorted@[a] <= x,
                decreases sorted@.len() - k,
            {
                k = k + 1;
            }
            sorted.insert(k, x);
            proof {
                before.to_multiset_ensures();
                assert(all.take(n + 1) =~= all.take(n).push(x));
                all.take(n).to_multiset_ensures();
                vstd::seq_lib::to_multiset_insert(before, k as int, x);
            }
            i = i + 1;
        }
        proof {
            assert(all.take(sorted@.len() as int) =~= all);
            all.lemma_sort_by_ensures(leq);
            assert(sorted_by(sorted@, leq));
            vstd::seq_lib::lemma_sorted_unique(sorted@, all.sort_by(leq), leq);
        }
        sorted[sorted.len() / 2]
    }
}

/// Of values in order, the median is the one in the middle, the upper one of two.
pub proof fn the_median_is_in_the_middle(s: Seq<u64>, ordered: Seq<u64>)
    requires
        s.len() > 0,
        s.to_multiset() == ordered.to_multiset(),
        forall|i: int, j: int| 0 <= i <= j < ordered.len() ==> ordered[i] <= ordered[j],
    ensures
        median(s) == ordered[s.len() as int / 2],
{
    let leq = |a: u64, b: u64| at_most(a, b);
    s.lemma_sort_by_ensures(leq);
    assert(sorted_by(ordered, leq));
    vstd::seq_lib::lemma_sorted_unique(ordered, s.sort_by(leq), leq);
}

/// The median is one of the values, and lies where all of them lie.
pub proof fn the_median_lies_between(s: Seq<u64>, low: u64, high: u64)
    requires
        s.len() > 0,
        forall|i: int| 0 <= i < s.len() ==> low <= #[trigger] s[i] <= high,
    ensures
        low <= median(s) <= high,
        s.contains(median(s)),
{
    let leq = |a: u64, b: u64| at_most(a, b);
    s.lemma_sort_by_ensures(leq);
    let t = s.sort_by(leq);
    s.to_multiset_ensures();
    t.to_multiset_ensures();
    let k = s.len() as int / 2;
    assert(t.len() == s.len());
    assert(t.contains(t[k]));
    assert(t.to_multiset().count(t[k]) > 0);
    assert(s.contains(t[k]));
}

/// Full inertial frames whose last gaps are all from 45 to 55 ms are accepted,
/// and from four gaps on those whose gaps are all shorter, or all longer, are
/// refused. So are frames without a time; other profiles never are.
pub proof fn full_inertial_frames_must_come_at_twenty_hertz(g: FullFrameRate, time: u64)
    requires
        g.wf(),
    ensures
        ({
            let gaps = g.noted(time).recent();
            &&& (forall|i: int| 0 <= i < gaps.len() ==> 45 <= #[trigger] gaps[i] <= 55)
                ==> !g.too_far(time)
            &&& (g.last matches Some(previous) && time > previous) && gaps.len() >= 4 && (forall|
                i: int,
            |
                0 <= i < gaps.len() ==> #[trigger] gaps[i] < 45) ==> g.too_far(time)
            &&& (g.last matches Some(previous) && time > previous) && gaps.len() >= 4 && (forall|
                i: int,
            |
                0 <= i < gaps.len() ==> #[trigger] gaps[i] > 55) ==> g.too_far(time)
            &&& gaps.len() < 4 ==> !g.too_far(time)
        }),
{
    let n = g.noted(time);
    let gaps = n.recent();
    assert(gaps.len() == n.count);
    if gaps.len() > 0 {
        if forall|i: int| 0 <= i < gaps.len() ==> 45 <= #[trigger] gaps[i] <= 55 {
            the_median_lies_between(gaps, 45, 55);
        }
        if forall|i: int| 0 <= i < gaps.len() ==> #[trigger] gaps[i] < 45 {
            assert forall|i: int| 0 <= i < gaps.len() implies 0 <= #[trigger] gaps[i] <= 44 by {}
            the_median_lies_between(gaps, 0, 44);
        }
        if forall|i: int| 0 <= i < gaps.len() ==> #[trigger] gaps[i] > 55 {
            assert forall|i: int| 0 <= i < gaps.len() implies 56 <= #[trigger] gaps[i]
                <= u64::MAX by {}
            the_median_lies_between(gaps, 56, u64::MAX);
        }
    }
}

/// The gaps that are remembered are the last eight between frame times that grow;
/// a step back forgets them, and a repeated time adds none.
pub proof fn the_last_eight_gaps_are_remembered(g: FullFrameRate, time: u64)
    requires
        g.wf(),
        g.last is Some,
    ensures
        ({
            let before = g.recent();
            let after = g.noted(time).recent();
            let previous = g.last->0;
            &&& time < previous ==> after.len() == 0
            &&& time == previous ==> after == before
            &&& time > previous && before.len() < 8 ==> after == before.push(
                (time - previous) as u64,
            )
            &&& time > previous && before.len() == 8 ==> after == before.skip(1).push(
                (time - previous) as u64,
            )
        }),
{
    let n = g.noted(time);
    let previous = g.last->0;
    if time > previous {
        if g.count < 8 {
            assert(n.recent() =~= g.recent().push((time - previous) as u64));
        } else {
            assert(n.recent() =~= g.recent().skip(1).push((time - previous) as u64));
        }
    }
}

} // verus!
