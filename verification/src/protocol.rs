//! WIT stream frames, register replies and register commands.

use crate::model::{AlgorithmMode, DeviceCommand, Error, OutputProfile};
use vstd::prelude::*;

verus! {

/// A frame in raw counts. Full scale, 32768 counts, is 16 g of acceleration,
/// 2000 degrees per second of angular velocity, 180 degrees of Euler angle and
/// 1.0 of a quaternion component.
#[derive(Clone, Copy, Debug)]
#[allow(inconsistent_fields)]
pub enum Frame {
    Motion { acceleration: [i16; 3], angular_velocity: [i16; 3], euler_xyz: [i16; 3] },
    Stream {
        profile: u8,
        acceleration: Option<[i16; 3]>,
        sample_time_ms: Option<u64>,
        angular_velocity: Option<[i16; 3]>,
        euler_xyz: Option<[i16; 3]>,
        quaternion_wxyz: Option<[i16; 4]>,
    },
    Registers { address: u16, values: [i16; 8] },
}

pub open spec fn leap(year: int) -> bool {
    year % 4 == 0 && (year % 100 != 0 || year % 400 == 0)
}

pub open spec fn month_days(year: int, month: int) -> int {
    if month == 2 {
        if leap(year) {
            29
        } else {
            28
        }
    } else if month == 4 || month == 6 || month == 9 || month == 11 {
        30
    } else {
        31
    }
}

/// Days from 2000-01-01 to the first day of `year`.
pub open spec fn days_before_year(year: int) -> int
    decreases year - 2000,
{
    if year <= 2000 {
        0
    } else {
        days_before_year(year - 1) + (if leap(year - 1) {
            366
        } else {
            365int
        })
    }
}

/// Days from the first day of `year` to the first day of `month`.
pub open spec fn days_before_month(year: int, month: int) -> int
    decreases month,
{
    if month <= 1 {
        0
    } else {
        days_before_month(year, month - 1) + month_days(year, month - 1)
    }
}

/// Year, month, day, hour, minute, second and a little-endian millisecond word
/// name a real moment of the Gregorian calendar.
pub open spec fn calendar_valid(b: Seq<u8>) -> bool {
    &&& 1 <= b[1] <= 12
    &&& 1 <= b[2] <= month_days(2000 + b[0], b[1] as int)
    &&& b[3] <= 23
    &&& b[4] <= 59
    &&& b[5] <= 59
    &&& b[6] + 256 * b[7] <= 999
}

/// Milliseconds from 2000-01-01 00:00 to the moment that `b` names.
pub open spec fn calendar_ms(b: Seq<u8>) -> int {
    let days = days_before_year(2000 + b[0]) + days_before_month(2000 + b[0], b[1] as int) + b[2]
        - 1;
    (((days * 24 + b[3]) * 60 + b[4]) * 60 + b[5]) * 1000 + b[6] + 256 * b[7]
}

spec fn leaps_through(year: int) -> int {
    year / 4 - year / 100 + year / 400
}

proof fn lemma_days_before_year(year: int)
    requires
        2000 <= year <= 2255,
    ensures
        days_before_year(year) == (year - 2000) * 365 + leaps_through(year - 1) - leaps_through(
            1999,
        ),
        days_before_year(year) <= 366 * (year - 2000),
    decreases year,
{
    if year > 2000 {
        lemma_days_before_year(year - 1);
    }
}

fn month_start(leap_year: bool, month: u8) -> (r: u32)
    requires
        1 <= month <= 12,
    ensures
        forall|year: int| leap(year) == leap_year ==> r == #[trigger] days_before_month(
            year,
            month as int,
        ),
        r <= 335,
{
    let mut total: u32 = 0;
    let mut m: u8 = 1;
    while m < month
        invariant
            1 <= m <= month <= 12,
            total <= 31 * (m - 1),
            forall|year: int| leap(year) == leap_year ==> total == #[trigger] days_before_month(
                year,
                m as int,
            ),
        decreases month - m,
    {
        let days: u32 = month_length(leap_year, m);
        assert forall|year: int| leap(year) == leap_year implies total + days
            == #[trigger] days_before_month(year, m + 1) by {
            assert(total == days_before_month(year, m as int));
        }
        total = total + days;
        m = m + 1;
    }
    proof {
        let year: int = if leap_year {
            2000
        } else {
            2001
        };
        reveal_with_fuel(days_before_month, 13);
        assert(total == days_before_month(year, month as int));
    }
    total
}

fn month_length(leap_year: bool, month: u8) -> (r: u32)
    ensures
        forall|year: int| leap(year) == leap_year ==> r == #[trigger] month_days(year, month as int),
        28 <= r <= 31,
{
    if month == 2 {
        if leap_year {
            29
        } else {
            28
        }
    } else if month == 4 || month == 6 || month == 9 || month == 11 {
        30
    } else {
        31
    }
}

/// Milliseconds since 2000-01-01 on the device's clock, or `None` for a date or
/// time of day that does not exist. The time zone of the clock is unknown.
pub fn device_calendar_ms(b: [u8; 8]) -> (r: Option<u64>)
    ensures
        r is Some <==> calendar_valid(b@),
        r matches Some(ms) ==> ms == calendar_ms(b@),
{
    let year: u32 = 2000 + b[0] as u32;
    let leap_year = year % 4 == 0 && (year % 100 != 0 || year % 400 == 0);
    assert(leap_year == leap(year as int));
    let month: u8 = b[1];
    let millis: u32 = b[6] as u32 + 256 * (b[7] as u32);
    if month < 1 || month > 12 {
        return None;
    }
    let length: u32 = month_length(leap_year, month);
    assert(length == month_days(year as int, month as int));
    if b[2] == 0 || b[2] as u32 > length || b[3] > 23 || b[4] > 59 || b[5] > 59 || millis > 999 {
        return None;
    }
    let last: u32 = year - 1;
    let leaps: u32 = last / 4 - last / 100 + last / 400 - (1999 / 4 - 1999 / 100 + 1999 / 400);
    let start: u32 = month_start(leap_year, month);
    proof {
        lemma_days_before_year(year as int);
        assert(start == days_before_month(year as int, month as int));
    }
    let days: u64 = (b[0] as u32 * 365 + leaps + start + b[2] as u32 - 1) as u64;
    Some(
        (((days * 24 + b[3] as u64) * 60 + b[4] as u64) * 60 + b[5] as u64) * 1000 + millis as u64,
    )
}

/// The moments that two calendar stamps name are in the order of their fields,
/// so that distinct stamps are distinct times.
pub proof fn calendar_order(a: Seq<u8>, b: Seq<u8>)
    requires
        calendar_valid(a),
        calendar_valid(b),
        earlier(a, b),
    ensures
        calendar_ms(a) < calendar_ms(b),
{
    let ya = 2000 + a[0];
    let yb = 2000 + b[0];
    lemma_month_in_year(ya, a[1] as int);
    lemma_month_in_year(yb, b[1] as int);
    if ya < yb {
        lemma_year_order(ya, yb);
    } else if a[1] < b[1] {
        lemma_month_order(ya, a[1] as int, b[1] as int);
    }
}

/// Field by field, `a` comes before `b`.
pub open spec fn earlier(a: Seq<u8>, b: Seq<u8>) -> bool {
    let ma = a[6] + 256 * a[7];
    let mb = b[6] + 256 * b[7];
    if a[0] != b[0] {
        a[0] < b[0]
    } else if a[1] != b[1] {
        a[1] < b[1]
    } else if a[2] != b[2] {
        a[2] < b[2]
    } else if a[3] != b[3] {
        a[3] < b[3]
    } else if a[4] != b[4] {
        a[4] < b[4]
    } else if a[5] != b[5] {
        a[5] < b[5]
    } else {
        ma < mb
    }
}

proof fn lemma_month_in_year(year: int, month: int)
    requires
        1 <= month <= 12,
    ensures
        0 <= days_before_month(year, month),
        days_before_month(year, month) + month_days(year, month) <= days_before_month(year, 13),
        days_before_month(year, 13) == (if leap(year) {
            366
        } else {
            365int
        }),
{
    reveal_with_fuel(days_before_month, 14);
}

proof fn lemma_year_order(a: int, b: int)
    requires
        2000 <= a < b,
    ensures
        days_before_year(a) + (if leap(a) {
            366
        } else {
            365int
        }) <= days_before_year(b),
    decreases b,
{
    if a < b - 1 {
        lemma_year_order(a, b - 1);
    }
}

proof fn lemma_month_order(year: int, a: int, b: int)
    requires
        1 <= a < b,
    ensures
        days_before_month(year, a) + month_days(year, a) <= days_before_month(year, b),
    decreases b,
{
    if a < b - 1 {
        lemma_month_order(year, a, b - 1);
    }
}

/// The length of a frame by its flag byte.
pub open spec fn length_of(flag: u8) -> Option<int> {
    if flag == 0x61 || flag == 0x71 {
        Some(20)
    } else if flag == 0x01 {
        Some(8)
    } else if flag == 0x04 {
        Some(10)
    } else if flag == 0x81 {
        Some(16)
    } else if flag == 0x84 {
        Some(18)
    } else if flag == 0xa4 {
        Some(24)
    } else if flag == 0xe4 {
        Some(30)
    } else {
        None
    }
}

/// Length of the longest frame.
pub const MAX_FRAME_BYTES: usize = 30;

fn frame_length(flag: u8) -> (r: Option<usize>)
    ensures
        match r {
            Some(n) => length_of(flag) == Some(n as int),
            None => length_of(flag) is None,
        },
{
    if flag == 0x61 || flag == 0x71 {
        Some(20)
    } else if flag == 0x01 {
        Some(8)
    } else if flag == 0x04 {
        Some(10)
    } else if flag == 0x81 {
        Some(16)
    } else if flag == 0x84 {
        Some(18)
    } else if flag == 0xa4 {
        Some(24)
    } else if flag == 0xe4 {
        Some(30)
    } else {
        None
    }
}

/// The little-endian two's-complement word at `i`.
pub open spec fn word_at(b: Seq<u8>, i: int) -> i16 {
    let n = b[i] + 256 * b[i + 1];
    (if n < 32768 {
        n
    } else {
        n - 65536
    }) as i16
}

pub open spec fn triple_at(b: Seq<u8>, i: int) -> [i16; 3] {
    [word_at(b, i), word_at(b, i + 2), word_at(b, i + 4)]
}

/// The squared length of a quaternion in counts is within 0.81 and 1.21 of full scale.
pub open spec fn near_unit(q: [i16; 4]) -> bool {
    81 * 0x4000_0000 <= 100 * (q[0] * q[0] + q[1] * q[1] + q[2] * q[2] + q[3] * q[3]) <= 121
        * 0x4000_0000
}

/// What a whole frame says, or `None` where it names no real moment or holds a
/// quaternion that is not of about unit length.
pub open spec fn decoded(b: Seq<u8>) -> Option<Frame> {
    let flag = b[1];
    if flag == 0x71 {
        Some(
            Frame::Registers {
                address: (b[2] + 256 * b[3]) as u16,
                values: [
                    word_at(b, 4),
                    word_at(b, 6),
                    word_at(b, 8),
                    word_at(b, 10),
                    word_at(b, 12),
                    word_at(b, 14),
                    word_at(b, 16),
                    word_at(b, 18),
                ],
            },
        )
    } else if flag == 0x61 {
        Some(
            Frame::Motion {
                acceleration: triple_at(b, 2),
                angular_velocity: triple_at(b, 8),
                euler_xyz: triple_at(b, 14),
            },
        )
    } else {
        let timed = has_time(flag);
        let accelerated = has_acceleration(flag);
        let turning = has_angular_velocity(flag);
        let first = if timed {
            10
        } else {
            2int
        };
        let second = if accelerated {
            first + 6
        } else {
            first
        };
        let third = if turning {
            second + 6
        } else {
            second
        };
        let q = [
            word_at(b, third),
            word_at(b, third + 2),
            word_at(b, third + 4),
            word_at(b, third + 6),
        ];
        if timed && !calendar_valid(b.subrange(2, 10)) {
            None
        } else if has_quaternion(flag) && !near_unit(q) {
            None
        } else {
            Some(
                Frame::Stream {
                    profile: flag,
                    acceleration: if accelerated {
                        Some(triple_at(b, first))
                    } else {
                        None
                    },
                    sample_time_ms: if timed {
                        Some(calendar_ms(b.subrange(2, 10)) as u64)
                    } else {
                        None
                    },
                    angular_velocity: if turning {
                        Some(triple_at(b, second))
                    } else {
                        None
                    },
                    euler_xyz: if has_euler(flag) {
                        Some(triple_at(b, third))
                    } else {
                        None
                    },
                    quaternion_wxyz: if has_quaternion(flag) {
                        Some(q)
                    } else {
                        None
                    },
                },
            )
        }
    }
}

pub open spec fn has_time(flag: u8) -> bool {
    flag >= 0x80
}

pub open spec fn has_acceleration(flag: u8) -> bool {
    flag == 0xe4
}

pub open spec fn has_angular_velocity(flag: u8) -> bool {
    flag == 0xa4 || flag == 0xe4
}

pub open spec fn has_euler(flag: u8) -> bool {
    flag == 0x01 || flag == 0x81
}

pub open spec fn has_quaternion(flag: u8) -> bool {
    flag == 0x04 || flag == 0x84 || flag == 0xa4 || flag == 0xe4
}

fn word(lo: u8, hi: u8) -> (r: i16)
    ensures
        r == (if lo + 256 * hi < 32768 {
            lo + 256 * hi
        } else {
            lo + 256 * hi - 65536
        }),
{
    let n: i32 = lo as i32 + 256 * (hi as i32);
    if n < 32768 {
        n as i16
    } else {
        (n - 65536) as i16
    }
}

fn triple(b: &[u8], i: usize) -> (r: [i16; 3])
    requires
        i + 6 <= b@.len(),
    ensures
        r == triple_at(b@, i as int),
{
    [word(b[i], b[i + 1]), word(b[i + 2], b[i + 3]), word(b[i + 4], b[i + 5])]
}

fn square(x: i16) -> (r: i64)
    ensures
        r == x * x,
        0 <= r <= 0x4000_0000,
{
    assert(0 <= x * x <= 0x4000_0000) by (nonlinear_arith)
        requires
            -32768 <= x <= 32767,
    ;
    x as i64 * x as i64
}

fn unit_length(q: &[i16; 4]) -> (r: bool)
    ensures
        r == near_unit(*q),
{
    let sum: i64 = square(q[0]) + square(q[1]) + square(q[2]) + square(q[3]);
    81 * 0x4000_0000 <= 100 * sum && 100 * sum <= 121 * 0x4000_0000
}

proof fn lemma_flags(flag: u8)
    requires
        length_of(flag) is Some,
        flag != 0x61,
        flag != 0x71,
    ensures
        has_time(flag) == (flag & 0x80 != 0),
        has_acceleration(flag) == (flag & 0x40 != 0),
        has_angular_velocity(flag) == (flag & 0x20 != 0),
        has_euler(flag) == (flag & 0x01 != 0),
        has_quaternion(flag) == (flag & 0x04 != 0),
{
    assert((flag >= 0x80) == (flag & 0x80 != 0) && (flag == 0xe4) == (flag & 0x40 != 0) && (flag
        == 0xa4 || flag == 0xe4) == (flag & 0x20 != 0) && (flag == 0x01 || flag == 0x81) == (flag
        & 0x01 != 0) && (flag == 0x04 || flag == 0x84 || flag == 0xa4 || flag == 0xe4) == (flag
        & 0x04 != 0)) by (bit_vector)
        requires
            flag == 0x01 || flag == 0x04 || flag == 0x81 || flag == 0x84 || flag == 0xa4 || flag
                == 0xe4,
    ;
}

fn decode(b: &[u8]) -> (r: Option<Frame>)
    requires
        b@.len() >= 2,
        length_of(b@[1]) == Some(b@.len() as int),
    ensures
        r == decoded(b@),
{
    let flag: u8 = b[1];
    if flag == 0x71 {
        return Some(
            Frame::Registers {
                address: b[2] as u16 + 256 * (b[3] as u16),
                values: [
                    word(b[4], b[5]),
                    word(b[6], b[7]),
                    word(b[8], b[9]),
                    word(b[10], b[11]),
                    word(b[12], b[13]),
                    word(b[14], b[15]),
                    word(b[16], b[17]),
                    word(b[18], b[19]),
                ],
            },
        );
    }
    if flag == 0x61 {
        return Some(
            Frame::Motion {
                acceleration: triple(b, 2),
                angular_velocity: triple(b, 8),
                euler_xyz: triple(b, 14),
            },
        );
    }
    proof {
        lemma_flags(flag);
    }
    let mut offset: usize = 2;
    let sample_time_ms = if flag & 0x80 != 0 {
        offset = offset + 8;
        let stamp = [b[2], b[3], b[4], b[5], b[6], b[7], b[8], b[9]];
        assert(stamp@ =~= b@.subrange(2, 10));
        match device_calendar_ms(stamp) {
            Some(ms) => Some(ms),
            None => {
                return None;
            },
        }
    } else {
        None
    };
    let acceleration = if flag & 0x40 != 0 {
        let values = triple(b, offset);
        offset = offset + 6;
        Some(values)
    } else {
        None
    };
    let angular_velocity = if flag & 0x20 != 0 {
        let values = triple(b, offset);
        offset = offset + 6;
        Some(values)
    } else {
        None
    };
    let euler_xyz = if flag & 0x01 != 0 {
        Some(triple(b, offset))
    } else {
        None
    };
    let quaternion_wxyz = if flag & 0x04 != 0 {
        let q = [
            word(b[offset], b[offset + 1]),
            word(b[offset + 2], b[offset + 3]),
            word(b[offset + 4], b[offset + 5]),
            word(b[offset + 6], b[offset + 7]),
        ];
        if !unit_length(&q) {
            return None;
        }
        Some(q)
    } else {
        None
    };
    Some(
        Frame::Stream {
            profile: flag,
            acceleration,
            sample_time_ms,
            angular_velocity,
            euler_xyz,
            quaternion_wxyz,
        },
    )
}

/// What is read off a run of bytes: the frames, the incomplete frame that is
/// left, and how many bytes and ill-formed frames were passed over.
#[verifier::ext_equal]
pub struct Reading {
    pub frames: Seq<Frame>,
    pub rest: Seq<u8>,
    pub discarded: nat,
    pub invalid: nat,
}

/// The reading that leaves everything.
pub open spec fn nothing(rest: Seq<u8>) -> Reading {
    Reading { frames: Seq::empty(), rest, discarded: 0, invalid: 0 }
}

/// One reading after another; what the first left is part of the second.
pub open spec fn chain(a: Reading, b: Reading) -> Reading {
    Reading {
        frames: a.frames + b.frames,
        rest: b.rest,
        discarded: a.discarded + b.discarded,
        invalid: a.invalid + b.invalid,
    }
}

pub open spec fn one_frame(f: Frame) -> Reading {
    Reading { frames: seq![f], rest: Seq::empty(), discarded: 0, invalid: 0 }
}

pub open spec fn one_byte(invalid: nat) -> Reading {
    Reading { frames: Seq::empty(), rest: Seq::empty(), discarded: 1, invalid }
}

/// The length that the first two bytes announce, where they open a frame.
pub open spec fn announced(b: Seq<u8>) -> Option<int> {
    if b[0] == 0x55 {
        length_of(b[1])
    } else {
        None
    }
}

/// Reads frames from the front. A byte that opens no frame, and the first byte
/// of a frame that says nothing, is passed over.
pub open spec fn read(b: Seq<u8>) -> Reading
    decreases b.len(),
{
    if b.len() < 2 {
        nothing(b)
    } else {
        match announced(b) {
            None => chain(one_byte(0), read(b.skip(1))),
            Some(n) => if b.len() < n {
                nothing(b)
            } else {
                match decoded(b.take(n)) {
                    Some(f) => chain(one_frame(f), read(b.skip(n))),
                    None => chain(one_byte(1), read(b.skip(1))),
                }
            },
        }
    }
}

/// The bytes that a frame takes on the wire.
pub open spec fn wire_length(f: Frame) -> int {
    match f {
        Frame::Motion { .. } => 20,
        Frame::Registers { .. } => 20,
        Frame::Stream { profile, .. } => length_of(profile)->0,
    }
}

pub open spec fn wire_bytes(frames: Seq<Frame>) -> int
    decreases frames.len(),
{
    if frames.len() == 0 {
        0
    } else {
        wire_length(frames[0]) + wire_bytes(frames.skip(1))
    }
}

/// Reading in two parts is reading the whole: how a stream is cut into reads
/// changes nothing.
pub proof fn reading_is_split_independent(a: Seq<u8>, b: Seq<u8>)
    ensures
        read(a + b) == chain(read(a), read(read(a).rest + b)),
    decreases a.len(),
{
    let ab = a + b;
    if a.len() >= 2 {
        assert(announced(ab) == announced(a));
        assert(ab.skip(1) =~= a.skip(1) + b);
        match announced(a) {
            None => {
                reading_is_split_independent(a.skip(1), b);
            },
            Some(n) => {
                if a.len() >= n {
                    assert(ab.take(n) =~= a.take(n));
                    assert(ab.skip(n) =~= a.skip(n) + b);
                    match decoded(a.take(n)) {
                        Some(f) => {
                            reading_is_split_independent(a.skip(n), b);
                        },
                        None => {
                            reading_is_split_independent(a.skip(1), b);
                        },
                    }
                }
            },
        }
    }
    assert(read(ab) =~= chain(read(a), read(read(a).rest + b)));
}

/// What a reading leaves is a proper part of one frame and reads as nothing.
pub proof fn reading_leaves_less_than_a_frame(b: Seq<u8>)
    ensures
        read(b).rest.len() < MAX_FRAME_BYTES,
        read(read(b).rest) == nothing(read(b).rest),
    decreases b.len(),
{
    if b.len() >= 2 {
        match announced(b) {
            None => {
                reading_leaves_less_than_a_frame(b.skip(1));
            },
            Some(n) => {
                if b.len() >= n {
                    reading_leaves_less_than_a_frame(b.skip(n));
                    reading_leaves_less_than_a_frame(b.skip(1));
                }
            },
        }
    }
}

/// Every byte is part of a frame that came out, was passed over, or is left.
pub proof fn reading_accounts_for_every_byte(b: Seq<u8>)
    ensures
        b.len() == wire_bytes(read(b).frames) + read(b).discarded + read(b).rest.len(),
        read(b).invalid <= read(b).discarded <= b.len(),
    decreases b.len(),
{
    if b.len() >= 2 {
        match announced(b) {
            None => {
                reading_accounts_for_every_byte(b.skip(1));
                assert(read(b).frames =~= read(b.skip(1)).frames);
            },
            Some(n) => {
                if b.len() >= n {
                    match decoded(b.take(n)) {
                        Some(f) => {
                            reading_accounts_for_every_byte(b.skip(n));
                            assert(read(b).frames.skip(1) =~= read(b.skip(n)).frames);
                        },
                        None => {
                            reading_accounts_for_every_byte(b.skip(1));
                            assert(read(b).frames =~= read(b.skip(1)).frames);
                        },
                    }
                }
            },
        }
    }
}

/// No more frames come out than bytes went in.
pub proof fn reading_has_fewer_frames_than_bytes(b: Seq<u8>)
    ensures
        read(b).frames.len() <= b.len(),
    decreases b.len(),
{
    if b.len() >= 2 {
        match announced(b) {
            None => {
                reading_has_fewer_frames_than_bytes(b.skip(1));
            },
            Some(n) => {
                if b.len() >= n {
                    reading_has_fewer_frames_than_bytes(b.skip(n));
                    reading_has_fewer_frames_than_bytes(b.skip(1));
                }
            },
        }
    }
}

/// A well-formed frame comes out as soon as its last byte is in, also where
/// bytes that open no frame precede it.
pub proof fn frame_is_found_after_noise(noise: Seq<u8>, frame: Seq<u8>)
    requires
        frame.len() >= 2,
        announced(frame) == Some(frame.len() as int),
        decoded(frame) is Some,
        forall|i: int| 0 <= i < noise.len() ==> #[trigger] noise[i] != 0x55,
    ensures
        read(noise + frame) == (Reading {
            frames: seq![decoded(frame)->0],
            rest: Seq::empty(),
            discarded: noise.len(),
            invalid: 0,
        }),
    decreases noise.len(),
{
    let b = noise + frame;
    if noise.len() == 0 {
        assert(b =~= frame);
        assert(b.take(frame.len() as int) =~= frame);
        assert(b.skip(frame.len() as int) =~= Seq::<u8>::empty());
        assert(read(Seq::<u8>::empty()) == nothing(Seq::<u8>::empty()));
        assert(read(b) == chain(one_frame(decoded(frame)->0), nothing(Seq::<u8>::empty())));
    } else {
        assert(b[0] == noise[0]);
        assert(b.skip(1) =~= noise.skip(1) + frame);
        frame_is_found_after_noise(noise.skip(1), frame);
        assert(read(b) == chain(one_byte(0), read(b.skip(1))));
    }
    assert(read(b) =~= (Reading {
        frames: seq![decoded(frame)->0],
        rest: Seq::empty(),
        discarded: noise.len(),
        invalid: 0,
    }));
}

/// An incremental reader of frames.
#[derive(Debug)]
pub struct Parser {
    /// The bytes of a frame that is not complete yet.
    pub buffer: Vec<u8>,
    pub discarded_bytes: u64,
    pub invalid_frames: u64,
}

impl Default for Parser {
    fn default() -> (r: Parser)
        ensures
            r.wf(),
            r.buffer@ == Seq::<u8>::empty(),
            r.discarded_bytes == 0,
            r.invalid_frames == 0,
    {
        Parser { buffer: Vec::new(), discarded_bytes: 0, invalid_frames: 0 }
    }
}

impl Parser {
    /// No frame is complete in the buffer.
    pub open spec fn wf(&self) -> bool {
        read(self.buffer@) == nothing(self.buffer@)
    }

    /// What taking in bytes gives, and leaves: what is kept is read on.
    pub open spec fn takes(self, bytes: Seq<u8>, frames: Seq<Frame>, after: Parser) -> bool {
        let reading = read(self.buffer@ + bytes);
        &&& frames == reading.frames
        &&& after.buffer@ == reading.rest
        &&& after.discarded_bytes == self.discarded_bytes + reading.discarded
        &&& after.invalid_frames == self.invalid_frames + reading.invalid
    }

    /// Two parsers keep the same bytes and have counted the same.
    pub open spec fn same(self, other: Parser) -> bool {
        &&& self.buffer@ == other.buffer@
        &&& self.discarded_bytes == other.discarded_bytes
        &&& self.invalid_frames == other.invalid_frames
    }

    /// Takes in bytes and gives out the frames that they complete.
    pub fn push(&mut self, bytes: &[u8]) -> (r: Vec<Frame>)
        requires
            old(self).wf(),
            old(self).discarded_bytes + MAX_FRAME_BYTES + bytes@.len() <= u64::MAX,
            old(self).invalid_frames + MAX_FRAME_BYTES + bytes@.len() <= u64::MAX,
        ensures
            final(self).wf(),
            old(self).takes(bytes@, r@, *final(self)),
            final(self).buffer@.len() < MAX_FRAME_BYTES,
    {
        let mut frames: Vec<Frame> = Vec::new();
        let ghost start = self.buffer@;
        let ghost discarded = self.discarded_bytes;
        let ghost invalid = self.invalid_frames;
        let mut i: usize = 0;
        proof {
            assert(start + bytes@.take(0) =~= start);
            reading_leaves_less_than_a_frame(start);
        }
        while i < bytes.len()
            invariant
                i <= bytes@.len(),
                start.len() < MAX_FRAME_BYTES,
                discarded + MAX_FRAME_BYTES + bytes@.len() <= u64::MAX,
                invalid + MAX_FRAME_BYTES + bytes@.len() <= u64::MAX,
                read(self.buffer@) == nothing(self.buffer@),
                self.buffer@.len() < MAX_FRAME_BYTES,
                read(start + bytes@.take(i as int)) == (Reading {
                    frames: frames@,
                    rest: self.buffer@,
                    discarded: (self.discarded_bytes - discarded) as nat,
                    invalid: (self.invalid_frames - invalid) as nat,
                }),
                self.discarded_bytes >= discarded,
                self.invalid_frames >= invalid,
            decreases bytes@.len() - i,
        {
            let ghost seen = start + bytes@.take(i as int);
            let ghost next = start + bytes@.take(i + 1);
            proof {
                assert(next =~= seen + seq![bytes@[i as int]]);
                reading_is_split_independent(seen, seq![bytes@[i as int]]);
                reading_accounts_for_every_byte(next);
                reading_leaves_less_than_a_frame(next);
            }
            self.buffer.push(bytes[i]);
            assert(self.buffer@ =~= read(seen).rest + seq![bytes@[i as int]]);
            self.drain(&mut frames);
            assert(read(next) =~= (Reading {
                frames: frames@,
                rest: self.buffer@,
                discarded: (self.discarded_bytes - discarded) as nat,
                invalid: (self.invalid_frames - invalid) as nat,
            }));
            i = i + 1;
        }
        assert(bytes@.take(i as int) =~= bytes@);
        frames
    }

    fn drain(&mut self, frames: &mut Vec<Frame>)
        requires
            old(self).discarded_bytes + read(old(self).buffer@).discarded <= u64::MAX,
            old(self).invalid_frames + read(old(self).buffer@).invalid <= u64::MAX,
        ensures
            ({
                let reading = read(old(self).buffer@);
                &&& final(frames)@ == old(frames)@ + reading.frames
                &&& final(self).buffer@ == reading.rest
                &&& final(self).discarded_bytes == old(self).discarded_bytes + reading.discarded
                &&& final(self).invalid_frames == old(self).invalid_frames + reading.invalid
            }),
    {
        let ghost total = read(self.buffer@);
        let ghost before = frames@;
        let ghost discarded = self.discarded_bytes;
        let ghost invalid = self.invalid_frames;
        while self.buffer.len() >= 2
            invariant_except_break
                before + total.frames == frames@ + read(self.buffer@).frames,
                total.rest == read(self.buffer@).rest,
                discarded + total.discarded == self.discarded_bytes + read(self.buffer@).discarded,
                invalid + total.invalid == self.invalid_frames + read(self.buffer@).invalid,
                discarded + total.discarded <= u64::MAX,
                invalid + total.invalid <= u64::MAX,
            ensures
                frames@ == before + total.frames,
                self.buffer@ == total.rest,
                self.discarded_bytes == discarded + total.discarded,
                self.invalid_frames == invalid + total.invalid,
            decreases self.buffer@.len(),
        {
            let ghost b = self.buffer@;
            let length = if self.buffer[0] == 0x55 {
                frame_length(self.buffer[1])
            } else {
                None
            };
            match length {
                None => {
                    assert(read(b) == chain(one_byte(0), read(b.skip(1))));
                    assert(read(b).frames =~= read(b.skip(1)).frames);
                    self.buffer.remove(0);
                    assert(self.buffer@ =~= b.skip(1));
                    self.discarded_bytes = self.discarded_bytes + 1;
                },
                Some(n) => {
                    if self.buffer.len() < n {
                        assert(read(b) == nothing(b));
                        assert(before + total.frames =~= frames@);
                        break ;
                    }
                    let tail = self.buffer.split_off(n);
                    assert(self.buffer@ =~= b.take(n as int));
                    assert(tail@ =~= b.skip(n as int));
                    match decode(self.buffer.as_slice()) {
                        Some(frame) => {
                            let ghost had = frames@;
                            frames.push(frame);
                            self.buffer = tail;
                            assert(read(b) == chain(one_frame(frame), read(b.skip(n as int))));
                            assert(had + read(b).frames =~= frames@ + read(self.buffer@).frames);
                        },
                        None => {
                            let mut rest = tail;
                            self.buffer.append(&mut rest);
                            assert(self.buffer@ =~= b);
                            assert(read(b) == chain(one_byte(1), read(b.skip(1))));
                            assert(read(b).frames =~= read(b.skip(1)).frames);
                            self.invalid_frames = self.invalid_frames + 1;
                            self.buffer.remove(0);
                            assert(self.buffer@ =~= b.skip(1));
                            self.discarded_bytes = self.discarded_bytes + 1;
                        },
                    }
                },
            }
        }
    }
}

/// Of two parsers that are the same, one may take bytes in two parts and the
/// other at once: they give the same frames in the same order, and are the same
/// afterwards.
pub proof fn parts_and_whole_give_the_same(
    p: Parser,
    q: Parser,
    a: Seq<u8>,
    b: Seq<u8>,
    first: Seq<Frame>,
    p1: Parser,
    second: Seq<Frame>,
    p2: Parser,
    whole: Seq<Frame>,
    q1: Parser,
)
    requires
        p.same(q),
        p.takes(a, first, p1),
        p1.takes(b, second, p2),
        q.takes(a + b, whole, q1),
    ensures
        first + second == whole,
        p2.same(q1),
{
    reading_is_split_independent(p.buffer@ + a, b);
    assert((p.buffer@ + a) + b =~= q.buffer@ + (a + b));
}

/// Parsers that are the same give the same for the same bytes, and stay the same.
pub proof fn same_parsers_go_on_alike(
    p: Parser,
    q: Parser,
    bytes: Seq<u8>,
    frames: Seq<Frame>,
    p1: Parser,
    others: Seq<Frame>,
    q1: Parser,
)
    requires
        p.same(q),
        p.takes(bytes, frames, p1),
        q.takes(bytes, others, q1),
    ensures
        frames == others,
        p1.same(q1),
{
}

pub open spec fn all_bytes(inputs: Seq<Seq<u8>>) -> Seq<u8>
    decreases inputs.len(),
{
    if inputs.len() == 0 {
        seq![]
    } else {
        all_bytes(inputs.drop_last()) + inputs.last()
    }
}

pub open spec fn all_frames(outputs: Seq<Seq<Frame>>) -> Seq<Frame>
    decreases outputs.len(),
{
    if outputs.len() == 0 {
        seq![]
    } else {
        all_frames(outputs.drop_last()) + outputs.last()
    }
}

/// A new parser and what reads have made of it, one after another.
pub open spec fn is_course(
    parsers: Seq<Parser>,
    inputs: Seq<Seq<u8>>,
    outputs: Seq<Seq<Frame>>,
) -> bool {
    &&& parsers.len() == inputs.len() + 1
    &&& outputs.len() == inputs.len()
    &&& parsers[0].buffer@ == Seq::<u8>::empty()
    &&& parsers[0].discarded_bytes == 0
    &&& parsers[0].invalid_frames == 0
    &&& forall|i: int|
        0 <= i < inputs.len() ==> #[trigger] parsers[i].takes(
            inputs[i],
            outputs[i],
            parsers[i + 1],
        )
}

/// Whatever reads a stream comes in, the parser has read all of it as one.
pub proof fn a_course_is_one_reading(
    parsers: Seq<Parser>,
    inputs: Seq<Seq<u8>>,
    outputs: Seq<Seq<Frame>>,
)
    requires
        is_course(parsers, inputs, outputs),
    ensures
        ({
            let reading = read(all_bytes(inputs));
            &&& all_frames(outputs) == reading.frames
            &&& parsers.last().buffer@ == reading.rest
            &&& parsers.last().discarded_bytes == reading.discarded
            &&& parsers.last().invalid_frames == reading.invalid
        }),
    decreases inputs.len(),
{
    let n = inputs.len() as int;
    if n > 0 {
        let ps = parsers.drop_last();
        let is = inputs.drop_last();
        let os = outputs.drop_last();
        assert forall|i: int| 0 <= i < is.len() implies #[trigger] ps[i].takes(
            is[i],
            os[i],
            ps[i + 1],
        ) by {
            assert(parsers[i].takes(inputs[i], outputs[i], parsers[i + 1]));
        }
        a_course_is_one_reading(ps, is, os);
        assert(parsers[n - 1].takes(inputs[n - 1], outputs[n - 1], parsers[n - 1 + 1]));
        reading_is_split_independent(all_bytes(is), inputs.last());
    } else {
        assert(read(Seq::<u8>::empty()) == nothing(Seq::<u8>::empty()));
    }
}

/// However many reads a new parser has taken in: every byte is part of a frame
/// that it has given, was counted as discarded, or is one of at most 29 that it
/// keeps. No more frames than bytes were passed over, and the counters never go
/// back.
pub proof fn a_course_accounts_for_every_byte(
    parsers: Seq<Parser>,
    inputs: Seq<Seq<u8>>,
    outputs: Seq<Seq<Frame>>,
)
    requires
        is_course(parsers, inputs, outputs),
    ensures
        0 <= all_bytes(inputs).len() - parsers.last().discarded_bytes - wire_bytes(
            all_frames(outputs),
        ) <= 29,
        all_bytes(inputs).len() - parsers.last().discarded_bytes - wire_bytes(all_frames(outputs))
            == parsers.last().buffer@.len(),
        parsers.last().invalid_frames <= parsers.last().discarded_bytes,
        forall|i: int|
            0 <= i < inputs.len() ==> {
                &&& (#[trigger] parsers[i]).discarded_bytes <= parsers[i + 1].discarded_bytes
                &&& parsers[i].invalid_frames <= parsers[i + 1].invalid_frames
            },
{
    a_course_is_one_reading(parsers, inputs, outputs);
    reading_accounts_for_every_byte(all_bytes(inputs));
    reading_leaves_less_than_a_frame(all_bytes(inputs));
    assert forall|i: int| 0 <= i < inputs.len() implies {
        &&& (#[trigger] parsers[i]).discarded_bytes <= parsers[i + 1].discarded_bytes
        &&& parsers[i].invalid_frames <= parsers[i + 1].invalid_frames
    } by {
        assert(parsers[i].takes(inputs[i], outputs[i], parsers[i + 1]));
    }
}

/// Opens the registers for writing.
pub const UNLOCK: [u8; 5] = [0xff, 0xaa, 0x69, 0x88, 0xb5];

/// The command that writes `value` to a register.
pub open spec fn write_bytes(address: u8, value: u16) -> [u8; 5] {
    [0xff, 0xaa, address, (value % 256) as u8, (value / 256) as u8]
}

/// The command that asks for eight registers from `address` on.
pub fn read_register(address: u16) -> (r: [u8; 5])
    ensures
        r == write_bytes(0x27, address),
{
    [0xff, 0xaa, 0x27, (address % 256) as u8, (address / 256) as u8]
}

pub fn write_register(address: u8, value: u16) -> (r: [u8; 5])
    ensures
        r == write_bytes(address, value),
{
    [0xff, 0xaa, address, (value % 256) as u8, (value / 256) as u8]
}

/// The rate register's value for a rate in hertz.
pub open spec fn rate_code(hz: u32) -> Option<u16> {
    if hz == 1 {
        Some(0x03)
    } else if hz == 2 {
        Some(0x04)
    } else if hz == 5 {
        Some(0x05)
    } else if hz == 10 {
        Some(0x06)
    } else if hz == 20 {
        Some(0x07)
    } else if hz == 50 {
        Some(0x08)
    } else if hz == 100 {
        Some(0x09)
    } else if hz == 200 {
        Some(0x0b)
    } else {
        None
    }
}

/// The register and the value that carry a command out; `None` for a rate that
/// the device does not have.
pub open spec fn register_of(command: DeviceCommand) -> Option<(u8, u16)> {
    match command {
        DeviceCommand::Rate { hz } => match rate_code(hz) {
            Some(v) => Some((0x03u8, v)),
            None => None,
        },
        DeviceCommand::Output { format } => Some((0x0eu8, format.spec_code())),
        DeviceCommand::AccelCalibrate => Some((0x01u8, 0x01u16)),
        DeviceCommand::MagStart => Some((0x01u8, 0x07u16)),
        DeviceCommand::MagStop => Some((0x01u8, 0x00u16)),
        DeviceCommand::Save => Some((0x00u8, 0x00u16)),
        DeviceCommand::Algorithm { mode } => Some((0x24u8, mode.spec_code())),
        DeviceCommand::ZeroYaw => Some((0x01u8, 0x04u16)),
        DeviceCommand::AngleReference => Some((0x01u8, 0x08u16)),
        DeviceCommand::ResetDefaults => Some((0x00u8, 0x01u16)),
    }
}

pub fn command_register(command: &DeviceCommand) -> (r: Result<(u8, u16), Error>)
    ensures
        match register_of(*command) {
            Some(pair) => r == Ok::<(u8, u16), Error>(pair),
            None => r matches Err(e) && e.is_invalid(
                "supported device rates: 1, 2, 5, 10, 20, 50, 100, 200 Hz"@,
            ),
        },
{
    Ok(
        match command {
            DeviceCommand::Rate { hz } => {
                let value: u16 = match *hz {
                    1 => 0x03,
                    2 => 0x04,
                    5 => 0x05,
                    10 => 0x06,
                    20 => 0x07,
                    50 => 0x08,
                    100 => 0x09,
                    200 => 0x0b,
                    _ => {
                        return Err(
                            Error::invalid(
                                "supported device rates: 1, 2, 5, 10, 20, 50, 100, 200 Hz",
                            ),
                        );
                    },
                };
                (0x03, value)
            },
            DeviceCommand::Output { format } => (0x0e, format.code()),
            DeviceCommand::AccelCalibrate => (0x01, 0x01),
            DeviceCommand::MagStart => (0x01, 0x07),
            DeviceCommand::MagStop => (0x01, 0x00),
            DeviceCommand::Save => (0x00, 0x00),
            DeviceCommand::Algorithm { mode } => (0x24, mode.code()),
            DeviceCommand::ZeroYaw => (0x01, 0x04),
            DeviceCommand::AngleReference => (0x01, 0x08),
            DeviceCommand::ResetDefaults => (0x00, 0x01),
        },
    )
}

/// A count as the device sends it: two's complement, low byte first.
pub open spec fn spelled(v: i16) -> Seq<u8> {
    let n = if v < 0 {
        v + 65536
    } else {
        v as int
    };
    seq![(n % 256) as u8, (n / 256) as u8]
}

pub open spec fn spelled_all(v: Seq<i16>) -> Seq<u8>
    decreases v.len(),
{
    if v.len() == 0 {
        seq![]
    } else {
        spelled_all(v.drop_last()) + spelled(v.last())
    }
}

proof fn lemma_spelled_all(v: Seq<i16>)
    ensures
        spelled_all(v).len() == 2 * v.len(),
        forall|i: int| 0 <= i < v.len() ==> word_at(spelled_all(v), 2 * i) == #[trigger] v[i],
    decreases v.len(),
{
    if v.len() > 0 {
        let front = v.drop_last();
        lemma_spelled_all(front);
        let b = spelled_all(v);
        let n = front.len() as int;
        assert forall|i: int| 0 <= i < v.len() implies word_at(b, 2 * i) == #[trigger] v[i] by {
            if i < n {
                assert(front[i] == v[i]);
                assert(b[2 * i] == spelled_all(front)[2 * i]);
                assert(b[2 * i + 1] == spelled_all(front)[2 * i + 1]);
            } else {
                assert(b[2 * n] == spelled(v.last())[0]);
                assert(b[2 * n + 1] == spelled(v.last())[1]);
            }
        }
    }
}

/// The words of a run of words stay where they are behind a head.
proof fn lemma_words_behind(b: Seq<u8>, at: int, v: Seq<i16>)
    requires
        0 <= at,
        at + 2 * v.len() <= b.len(),
        b.subrange(at, at + 2 * v.len()) == spelled_all(v),
    ensures
        forall|i: int| 0 <= i < v.len() ==> word_at(b, at + 2 * i) == #[trigger] v[i],
{
    lemma_spelled_all(v);
    let s = b.subrange(at, at + 2 * v.len());
    assert forall|i: int| 0 <= i < v.len() implies word_at(b, at + 2 * i) == #[trigger] v[i] by {
        assert(word_at(spelled_all(v), 2 * i) == v[i]);
        assert(b[at + 2 * i] == s[2 * i]);
        assert(b[at + 2 * i + 1] == s[2 * i + 1]);
    }
}

/// A motion frame as the device sends it: acceleration, angular velocity and
/// Euler angles, each along x, y and z.
pub open spec fn motion_bytes(
    acceleration: [i16; 3],
    angular_velocity: [i16; 3],
    euler_xyz: [i16; 3],
) -> Seq<u8> {
    seq![0x55u8, 0x61u8] + spelled_all(acceleration@) + spelled_all(angular_velocity@)
        + spelled_all(euler_xyz@)
}

/// The readings of a motion frame come back as the device has sent them, each
/// along its own axis.
pub proof fn motion_frames_read_back(
    acceleration: [i16; 3],
    angular_velocity: [i16; 3],
    euler_xyz: [i16; 3],
)
    ensures
        ({
            let b = motion_bytes(acceleration, angular_velocity, euler_xyz);
            &&& announced(b) == Some(b.len() as int)
            &&& decoded(b) == Some(Frame::Motion { acceleration, angular_velocity, euler_xyz })
        }),
{
    let b = motion_bytes(acceleration, angular_velocity, euler_xyz);
    lemma_spelled_all(acceleration@);
    lemma_spelled_all(angular_velocity@);
    lemma_spelled_all(euler_xyz@);
    assert(b.subrange(2, 8) =~= spelled_all(acceleration@));
    assert(b.subrange(8, 14) =~= spelled_all(angular_velocity@));
    assert(b.subrange(14, 20) =~= spelled_all(euler_xyz@));
    lemma_triple(b, 2, acceleration);
    lemma_triple(b, 8, angular_velocity);
    lemma_triple(b, 14, euler_xyz);
}

proof fn lemma_triple(b: Seq<u8>, at: int, v: [i16; 3])
    requires
        0 <= at,
        at + 6 <= b.len(),
        b.subrange(at, at + 6) == spelled_all(v@),
    ensures
        [word_at(b, at), word_at(b, at + 2), word_at(b, at + 4)] == v,
{
    lemma_words_behind(b, at, v@);
    assert(v@[0] == v[0] && v@[1] == v[1] && v@[2] == v[2]);
    assert([word_at(b, at), word_at(b, at + 2), word_at(b, at + 4)] =~= v);
}

proof fn lemma_quadruple(b: Seq<u8>, at: int, v: [i16; 4])
    requires
        0 <= at,
        at + 8 <= b.len(),
        b.subrange(at, at + 8) == spelled_all(v@),
    ensures
        [word_at(b, at), word_at(b, at + 2), word_at(b, at + 4), word_at(b, at + 6)] == v,
{
    lemma_words_behind(b, at, v@);
    assert(v@[0] == v[0] && v@[1] == v[1] && v@[2] == v[2] && v@[3] == v[3]);
    assert([word_at(b, at), word_at(b, at + 2), word_at(b, at + 4), word_at(b, at + 6)] =~= v);
}

/// A register reply as the device sends it.
pub open spec fn register_bytes(address: u16, values: [i16; 8]) -> Seq<u8> {
    seq![0x55u8, 0x71u8, (address % 256) as u8, (address / 256) as u8] + spelled_all(values@)
}

/// A register reply comes back with its address and its eight words, in order.
pub proof fn register_replies_read_back(address: u16, values: [i16; 8])
    ensures
        ({
            let b = register_bytes(address, values);
            &&& announced(b) == Some(b.len() as int)
            &&& decoded(b) == Some(Frame::Registers { address, values })
        }),
{
    let b = register_bytes(address, values);
    lemma_spelled_all(values@);
    assert(b.subrange(4, 20) =~= spelled_all(values@));
    lemma_words_behind(b, 4, values@);
    assert(values@[0] == values[0] && values@[1] == values[1] && values@[2] == values[2]
        && values@[3] == values[3] && values@[4] == values[4] && values@[5] == values[5]
        && values@[6] == values[6] && values@[7] == values[7]);
    let read = decoded(b)->0->Registers_values;
    assert(read =~= values);
    assert(b[2] + 256 * b[3] == address);
}

/// The fields of a stream frame, those that are there.
pub struct StreamFields {
    /// Year, month, day, hour, minute, second and millisecond word.
    pub stamp: Option<[u8; 8]>,
    pub acceleration: Option<[i16; 3]>,
    pub angular_velocity: Option<[i16; 3]>,
    pub euler_xyz: Option<[i16; 3]>,
    pub quaternion_wxyz: Option<[i16; 4]>,
}

impl StreamFields {
    /// The fields that the device sends under a profile.
    pub open spec fn belong_to(self, profile: u8) -> bool {
        &&& self.stamp is Some <==> (profile == 0x81 || profile == 0x84 || profile == 0xa4
            || profile == 0xe4)
        &&& self.acceleration is Some <==> profile == 0xe4
        &&& self.angular_velocity is Some <==> (profile == 0xa4 || profile == 0xe4)
        &&& self.euler_xyz is Some <==> (profile == 0x01 || profile == 0x81)
        &&& self.quaternion_wxyz is Some <==> (profile == 0x04 || profile == 0x84 || profile == 0xa4
            || profile == 0xe4)
        &&& profile == 0x01 || profile == 0x04 || profile == 0x81 || profile == 0x84 || profile
            == 0xa4 || profile == 0xe4
    }

    /// A stream frame as the device sends it: header, time, acceleration, angular
    /// velocity, and Euler angles or quaternion.
    pub open spec fn bytes(self, profile: u8) -> Seq<u8> {
        let stamp = match self.stamp {
            Some(t) => t@,
            None => seq![],
        };
        let acceleration = match self.acceleration {
            Some(v) => spelled_all(v@),
            None => seq![],
        };
        let angular_velocity = match self.angular_velocity {
            Some(v) => spelled_all(v@),
            None => seq![],
        };
        let euler = match self.euler_xyz {
            Some(v) => spelled_all(v@),
            None => seq![],
        };
        let quaternion = match self.quaternion_wxyz {
            Some(v) => spelled_all(v@),
            None => seq![],
        };
        seq![0x55u8, profile] + stamp + acceleration + angular_velocity + euler + quaternion
    }
}

/// The fields of a stream frame come back as the device has sent them, the time
/// in milliseconds since 2000, and no field that was not in the frame. Only a
/// time that does not exist and a quaternion that is not of about unit length
/// are refused.
pub proof fn stream_frames_read_back(profile: u8, f: StreamFields)
    requires
        f.belong_to(profile),
    ensures
        ({
            let b = f.bytes(profile);
            let exists_in_time = f.stamp is Some ==> calendar_valid(f.stamp->0@);
            let unit = f.quaternion_wxyz is Some ==> near_unit(f.quaternion_wxyz->0);
            &&& announced(b) == Some(b.len() as int)
            &&& decoded(b) == (if exists_in_time && unit {
                Some(
                    Frame::Stream {
                        profile,
                        acceleration: f.acceleration,
                        sample_time_ms: match f.stamp {
                            Some(t) => Some(calendar_ms(t@) as u64),
                            None => None,
                        },
                        angular_velocity: f.angular_velocity,
                        euler_xyz: f.euler_xyz,
                        quaternion_wxyz: f.quaternion_wxyz,
                    },
                )
            } else {
                None
            })
        }),
{
    let b = f.bytes(profile);
    if let Some(v) = f.acceleration {
        lemma_spelled_all(v@);
    }
    if let Some(v) = f.angular_velocity {
        lemma_spelled_all(v@);
    }
    if let Some(v) = f.euler_xyz {
        lemma_spelled_all(v@);
    }
    if let Some(v) = f.quaternion_wxyz {
        lemma_spelled_all(v@);
    }
    if profile == 0x01 {
        assert(b.subrange(2, 8) =~= spelled_all(f.euler_xyz->0@));
        lemma_triple(b, 2, f.euler_xyz->0);
    } else if profile == 0x04 {
        assert(b.subrange(2, 10) =~= spelled_all(f.quaternion_wxyz->0@));
        lemma_quadruple(b, 2, f.quaternion_wxyz->0);
    } else {
        assert(b.subrange(2, 10) =~= f.stamp->0@);
        if profile == 0x81 {
            assert(b.subrange(10, 16) =~= spelled_all(f.euler_xyz->0@));
            lemma_triple(b, 10, f.euler_xyz->0);
        } else if profile == 0x84 {
            assert(b.subrange(10, 18) =~= spelled_all(f.quaternion_wxyz->0@));
            lemma_quadruple(b, 10, f.quaternion_wxyz->0);
        } else if profile == 0xa4 {
            assert(b.subrange(10, 16) =~= spelled_all(f.angular_velocity->0@));
            lemma_triple(b, 10, f.angular_velocity->0);
            assert(b.subrange(16, 24) =~= spelled_all(f.quaternion_wxyz->0@));
            lemma_quadruple(b, 16, f.quaternion_wxyz->0);
        } else {
            assert(b.subrange(10, 16) =~= spelled_all(f.acceleration->0@));
            lemma_triple(b, 10, f.acceleration->0);
            assert(b.subrange(16, 22) =~= spelled_all(f.angular_velocity->0@));
            lemma_triple(b, 16, f.angular_velocity->0);
            assert(b.subrange(22, 30) =~= spelled_all(f.quaternion_wxyz->0@));
            lemma_quadruple(b, 22, f.quaternion_wxyz->0);
        }
    }
}

/// A byte after 0x55 that is the flag of no frame opens none.
pub proof fn only_known_flags_open_frames(b: Seq<u8>)
    requires
        b.len() >= 2,
    ensures
        announced(b) is Some <==> b[0] == 0x55 && (b[1] == 0x61 || b[1] == 0x71 || b[1] == 0x01
            || b[1] == 0x04 || b[1] == 0x81 || b[1] == 0x84 || b[1] == 0xa4 || b[1] == 0xe4),
{
}

/// A whole frame, as the device sends one, that says something.
pub open spec fn is_frame(b: Seq<u8>) -> bool {
    b.len() >= 2 && announced(b) == Some(b.len() as int) && decoded(b) is Some
}

/// Frames that come in a row are all read, in order, and nothing is left over or
/// passed over.
pub proof fn frames_in_a_row_are_all_read(frames: Seq<Seq<u8>>)
    requires
        forall|i: int| 0 <= i < frames.len() ==> is_frame(#[trigger] frames[i]),
    ensures
        ({
            let r = read(all_bytes(frames));
            &&& r.frames.len() == frames.len()
            &&& forall|i: int|
                0 <= i < frames.len() ==> #[trigger] r.frames[i] == decoded(frames[i])->0
            &&& r.rest.len() == 0
            &&& r.discarded == 0
            &&& r.invalid == 0
        }),
    decreases frames.len(),
{
    if frames.len() > 0 {
        let front = frames.drop_last();
        let last = frames.last();
        assert forall|i: int| 0 <= i < front.len() implies is_frame(#[trigger] front[i]) by {
            assert(front[i] == frames[i]);
        }
        frames_in_a_row_are_all_read(front);
        assert(is_frame(frames[frames.len() - 1]));
        reading_is_split_independent(all_bytes(front), last);
        let rest = read(all_bytes(front)).rest;
        assert(rest + last =~= last);
        frame_is_found_after_noise(seq![], last);
        assert(Seq::<u8>::empty() + last =~= last);
        let r = read(all_bytes(frames));
        assert forall|i: int| 0 <= i < frames.len() implies #[trigger] r.frames[i] == decoded(
            frames[i],
        )->0 by {
            if i < front.len() {
                assert(read(all_bytes(front)).frames[i] == decoded(front[i])->0);
            }
        }
    } else {
        assert(read(Seq::<u8>::empty()) == nothing(Seq::<u8>::empty()));
    }
}

/// Which component of a quaternion is which, and its signs, make no difference
/// to whether it is of about unit length.
pub proof fn unit_length_is_symmetric(w: i16, x: i16, y: i16, z: i16)
    requires
        w > i16::MIN,
    ensures
        near_unit([w, x, y, z]) == near_unit([x, w, y, z]),
        near_unit([w, x, y, z]) == near_unit([w, y, x, z]),
        near_unit([w, x, y, z]) == near_unit([w, x, z, y]),
        near_unit([w, x, y, z]) == near_unit([(-w) as i16, x, y, z]),
{
    assert((-w) * (-w) == w * w) by (nonlinear_arith);
}

/// A quaternion is of about unit length from nine tenths of full scale on, and
/// up to eleven tenths.
pub proof fn unit_length_is_within_a_tenth(c: i16)
    ensures
        near_unit([c, 0, 0, 0]) <==> c <= -29492 || c >= 29492,
        near_unit([c, c, c, c]) <==> 14746 <= c <= 18022 || -18022 <= c <= -14746,
{
    assert(0 <= c * c <= 0x4000_0000) by (nonlinear_arith)
        requires
            -32768 <= c <= 32767,
    ;
    let q = [c, 0i16, 0i16, 0i16];
    assert(q[0] == c && q[1] == 0 && q[2] == 0 && q[3] == 0);
    assert(q[1] * q[1] == 0 && q[2] * q[2] == 0 && q[3] * q[3] == 0) by (nonlinear_arith)
        requires
            q[1] == 0,
            q[2] == 0,
            q[3] == 0,
    ;
    assert(near_unit(q) <==> 81 * 0x4000_0000 <= 100 * (c * c));
    assert(c * c >= 29492 * 29492 <==> c <= -29492 || c >= 29492) by (nonlinear_arith);
    assert(c * c >= 14746 * 14746 <==> c <= -14746 || c >= 14746) by (nonlinear_arith);
    assert(c * c <= 18022 * 18022 <==> -18022 <= c <= 18022) by (nonlinear_arith);
    assert(c * c <= 29491 * 29491 <==> -29491 <= c <= 29491) by (nonlinear_arith);
    assert(c * c <= 14745 * 14745 <==> -14745 <= c <= 14745) by (nonlinear_arith);
    assert(c * c >= 18023 * 18023 <==> c <= -18023 || c >= 18023) by (nonlinear_arith);
}

/// A stamp with one of its fields replaced.
pub open spec fn restamped(b: Seq<u8>, field: int, value: u8) -> Seq<u8> {
    b.update(field, value)
}

/// How many days the months of the Gregorian calendar have.
pub open spec fn gregorian_days(year: int, month: int) -> int {
    let leap_year = (year % 4 == 0 && year % 100 != 0) || year % 400 == 0;
    seq![
        31int,
        if leap_year {
            29int
        } else {
            28int
        },
        31int,
        30int,
        31int,
        30int,
        31int,
        31int,
        30int,
        31int,
        30int,
        31int,
    ][month - 1]
}

/// A stamp is accepted if its date exists and its time of day does.
pub proof fn stamps_are_real_moments(b: Seq<u8>)
    requires
        b.len() == 8,
    ensures
        calendar_valid(b) <==> {
            &&& 1 <= b[1] <= 12
            &&& 1 <= b[2] <= gregorian_days(2000 + b[0], b[1] as int)
            &&& b[3] < 24
            &&& b[4] < 60
            &&& b[5] < 60
            &&& 256 * b[7] + b[6] < 1000
        },
{
}

/// What each field of a stamp is worth: a millisecond, a second, a minute, an
/// hour, a day, a month of its own length, a year of 365 or 366 days.
pub proof fn stamps_count_milliseconds(b: Seq<u8>)
    requires
        b.len() == 8,
        1 <= b[1] <= 11,
        b[0] < 255,
        b[2] < 255,
        b[3] < 255,
        b[4] < 255,
        b[5] < 255,
        b[6] < 255,
        b[7] < 255,
    ensures
        calendar_ms(restamped(b, 6, (b[6] + 1) as u8)) == calendar_ms(b) + 1,
        calendar_ms(restamped(b, 7, (b[7] + 1) as u8)) == calendar_ms(b) + 256,
        calendar_ms(restamped(b, 5, (b[5] + 1) as u8)) == calendar_ms(b) + 1_000,
        calendar_ms(restamped(b, 4, (b[4] + 1) as u8)) == calendar_ms(b) + 60_000,
        calendar_ms(restamped(b, 3, (b[3] + 1) as u8)) == calendar_ms(b) + 3_600_000,
        calendar_ms(restamped(b, 2, (b[2] + 1) as u8)) == calendar_ms(b) + 86_400_000,
        calendar_ms(restamped(b, 1, (b[1] + 1) as u8)) == calendar_ms(b) + gregorian_days(
            2000 + b[0],
            b[1] as int,
        ) * 86_400_000,
        b[1] == 1 ==> calendar_ms(restamped(b, 0, (b[0] + 1) as u8)) == calendar_ms(b) + (
        if gregorian_days(2000 + b[0], 2) == 29 {
            366int
        } else {
            365int
        }) * 86_400_000,
        b =~= seq![0, 1, 1, 0, 0, 0, 0, 0] ==> calendar_ms(b) == 0,
{
    let year = 2000 + b[0];
    let month = b[1] as int;
    assert(days_before_month(year, month + 1) == days_before_month(year, month) + month_days(
        year,
        month,
    ));
    assert(days_before_year(year + 1) == days_before_year(year) + (if leap(year) {
        366
    } else {
        365int
    }));
    assert(gregorian_days(year, 2) == 29 <==> leap(year));
    assert(gregorian_days(year, month) == month_days(year, month));
    assert(days_before_month(year, 1) == 0 && days_before_month(year + 1, 1) == 0);
}

/// What a register command holds: the register, and the value, low byte first.
pub proof fn commands_spell_register_and_value(address: u8, value: u16)
    ensures
        ({
            let b = write_bytes(address, value);
            &&& b[0] == 0xff && b[1] == 0xaa
            &&& b[2] == address
            &&& b[3] + 256 * b[4] == value
        }),
{
}

/// The vendor's rates, in hertz, from register value 3 on; value 10 is no rate.
pub open spec fn vendor_rates() -> Seq<Option<u32>> {
    seq![
        Some(1u32),
        Some(2u32),
        Some(5u32),
        Some(10u32),
        Some(20u32),
        Some(50u32),
        Some(100u32),
        None::<u32>,
        Some(200u32),
    ]
}

/// A rate is written as the register value under which the vendor lists it, and
/// a rate that is not listed is refused.
pub proof fn rates_are_the_vendors(hz: u32)
    ensures
        rate_code(hz) matches Some(code) ==> 3 <= code <= 11 && vendor_rates()[code - 3] == Some(
            hz,
        ),
        rate_code(hz) is None ==> forall|i: int|
            0 <= i < 9 ==> #[trigger] vendor_rates()[i] != Some(hz),
        register_of(DeviceCommand::Rate { hz }) == (match rate_code(hz) {
            Some(code) => Some((3u8, code)),
            None => None,
        }),
{
    let v = vendor_rates();
    assert(v[0] == Some(1u32) && v[1] == Some(2u32) && v[2] == Some(5u32) && v[3] == Some(10u32)
        && v[4] == Some(20u32) && v[5] == Some(50u32) && v[6] == Some(100u32) && v[7] is None
        && v[8] == Some(200u32));
}

/// A higher rate has a higher register value.
pub proof fn higher_rates_have_higher_codes(slow: u32, fast: u32)
    requires
        slow < fast,
        rate_code(slow) is Some,
        rate_code(fast) is Some,
    ensures
        rate_code(slow)->0 < rate_code(fast)->0,
{
}

/// An output profile is selected by the flag that its frames then carry, and its
/// frames hold what its name says.
pub proof fn profiles_are_selected_by_their_flag(profile: OutputProfile, f: StreamFields)
    ensures
        ({
            let (address, code) = register_of(DeviceCommand::Output { format: profile })->0;
            &&& register_of(DeviceCommand::Output { format: profile }) is Some
            &&& address == 0x0e
            &&& code < 256
            &&& length_of(code as u8) is Some
            &&& code as u8 == 0x61 <==> profile == OutputProfile::Motion
            &&& f.belong_to(code as u8) ==> {
                &&& f.stamp is Some
                &&& f.acceleration is Some <==> profile
                    == OutputProfile::ExperimentalFullInertial20Hz
                &&& f.angular_velocity is Some <==> profile
                    == OutputProfile::ExperimentalFullInertial20Hz || profile
                    == OutputProfile::TimestampGyroQuaternion
                &&& f.euler_xyz is Some <==> profile == OutputProfile::TimestampEuler
                &&& f.quaternion_wxyz is Some <==> profile != OutputProfile::TimestampEuler
            }
        }),
{
}

/// No two commands write the same value to the same register.
pub proof fn commands_differ_in_what_they_write(a: DeviceCommand, b: DeviceCommand)
    requires
        register_of(a) is Some,
        register_of(a) == register_of(b),
    ensures
        a == b,
{
}

/// The calibration switch, register 1, starts accelerometer calibration with 1
/// and magnetic calibration with 7, ends it with 0, zeroes the yaw with 4 and
/// sets the angle reference with 8. Register 0 saves with 0 and restores the
/// defaults with 1. The algorithm register is 0x24.
pub proof fn commands_write_their_registers(command: DeviceCommand)
    requires
        !(command is Rate),
        !(command is Output),
    ensures
        register_of(command) is Some,
        ({
            let (address, value) = register_of(command)->0;
            &&& address == 0x01 <==> command is AccelCalibrate || command is MagStart || command
                is MagStop || command is ZeroYaw || command is AngleReference
            &&& address == 0x00 <==> command is Save || command is ResetDefaults
            &&& address == 0x24 <==> command is Algorithm
            &&& command is AccelCalibrate ==> value == 1
            &&& command is MagStart ==> value == 7
            &&& command is MagStop ==> value == 0
            &&& command is ZeroYaw ==> value == 4
            &&& command is AngleReference ==> value == 8
            &&& command is Save ==> value == 0
            &&& command is ResetDefaults ==> value == 1
            &&& command == (DeviceCommand::Algorithm { mode: AlgorithmMode::NineAxis }) ==> value
                == 0
            &&& command == (DeviceCommand::Algorithm { mode: AlgorithmMode::SixAxis }) ==> value
                == 1
        }),
{
}

/// Whether a quaternion is of about unit length rests on the sum of the squares
/// of its components alone.
pub proof fn unit_length_is_by_the_sum_of_squares(p: [i16; 4], q: [i16; 4])
    requires
        p[0] * p[0] + p[1] * p[1] + p[2] * p[2] + p[3] * p[3] == q[0] * q[0] + q[1] * q[1] + q[2]
            * q[2] + q[3] * q[3],
    ensures
        near_unit(p) == near_unit(q),
{
}

/// How a stream is read from any point: a byte that opens no frame is passed over
/// alone, a frame that is not complete is waited for, one that says something is
/// taken whole, and one that says nothing costs its first byte only.
pub proof fn streams_are_read_step_by_step(b: Seq<u8>)
    requires
        b.len() >= 2,
    ensures
        announced(b) is None ==> {
            &&& read(b).frames == read(b.skip(1)).frames
            &&& read(b).discarded == read(b.skip(1)).discarded + 1
            &&& read(b).invalid == read(b.skip(1)).invalid
        },
        announced(b) is Some && b.len() < announced(b)->0 ==> {
            &&& read(b).frames.len() == 0
            &&& read(b).rest == b
            &&& read(b).discarded == 0
        },
        announced(b) is Some && b.len() >= announced(b)->0 && decoded(b.take(announced(b)->0))
            is Some ==> {
            &&& read(b).frames.len() == read(b.skip(announced(b)->0)).frames.len() + 1
            &&& read(b).frames[0] == decoded(b.take(announced(b)->0))->0
            &&& read(b).discarded == read(b.skip(announced(b)->0)).discarded
        },
        announced(b) is Some && b.len() >= announced(b)->0 && decoded(b.take(announced(b)->0))
            is None ==> {
            &&& read(b).frames == read(b.skip(1)).frames
            &&& read(b).discarded == read(b.skip(1)).discarded + 1
            &&& read(b).invalid == read(b.skip(1)).invalid + 1
        },
{
    assert(Seq::<Frame>::empty() + read(b.skip(1)).frames =~= read(b.skip(1)).frames);
}

/// To unlock is to write 0xb588 to register 0x69, which no command does.
pub proof fn unlocking_is_a_write_of_its_own(command: DeviceCommand)
    requires
        register_of(command) is Some,
    ensures
        UNLOCK == write_bytes(0x69, 0xb588),
        (register_of(command)->0).0 != 0x69,
{
    assert(UNLOCK =~= write_bytes(0x69, 0xb588));
}

} // verus!
