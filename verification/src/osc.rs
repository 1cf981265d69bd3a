//! OSC datagrams: their bytes, and when they are sent.

use crate::model::{
    validate_rate, ConnectionState, Error, OscConfig, OscFormat,
    PoseSnapshot, PROTOCOL_VERSION,
};
use crate::number::{units, Number};
use crate::single::{is_nearest, rounding_is_a_function, SINGLE_INFINITY};
use vstd::prelude::*;
use vstd::utf8::encode_utf8;

verus! {

pub const QUATERNION_ADDRESS: &'static str = "/posebridge/quaternion";

pub const EULER_ADDRESS: &'static str = "/posebridge/euler";

pub const INFO_ADDRESS: &'static str = "/posebridge/info";

pub const STATUS_ADDRESS: &'static str = "/posebridge/status";

/// The longest datagram that is sent.
pub const MAX_DATAGRAM_BYTES: usize = 8192;

/// The largest value of a 64-bit field.
pub const MAX_LONG: u64 = 0x7FFF_FFFF_FFFF_FFFF;

pub const INFO_INTERVAL_NS: u64 = 5_000_000_000;

pub const STATUS_INTERVAL_NS: u64 = 1_000_000_000;

/// One argument of a message.
#[derive(Debug)]
pub enum Argument {
    Int(i32),
    Text(String),
    Long(i64),
}

/// Bytes with at least one and at most four zero bytes behind them, up to a
/// multiple of four.
pub open spec fn terminated(b: Seq<u8>) -> Seq<u8> {
    b + Seq::new((4 - b.len() % 4) as nat, |i: int| 0u8)
}

/// The four bytes of a word, most significant first.
pub open spec fn word_bytes(v: int) -> Seq<u8> {
    seq![
        ((v / 0x100_0000) % 256) as u8,
        ((v / 0x1_0000) % 256) as u8,
        ((v / 0x100) % 256) as u8,
        (v % 256) as u8,
    ]
}

/// A number without its sign, as two's complement of 32 bits.
pub open spec fn low_word(v: i32) -> int {
    if v < 0 {
        v + 0x1_0000_0000
    } else {
        v as int
    }
}

pub open spec fn long_bytes(v: i64) -> Seq<u8> {
    let n = if v < 0 {
        v + 0x1_0000_0000_0000_0000
    } else {
        v as int
    };
    word_bytes(n / 0x1_0000_0000) + word_bytes(n % 0x1_0000_0000)
}

pub open spec fn argument_tag(a: Argument) -> u8 {
    match a {
        Argument::Int(_) => 0x69,
        Argument::Text(_) => 0x73,
        Argument::Long(_) => 0x68,
    }
}

pub open spec fn argument_bytes(a: Argument) -> Seq<u8> {
    match a {
        Argument::Int(v) => word_bytes(low_word(v)),
        Argument::Text(s) => terminated(encode_utf8(s@)),
        Argument::Long(v) => long_bytes(v),
    }
}

pub open spec fn tags(args: Seq<Argument>) -> Seq<u8> {
    seq![0x2cu8] + Seq::new(args.len(), |i: int| argument_tag(args[i]))
}

pub open spec fn data(args: Seq<Argument>) -> Seq<u8>
    decreases args.len(),
{
    if args.len() == 0 {
        seq![]
    } else {
        data(args.drop_last()) + argument_bytes(args.last())
    }
}

/// An OSC 1.0 message: address, comma and type tags, arguments.
pub open spec fn message_bytes(address: Seq<char>, args: Seq<Argument>) -> Seq<u8> {
    terminated(encode_utf8(address)) + terminated(tags(args)) + data(args)
}

/// `rosc::encoder::encode` on one message. For a message of 32-bit and 64-bit
/// integers and strings it gives the message's OSC 1.0 bytes, and no error:
/// writing to a vector cannot fail.
#[verifier::external_body]
fn encode_message(address: &str, args: Vec<Argument>) -> (r: Result<Vec<u8>, Error>)
    ensures
        r is Ok,
        (r->Ok_0)@ == message_bytes(address@, args@),
{
    let converted = args.into_iter().map(|a| match a {
        Argument::Int(v) => rosc::OscType::Int(v),
        Argument::Text(s) => rosc::OscType::String(s),
        Argument::Long(v) => rosc::OscType::Long(v),
    }).collect();
    rosc::encoder::encode(&rosc::OscPacket::Message(rosc::OscMessage {
        addr: address.to_string(),
        args: converted,
    })).map_err(|e| Error::Protocol(e.to_string()))
}

/// A number fits a field of 64 signed bits.
pub open spec fn is_long(v: u64) -> bool {
    v <= MAX_LONG
}

/// The integer fields of a pose message, after the source.
pub open spec fn header(pose: PoseSnapshot, tx_sequence: u64, age_ns: u64) -> Seq<u64> {
    seq![
        pose.instance_id,
        pose.session_id,
        pose.sequence,
        tx_sequence,
        pose.reference_epoch,
        pose.metadata_revision,
        pose.received_ns,
        age_ns,
        match pose.sample_time {
            Some(t) => t.time_ms,
            None => 0,
        },
        match pose.sample_time {
            Some(t) => t.clock_epoch,
            None => 0,
        },
    ]
}

/// The values of a pose message.
pub open spec fn pose_values(pose: PoseSnapshot, format: OscFormat) -> Seq<Number> {
    match format {
        OscFormat::Quaternion => pose.quaternion_xyzw@,
        OscFormat::Euler => pose.euler_deg@,
    }
}

pub open spec fn pose_address(format: OscFormat) -> Seq<char> {
    match format {
        OscFormat::Quaternion => QUATERNION_ADDRESS@,
        OscFormat::Euler => EULER_ADDRESS@,
    }
}

/// A binary32 pattern that a number rounds to.
pub open spec fn rounds_to(n: Number, bits: u32) -> bool {
    let k = if bits >= 0x8000_0000 {
        bits - 0x8000_0000
    } else {
        bits as int
    };
    &&& n.finite()
    &&& (bits >= 0x8000_0000) == n.negative()
    &&& k < SINGLE_INFINITY
    &&& is_nearest(units(n.magnitude()), k)
}

/// A number has no finite binary32 number nearest to it.
pub open spec fn overflows(n: Number) -> bool {
    !n.finite() || is_nearest(units(n.magnitude()), SINGLE_INFINITY as int)
}

pub open spec fn single_bytes(singles: Seq<u32>) -> Seq<u8>
    decreases singles.len(),
{
    if singles.len() == 0 {
        seq![]
    } else {
        single_bytes(singles.drop_last()) + word_bytes(singles.last() as int)
    }
}

/// The type tags of a pose message with `n` values.
pub open spec fn pose_tags(n: nat) -> Seq<u8> {
    seq![
        0x2cu8,
        0x69u8,
        0x73u8,
        0x68u8,
        0x68u8,
        0x68u8,
        0x68u8,
        0x68u8,
        0x68u8,
        0x68u8,
        0x68u8,
        0x69u8,
        0x68u8,
        0x68u8,
    ] + Seq::new(n, |i: int| 0x66u8)
}

pub open spec fn longs_bytes(v: Seq<u64>) -> Seq<u8>
    decreases v.len(),
{
    if v.len() == 0 {
        seq![]
    } else {
        longs_bytes(v.drop_last()) + long_bytes(v.last() as i64)
    }
}

pub open spec fn time_kind(pose: PoseSnapshot) -> int {
    match pose.sample_time {
        Some(t) => t.kind.spec_code() as int,
        None => 0,
    }
}

/// The datagram of a pose: protocol version, source, eight 64-bit fields, kind
/// of sample time, sample time and clock epoch, and the values as binary32.
pub open spec fn pose_datagram(
    pose: PoseSnapshot,
    format: OscFormat,
    source_id: Seq<char>,
    tx_sequence: u64,
    age_ns: u64,
    singles: Seq<u32>,
) -> Seq<u8> {
    let h = header(pose, tx_sequence, age_ns);
    terminated(encode_utf8(pose_address(format))) + terminated(pose_tags(singles.len())) + (
    word_bytes(PROTOCOL_VERSION as int) + terminated(encode_utf8(source_id)) + longs_bytes(
        h.take(8),
    ) + word_bytes(time_kind(pose)) + longs_bytes(h.skip(8)) + single_bytes(singles))
}

/// Every integer field of a pose message fits.
pub open spec fn header_fits(pose: PoseSnapshot, tx_sequence: u64, age_ns: u64) -> bool {
    forall|i: int| 0 <= i < 10 ==> is_long(#[trigger] header(pose, tx_sequence, age_ns)[i])
}

/// Every value of a pose message has a finite binary32 number nearest to it.
pub open spec fn values_fit(pose: PoseSnapshot, format: OscFormat) -> bool {
    forall|i: int|
        0 <= i < pose_values(pose, format).len() ==> !overflows(
            #[trigger] pose_values(pose, format)[i],
        )
}

pub open spec fn encodable(
    pose: PoseSnapshot,
    format: OscFormat,
    tx_sequence: u64,
    age_ns: u64,
) -> bool {
    header_fits(pose, tx_sequence, age_ns) && values_fit(pose, format)
}

/// `bytes` are the datagram of a pose, each value rounded to the nearest binary32.
pub open spec fn is_pose_datagram(
    bytes: Seq<u8>,
    pose: PoseSnapshot,
    format: OscFormat,
    source_id: Seq<char>,
    tx_sequence: u64,
    age_ns: u64,
) -> bool {
    let values = pose_values(pose, format);
    exists|singles: Seq<u32>|
        {
            &&& singles.len() == values.len()
            &&& forall|i: int| 0 <= i < values.len() ==> rounds_to(#[trigger] values[i], singles[i])
            &&& bytes == #[trigger] pose_datagram(
                pose,
                format,
                source_id,
                tx_sequence,
                age_ns,
                singles,
            )
        }
}

/// Why a pose has no datagram.
pub open spec fn refused(
    e: Error,
    pose: PoseSnapshot,
    format: OscFormat,
    tx_sequence: u64,
    age_ns: u64,
) -> bool {
    if !header_fits(pose, tx_sequence, age_ns) {
        e.is_invalid("OSC integer exceeds int64 range"@)
    } else {
        !values_fit(pose, format) && e.is_invalid("OSC value is not a finite float32"@)
    }
}

proof fn lemma_rounds_once(n: Number, a: u32, b: u32)
    requires
        rounds_to(n, a),
    ensures
        !overflows(n),
        rounds_to(n, b) ==> a == b,
{
    let v = units(n.magnitude());
    let j = if a >= 0x8000_0000 {
        a - 0x8000_0000
    } else {
        a as int
    };
    let k = if b >= 0x8000_0000 {
        b - 0x8000_0000
    } else {
        b as int
    };
    if is_nearest(v, SINGLE_INFINITY as int) {
        rounding_is_a_function(v, j, SINGLE_INFINITY as int);
    }
    if rounds_to(n, b) {
        rounding_is_a_function(v, j, k);
    }
}

/// A pose has one datagram for a source, a sending number and an age.
pub proof fn a_pose_has_one_datagram(
    a: Seq<u8>,
    b: Seq<u8>,
    pose: PoseSnapshot,
    format: OscFormat,
    source_id: Seq<char>,
    tx_sequence: u64,
    age_ns: u64,
)
    requires
        is_pose_datagram(a, pose, format, source_id, tx_sequence, age_ns),
        is_pose_datagram(b, pose, format, source_id, tx_sequence, age_ns),
    ensures
        a == b,
{
    let values = pose_values(pose, format);
    let x = choose|singles: Seq<u32>|
        {
            &&& singles.len() == values.len()
            &&& forall|i: int| 0 <= i < values.len() ==> rounds_to(#[trigger] values[i], singles[i])
            &&& a == #[trigger] pose_datagram(
                pose,
                format,
                source_id,
                tx_sequence,
                age_ns,
                singles,
            )
        };
    let y = choose|singles: Seq<u32>|
        {
            &&& singles.len() == values.len()
            &&& forall|i: int| 0 <= i < values.len() ==> rounds_to(#[trigger] values[i], singles[i])
            &&& b == #[trigger] pose_datagram(
                pose,
                format,
                source_id,
                tx_sequence,
                age_ns,
                singles,
            )
        };
    assert forall|i: int| 0 <= i < values.len() implies x[i] == y[i] by {
        assert(rounds_to(values[i], x[i]));
        lemma_rounds_once(values[i], x[i], y[i]);
    }
    assert(x =~= y);
}

fn to_long(v: u64) -> (r: Result<i64, Error>)
    ensures
        match r {
            Ok(n) => is_long(v) && n == v,
            Err(e) => !is_long(v) && e.is_invalid("OSC integer exceeds int64 range"@),
        },
{
    if v > MAX_LONG {
        return Err(Error::invalid("OSC integer exceeds int64 range"));
    }
    Ok(v as i64)
}

fn to_word(bits: u32) -> (r: i32)
    ensures
        low_word(r) == bits,
{
    if bits >= 0x8000_0000 {
        (bits as i64 - 0x1_0000_0000) as i32
    } else {
        bits as i32
    }
}

/// The values as binary32 patterns.
fn to_singles(values: &[Number]) -> (r: Result<Vec<u32>, Error>)
    ensures
        match r {
            Ok(singles) => singles@.len() == values@.len() && forall|i: int|
                0 <= i < values@.len() ==> rounds_to(#[trigger] values@[i], singles@[i]),
            Err(e) => e.is_invalid("OSC value is not a finite float32"@) && exists|i: int|
                0 <= i < values@.len() && overflows(#[trigger] values@[i]),
        },
{
    let mut singles: Vec<u32> = Vec::new();
    let mut i: usize = 0;
    while i < values.len()
        invariant
            i <= values@.len(),
            singles@.len() == i,
            forall|j: int| 0 <= j < i ==> rounds_to(#[trigger] values@[j], singles@[j]),
        decreases values@.len() - i,
    {
        match values[i].to_single() {
            Some(bits) => {
                singles.push(bits);
            },
            None => {
                assert(overflows(values@[i as int]));
                return Err(Error::invalid("OSC value is not a finite float32"));
            },
        }
        i = i + 1;
    }
    Ok(singles)
}

/// The arguments of a pose message, each value as an integer of the same bits.
pub open spec fn pose_arguments(
    source: String,
    h: Seq<u64>,
    kind: int,
    singles: Seq<u32>,
) -> Seq<Argument> {
    seq![
        Argument::Int(PROTOCOL_VERSION as i32),
        Argument::Text(source),
        Argument::Long(h[0] as i64),
        Argument::Long(h[1] as i64),
        Argument::Long(h[2] as i64),
        Argument::Long(h[3] as i64),
        Argument::Long(h[4] as i64),
        Argument::Long(h[5] as i64),
        Argument::Long(h[6] as i64),
        Argument::Long(h[7] as i64),
        Argument::Int(kind as i32),
        Argument::Long(h[8] as i64),
        Argument::Long(h[9] as i64),
    ] + Seq::new(singles.len(), |i: int| Argument::Int(signed_word(singles[i])))
}

pub open spec fn signed_word(bits: u32) -> i32 {
    (if bits >= 0x8000_0000 {
        bits - 0x1_0000_0000
    } else {
        bits as int
    }) as i32
}

proof fn lemma_data_append(a: Seq<Argument>, b: Seq<Argument>)
    ensures
        data(a + b) == data(a) + data(b),
    decreases b.len(),
{
    if b.len() == 0 {
        assert(a + b =~= a);
        assert(data(a) + data(b) =~= data(a));
    } else {
        assert((a + b).drop_last() =~= a + b.drop_last());
        assert((a + b).last() == b.last());
        lemma_data_append(a, b.drop_last());
        assert(data(a + b) =~= data(a) + data(b));
    }
}

proof fn lemma_data_singles(singles: Seq<u32>)
    ensures
        data(Seq::new(singles.len(), |i: int| Argument::Int(signed_word(singles[i]))))
            == single_bytes(singles),
    decreases singles.len(),
{
    let s = Seq::new(singles.len(), |i: int| Argument::Int(signed_word(singles[i])));
    if singles.len() > 0 {
        let front = singles.drop_last();
        assert(s.drop_last() =~= Seq::new(
            front.len(),
            |i: int| Argument::Int(signed_word(front[i])),
        ));
        lemma_data_singles(front);
        assert(low_word(signed_word(singles.last())) == singles.last());
    }
}

proof fn lemma_data_longs(v: Seq<u64>)
    ensures
        data(Seq::new(v.len(), |i: int| Argument::Long(v[i] as i64))) == longs_bytes(v),
    decreases v.len(),
{
    let s = Seq::new(v.len(), |i: int| Argument::Long(v[i] as i64));
    if v.len() > 0 {
        let front = v.drop_last();
        assert(s.drop_last() =~= Seq::new(front.len(), |i: int| Argument::Long(front[i] as i64)));
        lemma_data_longs(front);
    }
}

proof fn lemma_pose_data(source: String, h: Seq<u64>, kind: int, singles: Seq<u32>)
    requires
        h.len() == 10,
        0 <= kind <= 2,
    ensures
        data(pose_arguments(source, h, kind, singles)) == word_bytes(PROTOCOL_VERSION as int)
            + terminated(encode_utf8(source@)) + longs_bytes(h.take(8)) + word_bytes(kind)
            + longs_bytes(h.skip(8)) + single_bytes(singles),
{
    let all = pose_arguments(source, h, kind, singles);
    let version = seq![Argument::Int(PROTOCOL_VERSION as i32)];
    let name = seq![Argument::Text(source)];
    let first = Seq::new(8, |i: int| Argument::Long(h.take(8)[i] as i64));
    let middle = seq![Argument::Int(kind as i32)];
    let second = Seq::new(2, |i: int| Argument::Long(h.skip(8)[i] as i64));
    let values = Seq::new(singles.len(), |i: int| Argument::Int(signed_word(singles[i])));
    assert(all =~= version + name + first + middle + second + values);
    lemma_data_append(version + name + first + middle + second, values);
    lemma_data_append(version + name + first + middle, second);
    lemma_data_append(version + name + first, middle);
    lemma_data_append(version + name, first);
    lemma_data_append(version, name);
    lemma_data_singles(singles);
    lemma_data_longs(h.take(8));
    lemma_data_longs(h.skip(8));
    lemma_data_one(Argument::Int(PROTOCOL_VERSION as i32));
    lemma_data_one(Argument::Text(source));
    lemma_data_one(Argument::Int(kind as i32));
}

proof fn lemma_data_one(a: Argument)
    ensures
        data(seq![a]) == argument_bytes(a),
{
    assert(seq![a].drop_last() =~= Seq::<Argument>::empty());
    assert(data(Seq::<Argument>::empty()) =~= Seq::<u8>::empty());
    assert(data(seq![a]) =~= argument_bytes(a));
}

/// Turns the integer tags of the values at the end of a message into those of
/// binary32 numbers. The bytes of the values stay as they are.
fn retag(message: &mut Vec<u8>, first: usize, count: usize)
    requires
        first + count <= old(message)@.len(),
    ensures
        final(message)@ == Seq::new(
            old(message)@.len(),
            |i: int|
                if first <= i < first + count {
                    0x66u8
                } else {
                    old(message)@[i]
                },
        ),
{
    let ghost before = message@;
    let total: usize = message.len();
    let mut i: usize = 0;
    while i < count
        invariant
            i <= count,
            first + count <= before.len(),
            total == before.len(),
            message@ =~= Seq::new(
                before.len(),
                |j: int|
                    if first <= j < first + i {
                        0x66u8
                    } else {
                        before[j]
                    },
            ),
        decreases count - i,
    {
        message.set(first + i, 0x66);
        i = i + 1;
    }
}

fn padded_len(text: &str) -> (r: usize)
    requires
        text@.len() < 64,
        vstd::utf8::is_ascii_chars(text@),
    ensures
        r == terminated(encode_utf8(text@)).len(),
        r < 70,
{
    proof {
        vstd::utf8::is_ascii_chars_encode_utf8(text@);
    }
    let n: usize = text.as_bytes().len();
    n + (4 - n % 4)
}

/// The datagram of a pose. An integer that does not fit 64 signed bits, and a
/// value that has no finite binary32 number near it, is refused.
pub fn encode(
    pose: &PoseSnapshot,
    format: OscFormat,
    source_id: &str,
    tx_sequence: u64,
    age_ns: u64,
) -> (r: Result<Vec<u8>, Error>)
    ensures
        match r {
            Ok(bytes) => encodable(*pose, format, tx_sequence, age_ns) && is_pose_datagram(
                bytes@,
                *pose,
                format,
                source_id@,
                tx_sequence,
                age_ns,
            ),
            Err(e) => refused(e, *pose, format, tx_sequence, age_ns),
        },
{
    let ghost h = header(*pose, tx_sequence, age_ns);
    let ghost kind_spec = time_kind(*pose);
    let (kind, time_ms, epoch): (u32, u64, u64) = match pose.sample_time {
        Some(t) => (t.kind.code(), t.time_ms, t.clock_epoch),
        None => (0, 0, 0),
    };
    assert(h[0] == pose.instance_id && h[1] == pose.session_id && h[2] == pose.sequence && h[3]
        == tx_sequence && h[4] == pose.reference_epoch && h[5] == pose.metadata_revision && h[6]
        == pose.received_ns && h[7] == age_ns && h[8] == time_ms && h[9] == epoch);
    let a0: i64 = to_long(pose.instance_id)?;
    let a1: i64 = to_long(pose.session_id)?;
    let a2: i64 = to_long(pose.sequence)?;
    let a3: i64 = to_long(tx_sequence)?;
    let a4: i64 = to_long(pose.reference_epoch)?;
    let a5: i64 = to_long(pose.metadata_revision)?;
    let a6: i64 = to_long(pose.received_ns)?;
    let a7: i64 = to_long(age_ns)?;
    let a8: i64 = to_long(time_ms)?;
    let a9: i64 = to_long(epoch)?;
    assert forall|i: int| 0 <= i < 10 implies is_long(#[trigger] h[i]) by {}
    let values: &[Number] = match format {
        OscFormat::Quaternion => pose.quaternion_xyzw.as_slice(),
        OscFormat::Euler => pose.euler_deg.as_slice(),
    };
    assert(values@ =~= pose_values(*pose, format));
    let singles = match to_singles(values) {
        Ok(singles) => singles,
        Err(e) => {
            proof {
                let i = choose|i: int| 0 <= i < values@.len() && overflows(#[trigger] values@[i]);
                assert(overflows(pose_values(*pose, format)[i]));
            }
            return Err(e);
        },
    };
    let source = source_id.to_string();
    let mut args: Vec<Argument> = Vec::new();
    args.push(Argument::Int(PROTOCOL_VERSION as i32));
    args.push(Argument::Text(source.clone()));
    args.push(Argument::Long(a0));
    args.push(Argument::Long(a1));
    args.push(Argument::Long(a2));
    args.push(Argument::Long(a3));
    args.push(Argument::Long(a4));
    args.push(Argument::Long(a5));
    args.push(Argument::Long(a6));
    args.push(Argument::Long(a7));
    args.push(Argument::Int(kind as i32));
    args.push(Argument::Long(a8));
    args.push(Argument::Long(a9));
    let ghost fixed = args@;
    let count: usize = singles.len();
    let mut i: usize = 0;
    while i < count
        invariant
            i <= count,
            count == singles@.len(),
            fixed.len() == 13,
            args@ =~= fixed + Seq::new(
                i as nat,
                |j: int| Argument::Int(signed_word(singles@[j])),
            ),
        decreases count - i,
    {
        let word: i32 = to_word(singles[i]);
        assert(word == signed_word(singles@[i as int]));
        args.push(Argument::Int(word));
        i = i + 1;
    }
    assert(args@ =~= pose_arguments(source, h, kind_spec, singles@));
    let ghost all = args@;
    proof {
        reveal_strlit("/posebridge/quaternion");
        reveal_strlit("/posebridge/euler");
    }
    let address = match format {
        OscFormat::Quaternion => QUATERNION_ADDRESS,
        OscFormat::Euler => EULER_ADDRESS,
    };
    let start: usize = padded_len(address);
    let mut message = encode_message(address, args)?;
    proof {
        let t = terminated(tags(all));
        assert(tags(all).len() == 14 + count);
        assert(t.len() >= 14 + count);
        assert(message@.len() >= start + t.len());
    }
    let ghost plain = message@;
    retag(&mut message, start + 14, count);
    proof {
        lemma_pose_data(source, h, kind_spec, singles@);
        let pa = terminated(encode_utf8(address@));
        let old_tags = terminated(tags(all));
        let new_tags = terminated(pose_tags(count as nat));
        assert(new_tags.len() == old_tags.len());
        assert(plain =~= pa + old_tags + data(all));
        assert forall|j: int| 0 <= j < new_tags.len() implies #[trigger] new_tags[j] == (if 14 <= j
            < 14 + count {
            0x66u8
        } else {
            old_tags[j]
        }) by {
            if j < 14 {
                assert(tags(all)[j] == pose_tags(count as nat)[j]) by {
                    if j > 0 {
                        assert(all[j - 1] == fixed[j - 1]);
                    }
                }
            }
        }
        assert(message@ =~= pa + new_tags + data(all));
        assert(message@ == pose_datagram(
            *pose,
            format,
            source_id@,
            tx_sequence,
            age_ns,
            singles@,
        ));
        assert forall|i: int| 0 <= i < values@.len() implies !overflows(
            #[trigger] pose_values(*pose, format)[i],
        ) by {
            lemma_rounds_once(values@[i], singles@[i], singles@[i]);
        }
    }
    Ok(message)
}

/// A message whose one argument is text. One that would not fit a datagram is
/// refused.
pub fn encode_text(address: &str, text: &str) -> (r: Result<Vec<u8>, Error>)
    ensures
        ({
            let bytes = terminated(encode_utf8(address@)) + terminated(seq![0x2cu8, 0x73u8])
                + terminated(encode_utf8(text@));
            match r {
                Ok(b) => b@ == bytes && bytes.len() <= MAX_DATAGRAM_BYTES && bytes.len() <= 8192,
                Err(e) => bytes.len() > MAX_DATAGRAM_BYTES && bytes.len() > 8192 && e.is_protocol(
                    "OSC datagram exceeds 8192 bytes"@,
                ),
            }
        }),
{
    let mut args: Vec<Argument> = Vec::new();
    let owned = text.to_string();
    args.push(Argument::Text(owned));
    let ghost all = args@;
    proof {
        assert(all =~= seq![Argument::Text(owned)]);
        lemma_data_one(Argument::Text(owned));
        assert(tags(all) =~= seq![0x2cu8, 0x73u8]);
    }
    let message = encode_message(address, args)?;
    if message.len() > MAX_DATAGRAM_BYTES {
        return Err(Error::protocol("OSC datagram exceeds 8192 bytes"));
    }
    Ok(message)
}

/// The number that eight bytes spell, most significant first.
pub open spec fn spelled(b: Seq<u8>) -> int {
    b[0] * 0x100_0000_0000_0000 + b[1] * 0x1_0000_0000_0000 + b[2] * 0x100_0000_0000 + b[3]
        * 0x1_0000_0000 + b[4] * 0x100_0000 + b[5] * 0x1_0000 + b[6] * 0x100 + b[7]
}

/// A 64-bit field reads back as the number that was written, to the last digit.
pub proof fn longs_read_back(v: i64)
    requires
        v >= 0,
    ensures
        long_bytes(v).len() == 8,
        spelled(long_bytes(v)) == v,
{
    let n = v as int;
    let hi = n / 0x1_0000_0000;
    let lo = n % 0x1_0000_0000;
    lemma_word(hi);
    lemma_word(lo);
    let b = long_bytes(v);
    assert(b[0] == word_bytes(hi)[0] && b[1] == word_bytes(hi)[1] && b[2] == word_bytes(hi)[2]
        && b[3] == word_bytes(hi)[3]);
    assert(b[4] == word_bytes(lo)[0] && b[5] == word_bytes(lo)[1] && b[6] == word_bytes(lo)[2]
        && b[7] == word_bytes(lo)[3]);
}

proof fn lemma_word(w: int)
    requires
        0 <= w < 0x1_0000_0000,
    ensures
        ({
            let b = word_bytes(w);
            w == b[0] * 0x100_0000 + b[1] * 0x1_0000 + b[2] * 0x100 + b[3]
        }),
{
    let a = w / 0x100;
    let b = w / 0x1_0000;
    let c = w / 0x100_0000;
    assert(b == a / 0x100);
    assert(c == b / 0x100);
}

/// A pose datagram is a whole number of words, and fits a datagram.
pub proof fn pose_datagrams_fit(
    pose: PoseSnapshot,
    format: OscFormat,
    source_id: Seq<char>,
    tx_sequence: u64,
    age_ns: u64,
    singles: Seq<u32>,
)
    requires
        crate::model::source_id_ok(source_id),
        singles.len() == pose_values(pose, format).len(),
    ensures
        ({
            let b = pose_datagram(pose, format, source_id, tx_sequence, age_ns, singles);
            b.len() <= MAX_DATAGRAM_BYTES && b.len() % 4 == 0
        }),
{
    reveal_strlit("/posebridge/quaternion");
    reveal_strlit("/posebridge/euler");
    vstd::utf8::is_ascii_chars_encode_utf8(pose_address(format));
    let h = header(pose, tx_sequence, age_ns);
    lemma_longs_len(h.take(8));
    lemma_longs_len(h.skip(8));
    lemma_singles_len(singles);
}

proof fn lemma_longs_len(v: Seq<u64>)
    ensures
        longs_bytes(v).len() == 8 * v.len(),
    decreases v.len(),
{
    if v.len() > 0 {
        lemma_longs_len(v.drop_last());
    }
}

proof fn lemma_singles_len(v: Seq<u32>)
    ensures
        single_bytes(v).len() == 4 * v.len(),
    decreases v.len(),
{
    if v.len() > 0 {
        lemma_singles_len(v.drop_last());
    }
}

/// How sending a datagram went.
#[derive(Debug)]
pub enum SendResult {
    /// So many bytes were handed over.
    Bytes(usize),
    /// The socket would have blocked, or nobody listens.
    Blocked,
    Failed(Error),
}

/// Paces pose messages: at most one for each sample, none that is stale, and no
/// more than the configured rate.
#[derive(Debug)]
pub struct Sender {
    pub format: OscFormat,
    pub interval_ns: u64,
    /// Session and sequence of the last pose that was sent.
    pub last_key: Option<(u64, u64)>,
    /// Before this moment nothing is sent.
    pub next_slot: Option<u128>,
    /// When a pose that is waiting is to be sent.
    pub pending: Option<u128>,
    pub tx_sequence: u64,
    pub coalesced: u64,
    pub send_errors: u64,
}

/// The period of a rate, to the nearest nanosecond.
pub open spec fn period_ns(rate: u32) -> int {
    (1_000_000_000 + rate as int / 2) / rate as int
}

/// The period of a rate.
pub fn period(rate: u32) -> (r: u64)
    requires
        1 <= rate <= 200,
    ensures
        r == period_ns(rate),
        5_000_000 <= r <= 1_000_000_000,
{
    let wide: u64 = rate as u64;
    proof {
        let x = 1_000_000_000 + rate as int / 2;
        let d = rate as int;
        assert(5_000_000 <= x / d <= 1_000_000_000) by (nonlinear_arith)
            requires
                1 <= d <= 200,
                x == 1_000_000_000 + d / 2,
        ;
    }
    (1_000_000_000 + wide / 2) / wide
}

impl Sender {
    /// Nothing is sent to anything but a port of this machine, nor at a rate
    /// out of range.
    pub fn new(config: &OscConfig) -> (r: Result<Sender, Error>)
        ensures
            match r {
                Ok(s) => {
                    &&& 1 <= config.max_rate_hz <= 200
                    &&& config.target.loopback() && config.target.spec_port() != 0
                    &&& s == (Sender {
                        format: config.format,
                        interval_ns: period_ns(config.max_rate_hz) as u64,
                        last_key: None,
                        next_slot: None,
                        pending: None,
                        tx_sequence: 0,
                        coalesced: 0,
                        send_errors: 0,
                    })
                    &&& s.interval_ns == period_ns(config.max_rate_hz)
                    &&& s.interval_ns >= 5_000_000
                },
                Err(e) => if !(1 <= config.max_rate_hz <= 200) {
                    e.is_invalid(crate::model::rate_message())
                } else {
                    &&& !(config.target.loopback() && config.target.spec_port() != 0)
                    &&& e.is_invalid("OSC target must be loopback with a nonzero port"@)
                },
            },
    {
        validate_rate(config.max_rate_hz)?;
        if !config.target.is_loopback() || config.target.port() == 0 {
            return Err(Error::invalid("OSC target must be loopback with a nonzero port"));
        }
        Ok(
            Sender {
                format: config.format,
                interval_ns: period(config.max_rate_hz),
                last_key: None,
                next_slot: None,
                pending: None,
                tx_sequence: 0,
                coalesced: 0,
                send_errors: 0,
            },
        )
    }

    /// When the pose that is waiting is to be looked at again.
    pub fn deadline(&self) -> (r: Option<u128>)
        ensures
            r == self.pending,
    {
        self.pending
    }

    pub fn coalesced_samples(&self) -> (r: u64)
        ensures
            r == self.coalesced,
    {
        self.coalesced
    }

    pub fn send_errors(&self) -> (r: u64)
        ensures
            r == self.send_errors,
    {
        self.send_errors
    }

    /// No pose is waiting any more.
    pub fn clear_pending(&mut self)
        ensures
            *final(self) == (Sender { pending: None, ..*old(self) }),
    {
        self.pending = None;
    }

    /// Whether a pose is of no use: it is stale, or was the last one sent.
    pub open spec fn skips(&self, pose: PoseSnapshot) -> bool {
        !pose.fresh || self.last_key == Some((pose.session_id, pose.sequence))
    }

    pub open spec fn waits(&self, now: u64) -> bool {
        self.next_slot matches Some(slot) && slot > now
    }

    /// The datagram to send now, if one is due. One that is not due yet waits
    /// for its slot, where a later pose may take its place.
    pub fn packet_if_due(
        &mut self,
        pose: &PoseSnapshot,
        source_id: &str,
        age_ns: u64,
        now: u64,
    ) -> (r: Result<Option<Vec<u8>>, Error>)
        requires
            old(self).tx_sequence < u64::MAX,
        ensures
            if old(self).skips(*pose) {
                r matches Ok(p) && p is None && *final(self) == (Sender {
                    pending: None,
                    ..*old(self)
                })
            } else if old(self).waits(now) {
                r matches Ok(p) && p is None && *final(self) == (Sender {
                    pending: old(self).next_slot,
                    ..*old(self)
                })
            } else {
                &&& *final(self) == *old(self)
                &&& match r {
                    Ok(p) => {
                        let tx = (old(self).tx_sequence + 1) as u64;
                        &&& encodable(*pose, old(self).format, tx, age_ns)
                        &&& p matches Some(bytes) && is_pose_datagram(
                            bytes@,
                            *pose,
                            old(self).format,
                            source_id@,
                            tx,
                            age_ns,
                        )
                    },
                    Err(e) => refused(
                        e,
                        *pose,
                        old(self).format,
                        (old(self).tx_sequence + 1) as u64,
                        age_ns,
                    ),
                }
            },
    {
        let same = match self.last_key {
            Some((session, sequence)) => session == pose.session_id && sequence == pose.sequence,
            None => false,
        };
        if !pose.fresh || same {
            self.pending = None;
            return Ok(None);
        }
        if let Some(slot) = self.next_slot {
            if slot > now as u128 {
                self.pending = Some(slot);
                return Ok(None);
            }
        }
        let packet = encode(pose, self.format, source_id, self.tx_sequence + 1, age_ns)?;
        Ok(Some(packet))
    }

    /// The slot after a pose was sent at `now`: one period after the last slot
    /// where that lies ahead, one period from now otherwise. Slots that were
    /// missed earn nothing.
    pub open spec fn slot_after(&self, now: u64) -> int {
        match self.next_slot {
            Some(slot) if slot + self.interval_ns > now => slot + self.interval_ns,
            _ => now + self.interval_ns,
        }
    }

    /// Samples between the last pose sent and this one, of this session.
    pub open spec fn skipped_samples(&self, session: u64, sequence: u64) -> int {
        let before = match self.last_key {
            Some((s, q)) => if s == session {
                q as int
            } else {
                0
            },
            None => 0,
        };
        if sequence > before + 1 {
            sequence - before - 1
        } else {
            0
        }
    }

    pub open spec fn after_sending(self, pose: PoseSnapshot, now: u64) -> Sender {
        Sender {
            last_key: Some((pose.session_id, pose.sequence)),
            next_slot: Some(self.slot_after(now) as u128),
            pending: None,
            tx_sequence: (self.tx_sequence + 1) as u64,
            coalesced: (self.coalesced + self.skipped_samples(pose.session_id, pose.sequence))
                as u64,
            ..self
        }
    }

    /// After an attempt to send a datagram of `length` bytes: it was sent, the
    /// socket blocked and the next attempt comes a period later, or it failed.
    pub open spec fn after_attempt(
        self,
        pose: PoseSnapshot,
        length: usize,
        result: SendResult,
        now: u64,
    ) -> Sender {
        match result {
            SendResult::Bytes(n) => if n == length {
                self.after_sending(pose, now)
            } else {
                self
            },
            SendResult::Blocked => Sender {
                next_slot: Some((now + self.interval_ns) as u128),
                pending: Some((now + self.interval_ns) as u128),
                send_errors: (self.send_errors + 1) as u64,
                ..self
            },
            SendResult::Failed(_) => self,
        }
    }

    /// Takes how sending the datagram of `pose` at `now` went: whether it was
    /// sent. After a blocked attempt the next one comes a period later.
    pub fn delivered(
        &mut self,
        pose: &PoseSnapshot,
        length: usize,
        result: SendResult,
        now: u64,
    ) -> (r: Result<bool, Error>)
        requires
            old(self).tx_sequence < u64::MAX,
            old(self).send_errors < u64::MAX,
            old(self).coalesced + old(self).skipped_samples(pose.session_id, pose.sequence)
                <= u64::MAX,
            old(self).next_slot matches Some(slot) ==> slot <= now,
        ensures
            *final(self) == old(self).after_attempt(*pose, length, result, now),
            match result {
                SendResult::Bytes(n) => if n == length {
                    r == Ok::<bool, Error>(true)
                } else {
                    r matches Err(e) && (e matches Error::Io(m) && m@
                        == "partial UDP datagram send"@)
                },
                SendResult::Blocked => r == Ok::<bool, Error>(false),
                SendResult::Failed(error) => r == Err::<bool, Error>(error),
            },
    {
        match result {
            SendResult::Bytes(n) => {
                if n != length {
                    return Err(Error::Io("partial UDP datagram send".to_string()));
                }
                let before: u64 = match self.last_key {
                    Some((session, sequence)) => if session == pose.session_id {
                        sequence
                    } else {
                        0
                    },
                    None => 0,
                };
                if pose.sequence > before && pose.sequence - before > 1 {
                    self.coalesced = self.coalesced + (pose.sequence - before - 1);
                }
                self.last_key = Some((pose.session_id, pose.sequence));
                let fresh_slot: u128 = now as u128 + self.interval_ns as u128;
                let slot: u128 = match self.next_slot {
                    Some(slot) => if slot + self.interval_ns as u128 > now as u128 {
                        slot + self.interval_ns as u128
                    } else {
                        fresh_slot
                    },
                    None => fresh_slot,
                };
                self.next_slot = Some(slot);
                self.pending = None;
                self.tx_sequence = self.tx_sequence + 1;
                Ok(true)
            },
            SendResult::Blocked => {
                let slot: u128 = now as u128 + self.interval_ns as u128;
                self.next_slot = Some(slot);
                self.pending = Some(slot);
                self.send_errors = self.send_errors + 1;
                Ok(false)
            },
            SendResult::Failed(error) => Err(error),
        }
    }
}

/// The slot moves on by a period or more with every pose that is sent, and lies
/// ahead of the moment of sending, by a period at most: what was missed before
/// earns nothing.
pub proof fn slots_never_earn_credit(s: Sender, now: u64)
    requires
        s.next_slot matches Some(slot) && slot <= now,
    ensures
        ({
            let next = s.slot_after(now);
            &&& next >= s.next_slot->0 + s.interval_ns
            &&& next <= now + s.interval_ns
            &&& s.interval_ns > 0 ==> next > now
        }),
{
}

/// An attempt to send a datagram of `length` bytes.
pub struct Attempt {
    pub pose: PoseSnapshot,
    pub length: usize,
    pub result: SendResult,
    pub time: u64,
}

impl Attempt {
    /// The datagram was sent.
    pub open spec fn sends(self) -> bool {
        self.result matches SendResult::Bytes(n) && n == self.length
    }

    /// The attempt uses up its slot: the datagram was sent, or the socket blocked.
    pub open spec fn counts(self) -> bool {
        self.sends() || self.result is Blocked
    }
}

/// How many attempts have sent their datagram.
pub open spec fn sends_of(attempts: Seq<Attempt>) -> nat
    decreases attempts.len(),
{
    if attempts.len() == 0 {
        0
    } else {
        sends_of(attempts.drop_last()) + (if attempts.last().sends() {
            1nat
        } else {
            0nat
        })
    }
}

/// How many attempts have used up their slot.
pub open spec fn slots_of(attempts: Seq<Attempt>) -> nat
    decreases attempts.len(),
{
    if attempts.len() == 0 {
        0
    } else {
        slots_of(attempts.drop_last()) + (if attempts.last().counts() {
            1nat
        } else {
            0nat
        })
    }
}

/// A sender before each attempt and after the last one. Each attempt was made
/// once its slot had come; what waits meanwhile may change.
pub open spec fn is_pacing(states: Seq<Sender>, attempts: Seq<Attempt>) -> bool {
    &&& states.len() == attempts.len() + 1
    &&& forall|i: int|
        0 <= i < attempts.len() ==> {
            let a = #[trigger] attempts[i];
            &&& !states[i].waits(a.time)
            &&& states[i + 1] == (Sender {
                pending: states[i + 1].pending,
                ..states[i].after_attempt(a.pose, a.length, a.result, a.time)
            })
        }
}

/// However poses come, whatever slots were missed and however attempts went, a
/// number of datagrams takes as many periods: counted from the first slot, or
/// from before the first attempt where there is none yet, the last datagram is
/// not sent before a period for each one but itself, and for each blocked attempt.
pub proof fn the_rate_is_not_exceeded(states: Seq<Sender>, attempts: Seq<Attempt>, from: int)
    requires
        is_pacing(states, attempts),
        match states[0].next_slot {
            Some(slot) => slot >= from,
            None => forall|i: int| 0 <= i < attempts.len() ==> (#[trigger] attempts[i]).time >= from,
        },
    ensures
        ({
            let interval = states[0].interval_ns;
            let n = slots_of(attempts);
            &&& states.last().interval_ns == interval
            &&& sends_of(attempts) <= n
            &&& n > 0 ==> states.last().next_slot is Some
            &&& states.last().next_slot matches Some(slot) ==> slot >= from + n * interval
            &&& attempts.len() > 0 && attempts.last().counts() ==> attempts.last().time >= from + (n
                - 1) * interval
            &&& attempts.len() > 0 && attempts.last().sends() ==> attempts.last().time >= from + (
            sends_of(attempts) - 1) * interval
        }),
    decreases attempts.len(),
{
    let interval = states[0].interval_ns as int;
    if attempts.len() > 0 {
        let k = attempts.len() - 1;
        let earlier = states.drop_last();
        let before = attempts.drop_last();
        assert forall|i: int| 0 <= i < before.len() implies {
            let a = #[trigger] before[i];
            &&& !earlier[i].waits(a.time)
            &&& earlier[i + 1] == (Sender {
                pending: earlier[i + 1].pending,
                ..earlier[i].after_attempt(a.pose, a.length, a.result, a.time)
            })
        } by {
            assert(!states[i].waits(attempts[i].time));
        }
        assert forall|i: int|
            states[0].next_slot is None && 0 <= i < before.len() implies (
        #[trigger] before[i]).time >= from by {
            assert(before[i] == attempts[i]);
        }
        the_rate_is_not_exceeded(earlier, before, from);
        let s = states[k];
        let a = attempts[k];
        let n = slots_of(before) as int;
        let m = sends_of(before) as int;
        assert(earlier.last() == s);
        assert(!s.waits(a.time));
        if s.next_slot is None {
            if states[0].next_slot is Some {
                lemma_slots_stay(states, attempts, k);
            }
            assert(a.time >= from);
            lemma_periods(0, 0, interval);
        }
        lemma_periods(m, n, interval);
        lemma_attempt(s, a, from + n * interval);
        assert(states.last() == states[k + 1]);
        if a.counts() {
            let count = slots_of(attempts) as int;
            assert(count == n + 1);
            assert((count - 1) * interval == n * interval);
            assert(count * interval == n * interval + interval);
        } else {
            assert(slots_of(attempts) == n);
        }
        if a.sends() {
            let count = sends_of(attempts) as int;
            assert(count == m + 1);
            assert((count - 1) * interval == m * interval);
        }
    } else {
        lemma_periods(0, 0, interval);
    }
}

proof fn lemma_periods(m: int, n: int, interval: int)
    requires
        0 <= m <= n,
        interval >= 0,
    ensures
        0 <= m * interval <= n * interval,
        (n + 1) * interval == n * interval + interval,
        n == 0 ==> n * interval == 0,
{
    assert(0 <= m * interval <= n * interval) by (nonlinear_arith)
        requires
            0 <= m <= n,
            interval >= 0,
    ;
    assert((n + 1) * interval == n * interval + interval) by (nonlinear_arith);
}

/// An attempt that uses up its slot is made at the slot or later, and moves it
/// on by a period or more; any other leaves it.
proof fn lemma_attempt(s: Sender, a: Attempt, slot: int)
    requires
        !s.waits(a.time),
        match s.next_slot {
            Some(next) => next >= slot,
            None => a.time >= slot,
        },
    ensures
        ({
            let t = s.after_attempt(a.pose, a.length, a.result, a.time);
            &&& t.interval_ns == s.interval_ns
            &&& if a.counts() {
                &&& a.time >= slot
                &&& t.next_slot matches Some(next) && next >= slot + s.interval_ns
            } else {
                t.next_slot == s.next_slot
            }
        }),
{
}

proof fn lemma_slots_stay(states: Seq<Sender>, attempts: Seq<Attempt>, k: int)
    requires
        is_pacing(states, attempts),
        states[0].next_slot is Some,
        0 <= k < states.len(),
    ensures
        states[k].next_slot is Some,
    decreases k,
{
    if k > 0 {
        lemma_slots_stay(states, attempts, k - 1);
        assert(!states[k - 1].waits(attempts[k - 1].time));
    }
}

/// A blocked attempt sends nothing, and puts the next one off by a period.
pub proof fn blocked_attempts_are_put_off(s: Sender, pose: PoseSnapshot, length: usize, now: u64)
    ensures
        ({
            let t = s.after_attempt(pose, length, SendResult::Blocked, now);
            &&& t.tx_sequence == s.tx_sequence
            &&& t.last_key == s.last_key
            &&& t.next_slot == Some((now + s.interval_ns) as u128)
            &&& forall|later: u64|
                later < now + s.interval_ns ==> #[trigger] t.waits(later)
        }),
{
}

/// A pose that was sent is not sent again, and the next one waits for its slot.
pub proof fn a_pose_is_sent_once(s: Sender, pose: PoseSnapshot, now: u64, later: u64)
    requires
        s.next_slot matches Some(slot) ==> slot <= now,
    ensures
        s.after_sending(pose, now).skips(pose),
        s.interval_ns > 0 && later <= now ==> s.after_sending(pose, now).waits(later),
{
}

/// When descriptions of the source and its state are sent.
#[derive(Debug)]
pub struct Telemetry {
    /// The description and the state that were sent last.
    pub described: Option<(u64, u64)>,
    pub reported: Option<ConnectionState>,
    pub next_info: u128,
    pub next_status: u128,
    pub info_sequence: u64,
    pub status_sequence: u64,
    pub send_errors: u64,
}

impl Telemetry {
    pub fn new() -> (r: Telemetry)
        ensures
            r == (Telemetry {
                described: None,
                reported: None,
                next_info: 0,
                next_status: 0,
                info_sequence: 0,
                status_sequence: 0,
                send_errors: 0,
            }),
    {
        Telemetry {
            described: None,
            reported: None,
            next_info: 0,
            next_status: 0,
            info_sequence: 0,
            status_sequence: 0,
            send_errors: 0,
        }
    }

    pub open spec fn info_wanted(self, instance_id: u64, revision: u64, now: u64) -> bool {
        self.described != Some((instance_id, revision)) || now >= self.next_info
    }

    pub open spec fn status_wanted(self, state: ConnectionState, force: bool, now: u64) -> bool {
        force || self.reported != Some(state) || now >= self.next_status
    }

    /// After a description was tried, before it is known how that went.
    pub open spec fn describing(self, instance_id: u64, revision: u64, now: u64) -> Telemetry {
        Telemetry {
            described: Some((instance_id, revision)),
            next_info: (now + INFO_INTERVAL_NS) as u128,
            ..self
        }
    }

    /// After a state was tried, before it is known how that went.
    pub open spec fn reporting(self, state: ConnectionState, now: u64) -> Telemetry {
        Telemetry {
            reported: Some(state),
            next_status: (now + STATUS_INTERVAL_NS) as u128,
            ..self
        }
    }

    /// A description is due at the start, when it has changed, and every 5 s.
    pub fn info_due(&self, instance_id: u64, revision: u64, now: u64) -> (r: bool)
        ensures
            r == self.info_wanted(instance_id, revision, now),
    {
        let same = match self.described {
            Some((i, v)) => i == instance_id && v == revision,
            None => false,
        };
        !same || now as u128 >= self.next_info
    }

    /// A state is due at the start, when it has changed, every second, and at
    /// the end.
    pub fn status_due(&self, state: ConnectionState, force: bool, now: u64) -> (r: bool)
        ensures
            r == self.status_wanted(state, force, now),
    {
        let same = match self.reported {
            Some(s) => s == state,
            None => false,
        };
        force || !same || now as u128 >= self.next_status
    }

    /// The number of the next description.
    pub fn next_info_sequence(&self) -> (r: u64)
        requires
            self.info_sequence < u64::MAX,
        ensures
            r == self.info_sequence + 1,
    {
        self.info_sequence + 1
    }

    /// The number of the next state message.
    pub fn next_status_sequence(&self) -> (r: u64)
        requires
            self.status_sequence < u64::MAX,
        ensures
            r == self.status_sequence + 1,
    {
        self.status_sequence + 1
    }

    pub fn send_errors(&self) -> (r: u64)
        ensures
            r == self.send_errors,
    {
        self.send_errors
    }

    /// A description was tried; whether it was sent.
    pub fn info_tried(
        &mut self,
        instance_id: u64,
        revision: u64,
        length: usize,
        result: SendResult,
        now: u64,
    ) -> (r: Result<bool, Error>)
        requires
            old(self).info_sequence < u64::MAX,
            old(self).send_errors < u64::MAX,
        ensures
            ({
                let tried = old(self).describing(instance_id, revision, now);
                match result {
                    SendResult::Bytes(n) => if n == length {
                        r == Ok::<bool, Error>(true) && *final(self) == (Telemetry {
                            info_sequence: (tried.info_sequence + 1) as u64,
                            ..tried
                        })
                    } else {
                        &&& r matches Err(e) && (e matches Error::Io(m) && m@
                            == "partial UDP datagram send"@)
                        &&& *final(self) == tried
                    },
                    SendResult::Blocked => r == Ok::<bool, Error>(false) && *final(self) == (
                    Telemetry { send_errors: (tried.send_errors + 1) as u64, ..tried }),
                    SendResult::Failed(error) => r == Err::<bool, Error>(error) && *final(self)
                        == tried,
                }
            }),
    {
        self.described = Some((instance_id, revision));
        self.next_info = now as u128 + INFO_INTERVAL_NS as u128;
        match result {
            SendResult::Bytes(n) => {
                if n != length {
                    return Err(Error::Io("partial UDP datagram send".to_string()));
                }
                self.info_sequence = self.info_sequence + 1;
                Ok(true)
            },
            SendResult::Blocked => {
                self.send_errors = self.send_errors + 1;
                Ok(false)
            },
            SendResult::Failed(error) => Err(error),
        }
    }

    /// A state was tried; whether it was sent.
    pub fn status_tried(
        &mut self,
        state: ConnectionState,
        length: usize,
        result: SendResult,
        now: u64,
    ) -> (r: Result<bool, Error>)
        requires
            old(self).status_sequence < u64::MAX,
            old(self).send_errors < u64::MAX,
        ensures
            ({
                let tried = old(self).reporting(state, now);
                match result {
                    SendResult::Bytes(n) => if n == length {
                        r == Ok::<bool, Error>(true) && *final(self) == (Telemetry {
                            status_sequence: (tried.status_sequence + 1) as u64,
                            ..tried
                        })
                    } else {
                        &&& r matches Err(e) && (e matches Error::Io(m) && m@
                            == "partial UDP datagram send"@)
                        &&& *final(self) == tried
                    },
                    SendResult::Blocked => r == Ok::<bool, Error>(false) && *final(self) == (
                    Telemetry { send_errors: (tried.send_errors + 1) as u64, ..tried }),
                    SendResult::Failed(error) => r == Err::<bool, Error>(error) && *final(self)
                        == tried,
                }
            }),
    {
        self.reported = Some(state);
        self.next_status = now as u128 + STATUS_INTERVAL_NS as u128;
        match result {
            SendResult::Bytes(n) => {
                if n != length {
                    return Err(Error::Io("partial UDP datagram send".to_string()));
                }
                self.status_sequence = self.status_sequence + 1;
                Ok(true)
            },
            SendResult::Blocked => {
                self.send_errors = self.send_errors + 1;
                Ok(false)
            },
            SendResult::Failed(error) => Err(error),
        }
    }
}

/// ASCII text at a place, with zero bytes behind it up to a length.
pub open spec fn text_at(b: Seq<u8>, at: int, text: Seq<char>, length: int) -> bool {
    &&& at + length <= b.len()
    &&& text.len() < length
    &&& b.subrange(at, at + length) == Seq::new(
        length as nat,
        |i: int|
            if i < text.len() {
                text[i] as u8
            } else {
                0u8
            },
    )
}

/// The number that four bytes spell, most significant first.
pub open spec fn word_read(b: Seq<u8>, at: int) -> int {
    b[at] * 0x100_0000 + b[at + 1] * 0x1_0000 + b[at + 2] * 0x100 + b[at + 3]
}

/// The number that eight bytes spell, most significant first.
pub open spec fn long_read(b: Seq<u8>, at: int) -> int {
    word_read(b, at) * 0x1_0000_0000 + word_read(b, at + 4)
}

/// Text is followed by one to four zero bytes, up to a whole number of words.
pub proof fn texts_are_terminated(b: Seq<u8>)
    ensures
        ({
            let t = terminated(b);
            &&& t.len() % 4 == 0
            &&& b.len() < t.len() <= b.len() + 4
            &&& forall|i: int| 0 <= i < b.len() ==> #[trigger] t[i] == b[i]
            &&& forall|i: int| b.len() <= i < t.len() ==> #[trigger] t[i] == 0
        }),
{
}

proof fn lemma_word_read(b: Seq<u8>, at: int, w: int)
    requires
        0 <= w < 0x1_0000_0000,
        0 <= at,
        at + 4 <= b.len(),
        b.subrange(at, at + 4) == word_bytes(w),
    ensures
        word_read(b, at) == w,
{
    lemma_word(w);
    let s = b.subrange(at, at + 4);
    assert(s[0] == b[at] && s[1] == b[at + 1] && s[2] == b[at + 2] && s[3] == b[at + 3]);
}

proof fn lemma_longs_at(b: Seq<u8>, at: int, v: Seq<u64>, i: int)
    requires
        0 <= i < v.len(),
        0 <= at,
        at + 8 * v.len() <= b.len(),
        b.subrange(at, at + 8 * v.len()) == longs_bytes(v),
        is_long(v[i]),
    ensures
        long_read(b, at + 8 * i) == v[i],
    decreases v.len(),
{
    lemma_longs_len(v);
    let front = v.drop_last();
    lemma_longs_len(front);
    let whole = longs_bytes(v);
    let n = front.len() as int;
    let s = b.subrange(at, at + 8 * v.len());
    if i == n {
        let x = v.last() as int;
        let hi = x / 0x1_0000_0000;
        let lo = x % 0x1_0000_0000;
        assert(whole.subrange(8 * n, 8 * n + 8) =~= long_bytes(v.last() as i64));
        assert(b.subrange(at + 8 * n, at + 8 * n + 4) =~= word_bytes(hi)) by {
            assert forall|k: int| 0 <= k < 4 implies b[at + 8 * n + k] == word_bytes(hi)[k] by {
                assert(s[8 * n + k] == b[at + 8 * n + k]);
                assert(whole.subrange(8 * n, 8 * n + 8)[k] == long_bytes(v.last() as i64)[k]);
            }
        }
        assert(b.subrange(at + 8 * n + 4, at + 8 * n + 8) =~= word_bytes(lo)) by {
            assert forall|k: int| 0 <= k < 4 implies b[at + 8 * n + 4 + k] == word_bytes(
                lo,
            )[k] by {
                assert(s[8 * n + 4 + k] == b[at + 8 * n + 4 + k]);
                assert(whole.subrange(8 * n, 8 * n + 8)[4 + k] == long_bytes(
                    v.last() as i64,
                )[4 + k]);
            }
        }
        lemma_word_read(b, at + 8 * n, hi);
        lemma_word_read(b, at + 8 * n + 4, lo);
    } else {
        assert(b.subrange(at, at + 8 * n) =~= longs_bytes(front)) by {
            assert forall|k: int| 0 <= k < 8 * n implies b[at + k] == longs_bytes(front)[k] by {
                assert(s[k] == b[at + k]);
                assert(whole[k] == longs_bytes(front)[k]);
            }
        }
        assert(front[i] == v[i]);
        lemma_longs_at(b, at, front, i);
    }
}

proof fn lemma_singles_at(b: Seq<u8>, at: int, v: Seq<u32>, i: int)
    requires
        0 <= i < v.len(),
        0 <= at,
        at + 4 * v.len() <= b.len(),
        b.subrange(at, at + 4 * v.len()) == single_bytes(v),
    ensures
        word_read(b, at + 4 * i) == v[i],
    decreases v.len(),
{
    lemma_singles_len(v);
    let front = v.drop_last();
    lemma_singles_len(front);
    let n = front.len() as int;
    let s = b.subrange(at, at + 4 * v.len());
    let whole = single_bytes(v);
    if i == n {
        assert(b.subrange(at + 4 * n, at + 4 * n + 4) =~= word_bytes(v.last() as int)) by {
            assert forall|k: int| 0 <= k < 4 implies b[at + 4 * n + k] == word_bytes(
                v.last() as int,
            )[k] by {
                assert(s[4 * n + k] == b[at + 4 * n + k]);
                assert(whole[4 * n + k] == word_bytes(v.last() as int)[k]);
            }
        }
        lemma_word_read(b, at + 4 * n, v.last() as int);
    } else {
        assert(b.subrange(at, at + 4 * n) =~= single_bytes(front)) by {
            assert forall|k: int| 0 <= k < 4 * n implies b[at + k] == single_bytes(front)[k] by {
                assert(s[k] == b[at + k]);
                assert(whole[k] == single_bytes(front)[k]);
            }
        }
        assert(front[i] == v[i]);
        lemma_singles_at(b, at, front, i);
    }
}

/// Where the fields of a pose datagram begin: behind address, tags, version and
/// source.
pub open spec fn fields_at(format: OscFormat, source_id: Seq<char>) -> int {
    let address: int = match format {
        OscFormat::Quaternion => 24,
        OscFormat::Euler => 20,
    };
    let source = encode_utf8(source_id).len() as int;
    address + 20 + 4 + source - source % 4 + 4
}

/// What a receiver reads first from a pose datagram: the address and the type
/// tags of the protocol.
pub proof fn pose_datagrams_open_with_address_and_tags(
    b: Seq<u8>,
    pose: PoseSnapshot,
    format: OscFormat,
    source_id: Seq<char>,
    tx_sequence: u64,
    age_ns: u64,
)
    requires
        is_pose_datagram(b, pose, format, source_id, tx_sequence, age_ns),
    ensures
        format == OscFormat::Quaternion ==> text_at(b, 0, "/posebridge/quaternion"@, 24) && text_at(
            b,
            24,
            ",ishhhhhhhhihhffff"@,
            20,
        ),
        format == OscFormat::Euler ==> text_at(b, 0, "/posebridge/euler"@, 20) && text_at(
            b,
            20,
            ",ishhhhhhhhihhfff"@,
            20,
        ),
{
    let singles = lemma_patterns(b, pose, format, source_id, tx_sequence, age_ns);
    lemma_texts(b, pose, format, source_id, tx_sequence, age_ns, singles);
}

/// Behind its tags a pose datagram has the protocol's version, 3, and the source,
/// terminated; it ends with its last value.
pub proof fn pose_datagrams_name_version_and_source(
    b: Seq<u8>,
    pose: PoseSnapshot,
    format: OscFormat,
    source_id: Seq<char>,
    tx_sequence: u64,
    age_ns: u64,
)
    requires
        is_pose_datagram(b, pose, format, source_id, tx_sequence, age_ns),
    ensures
        ({
            let p = fields_at(format, source_id);
            let a: int = match format {
                OscFormat::Quaternion => 24,
                OscFormat::Euler => 20,
            };
            let source = encode_utf8(source_id);
            &&& b.len() == (match format {
                OscFormat::Quaternion => p + 100,
                OscFormat::Euler => p + 96,
            })
            &&& word_read(b, a + 20) == 3
            &&& b.subrange(a + 24, a + 24 + source.len()) == source
            &&& b.subrange(a + 24 + source.len(), p) == Seq::new(
                (p - a - 24 - source.len()) as nat,
                |i: int| 0u8,
            )
        }),
{
    let singles = lemma_patterns(b, pose, format, source_id, tx_sequence, age_ns);
    lemma_source(b, pose, format, source_id, tx_sequence, age_ns, singles);
}

/// Then follow instance, session, sequence, sending number, reference epoch,
/// revision, reception time, age, kind of sample time, sample time and clock
/// epoch, each where it belongs.
#[verifier::spinoff_prover]
#[verifier::rlimit(40)]
pub proof fn pose_datagrams_hold_their_fields(
    b: Seq<u8>,
    pose: PoseSnapshot,
    format: OscFormat,
    source_id: Seq<char>,
    tx_sequence: u64,
    age_ns: u64,
)
    requires
        is_pose_datagram(b, pose, format, source_id, tx_sequence, age_ns),
        header_fits(pose, tx_sequence, age_ns),
    ensures
        ({
            let p = fields_at(format, source_id);
            &&& long_read(b, p) == pose.instance_id
            &&& long_read(b, p + 8) == pose.session_id
            &&& long_read(b, p + 16) == pose.sequence
            &&& long_read(b, p + 24) == tx_sequence
            &&& long_read(b, p + 32) == pose.reference_epoch
            &&& long_read(b, p + 40) == pose.metadata_revision
            &&& long_read(b, p + 48) == pose.received_ns
            &&& long_read(b, p + 56) == age_ns
            &&& match pose.sample_time {
                None => {
                    &&& word_read(b, p + 64) == 0
                    &&& long_read(b, p + 68) == 0
                    &&& long_read(b, p + 76) == 0
                },
                Some(t) => {
                    &&& word_read(b, p + 64) == (if t.kind
                        == crate::model::SampleTimeKind::DeviceCalendar {
                        1int
                    } else {
                        2int
                    })
                    &&& long_read(b, p + 68) == t.time_ms
                    &&& long_read(b, p + 76) == t.clock_epoch
                },
            }
        }),
{
    let p = fields_at(format, source_id);
    let h = header(pose, tx_sequence, age_ns);
    let singles = lemma_patterns(b, pose, format, source_id, tx_sequence, age_ns);
    lemma_head(b, pose, format, source_id, tx_sequence, age_ns, singles);
    assert forall|i: int| 0 <= i < h.len() implies is_long(#[trigger] h[i]) by {}
    lemma_fields(b, p, h, time_kind(pose));
    lemma_header(pose, tx_sequence, age_ns);
}

proof fn lemma_header(pose: PoseSnapshot, tx_sequence: u64, age_ns: u64)
    ensures
        ({
            let h = header(pose, tx_sequence, age_ns);
            &&& h[0] == pose.instance_id
            &&& h[1] == pose.session_id
            &&& h[2] == pose.sequence
            &&& h[3] == tx_sequence
            &&& h[4] == pose.reference_epoch
            &&& h[5] == pose.metadata_revision
            &&& h[6] == pose.received_ns
            &&& h[7] == age_ns
            &&& pose.sample_time is None ==> h[8] == 0 && h[9] == 0
            &&& pose.sample_time is Some ==> h[8] == pose.sample_time->0.time_ms && h[9]
                == pose.sample_time->0.clock_epoch
        }),
{
}

/// The binary32 patterns of a datagram.
proof fn lemma_patterns(
    b: Seq<u8>,
    pose: PoseSnapshot,
    format: OscFormat,
    source_id: Seq<char>,
    tx_sequence: u64,
    age_ns: u64,
) -> (singles: Seq<u32>)
    requires
        is_pose_datagram(b, pose, format, source_id, tx_sequence, age_ns),
    ensures
        b == pose_datagram(pose, format, source_id, tx_sequence, age_ns, singles),
        singles.len() == pose_values(pose, format).len(),
{
    let values = pose_values(pose, format);
    choose|singles: Seq<u32>|
        {
            &&& singles.len() == values.len()
            &&& forall|i: int| 0 <= i < values.len() ==> rounds_to(#[trigger] values[i], singles[i])
            &&& b == #[trigger] pose_datagram(
                pose,
                format,
                source_id,
                tx_sequence,
                age_ns,
                singles,
            )
        }
}

/// Where the fields of a datagram stand.
proof fn lemma_head(
    b: Seq<u8>,
    pose: PoseSnapshot,
    format: OscFormat,
    source_id: Seq<char>,
    tx_sequence: u64,
    age_ns: u64,
    singles: Seq<u32>,
)
    requires
        b == pose_datagram(pose, format, source_id, tx_sequence, age_ns, singles),
        singles.len() == pose_values(pose, format).len(),
    ensures
        ({
            let p = fields_at(format, source_id);
            let h = header(pose, tx_sequence, age_ns);
            &&& 0 <= p
            &&& p + 84 <= b.len()
            &&& b.subrange(p, p + 64) == longs_bytes(h.take(8))
            &&& b.subrange(p + 64, p + 68) == word_bytes(time_kind(pose))
            &&& b.subrange(p + 68, p + 84) == longs_bytes(h.skip(8))
        }),
{
    lemma_parts(b, pose, format, source_id, tx_sequence, age_ns, singles);
}

/// The values of a pose datagram are those of the pose, in order, each rounded to
/// the nearest binary32 number.
pub proof fn pose_datagrams_hold_their_values(
    b: Seq<u8>,
    pose: PoseSnapshot,
    format: OscFormat,
    source_id: Seq<char>,
    tx_sequence: u64,
    age_ns: u64,
    i: int,
)
    requires
        is_pose_datagram(b, pose, format, source_id, tx_sequence, age_ns),
        0 <= i < 3 || (i == 3 && format == OscFormat::Quaternion),
    ensures
        ({
            let read = word_read(b, fields_at(format, source_id) + 84 + 4 * i);
            let value = match format {
                OscFormat::Quaternion => pose.quaternion_xyzw[i],
                OscFormat::Euler => pose.euler_deg[i],
            };
            0 <= read < 0x1_0000_0000 && rounds_to(value, read as u32)
        }),
{
    lemma_datagram_values(b, pose, format, source_id, tx_sequence, age_ns, i);
}

#[verifier::spinoff_prover]
#[verifier::rlimit(40)]
proof fn lemma_parts(
    b: Seq<u8>,
    pose: PoseSnapshot,
    format: OscFormat,
    source_id: Seq<char>,
    tx_sequence: u64,
    age_ns: u64,
    singles: Seq<u32>,
)
    requires
        b == pose_datagram(pose, format, source_id, tx_sequence, age_ns, singles),
        singles.len() == pose_values(pose, format).len(),
    ensures
        ({
            let h = header(pose, tx_sequence, age_ns);
            let p = fields_at(format, source_id);
            let a: int = match format {
                OscFormat::Quaternion => 24,
                OscFormat::Euler => 20,
            };
            let n = singles.len() as int;
            &&& b.len() == p + 84 + 4 * n
            &&& b.subrange(0, a) == terminated(encode_utf8(pose_address(format)))
            &&& b.subrange(a, a + 20) == terminated(pose_tags(singles.len()))
            &&& b.subrange(a + 20, a + 24) == word_bytes(PROTOCOL_VERSION as int)
            &&& b.subrange(a + 24, p) == terminated(encode_utf8(source_id))
            &&& b.subrange(p, p + 64) == longs_bytes(h.take(8))
            &&& b.subrange(p + 64, p + 68) == word_bytes(time_kind(pose))
            &&& b.subrange(p + 68, p + 84) == longs_bytes(h.skip(8))
            &&& b.subrange(p + 84, p + 84 + 4 * n) == single_bytes(singles)
        }),
{
    reveal_strlit("/posebridge/quaternion");
    reveal_strlit("/posebridge/euler");
    vstd::utf8::is_ascii_chars_encode_utf8(pose_address(format));
    let h = header(pose, tx_sequence, age_ns);
    lemma_longs_len(h.take(8));
    lemma_longs_len(h.skip(8));
    lemma_singles_len(singles);
    let p = fields_at(format, source_id);
    let a: int = match format {
        OscFormat::Quaternion => 24,
        OscFormat::Euler => 20,
    };
    let n = singles.len() as int;
    assert(terminated(encode_utf8(pose_address(format))).len() == a);
    assert(terminated(pose_tags(singles.len())).len() == 20);
    assert(terminated(encode_utf8(source_id)).len() == p - a - 24);
    assert(b.subrange(0, a) =~= terminated(encode_utf8(pose_address(format))));
    assert(b.subrange(a, a + 20) =~= terminated(pose_tags(singles.len())));
    assert(b.subrange(a + 20, a + 24) =~= word_bytes(PROTOCOL_VERSION as int));
    assert(b.subrange(a + 24, p) =~= terminated(encode_utf8(source_id)));
    assert(b.subrange(p, p + 64) =~= longs_bytes(h.take(8)));
    assert(b.subrange(p + 64, p + 68) =~= word_bytes(time_kind(pose)));
    assert(b.subrange(p + 68, p + 84) =~= longs_bytes(h.skip(8)));
    assert(b.subrange(p + 84, p + 84 + 4 * n) =~= single_bytes(singles));
}

#[verifier::spinoff_prover]
#[verifier::rlimit(40)]
proof fn lemma_datagram_values(
    b: Seq<u8>,
    pose: PoseSnapshot,
    format: OscFormat,
    source_id: Seq<char>,
    tx_sequence: u64,
    age_ns: u64,
    i: int,
)
    requires
        is_pose_datagram(b, pose, format, source_id, tx_sequence, age_ns),
        0 <= i < pose_values(pose, format).len(),
    ensures
        ({
            let read = word_read(b, fields_at(format, source_id) + 84 + 4 * i);
            0 <= read < 0x1_0000_0000 && rounds_to(pose_values(pose, format)[i], read as u32)
        }),
{
    let values = pose_values(pose, format);
    let singles = choose|singles: Seq<u32>|
        {
            &&& singles.len() == values.len()
            &&& forall|i: int| 0 <= i < values.len() ==> rounds_to(#[trigger] values[i], singles[i])
            &&& b == #[trigger] pose_datagram(
                pose,
                format,
                source_id,
                tx_sequence,
                age_ns,
                singles,
            )
        };
    lemma_parts(b, pose, format, source_id, tx_sequence, age_ns, singles);
    lemma_singles_at(b, fields_at(format, source_id) + 84, singles, i);
    assert(rounds_to(values[i], singles[i]));
}

#[verifier::spinoff_prover]
#[verifier::rlimit(40)]
proof fn lemma_fields(b: Seq<u8>, p: int, h: Seq<u64>, kind: int)
    requires
        h.len() == 10,
        0 <= kind <= 2,
        0 <= p,
        p + 84 <= b.len(),
        b.subrange(p, p + 64) == longs_bytes(h.take(8)),
        b.subrange(p + 64, p + 68) == word_bytes(kind),
        b.subrange(p + 68, p + 84) == longs_bytes(h.skip(8)),
        forall|i: int| 0 <= i < h.len() ==> is_long(#[trigger] h[i]),
    ensures
        long_read(b, p) == h[0],
        long_read(b, p + 8) == h[1],
        long_read(b, p + 16) == h[2],
        long_read(b, p + 24) == h[3],
        long_read(b, p + 32) == h[4],
        long_read(b, p + 40) == h[5],
        long_read(b, p + 48) == h[6],
        long_read(b, p + 56) == h[7],
        word_read(b, p + 64) == kind,
        long_read(b, p + 68) == h[8],
        long_read(b, p + 76) == h[9],
{
    lemma_eight(b, p, h);
    assert(h.skip(8)[0] == h[8] && h.skip(8)[1] == h[9]);
    assert(is_long(h[8]) && is_long(h[9]));
    lemma_longs_at(b, p + 68, h.skip(8), 0);
    lemma_longs_at(b, p + 68, h.skip(8), 1);
    lemma_word_read(b, p + 64, kind);
}

proof fn lemma_eight(b: Seq<u8>, p: int, h: Seq<u64>)
    requires
        h.len() == 10,
        0 <= p,
        p + 64 <= b.len(),
        b.subrange(p, p + 64) == longs_bytes(h.take(8)),
        forall|i: int| 0 <= i < h.len() ==> is_long(#[trigger] h[i]),
    ensures
        long_read(b, p) == h[0],
        long_read(b, p + 8) == h[1],
        long_read(b, p + 16) == h[2],
        long_read(b, p + 24) == h[3],
        long_read(b, p + 32) == h[4],
        long_read(b, p + 40) == h[5],
        long_read(b, p + 48) == h[6],
        long_read(b, p + 56) == h[7],
{
    lemma_one_of_eight(b, p, h, 0);
    lemma_one_of_eight(b, p, h, 1);
    lemma_one_of_eight(b, p, h, 2);
    lemma_one_of_eight(b, p, h, 3);
    lemma_one_of_eight(b, p, h, 4);
    lemma_one_of_eight(b, p, h, 5);
    lemma_one_of_eight(b, p, h, 6);
    lemma_one_of_eight(b, p, h, 7);
}

proof fn lemma_one_of_eight(b: Seq<u8>, p: int, h: Seq<u64>, i: int)
    requires
        h.len() == 10,
        0 <= i < 8,
        0 <= p,
        p + 64 <= b.len(),
        b.subrange(p, p + 64) == longs_bytes(h.take(8)),
        is_long(h[i]),
    ensures
        long_read(b, p + 8 * i) == h[i],
{
    assert(h.take(8)[i] == h[i]);
    assert(h.take(8).len() == 8);
    lemma_longs_at(b, p, h.take(8), i);
}

#[verifier::spinoff_prover]
#[verifier::rlimit(40)]
proof fn lemma_texts(
    b: Seq<u8>,
    pose: PoseSnapshot,
    format: OscFormat,
    source_id: Seq<char>,
    tx_sequence: u64,
    age_ns: u64,
    singles: Seq<u32>,
)
    requires
        b == pose_datagram(pose, format, source_id, tx_sequence, age_ns, singles),
        singles.len() == pose_values(pose, format).len(),
    ensures
        format == OscFormat::Quaternion ==> text_at(b, 0, "/posebridge/quaternion"@, 24) && text_at(
            b,
            24,
            ",ishhhhhhhhihhffff"@,
            20,
        ),
        format == OscFormat::Euler ==> text_at(b, 0, "/posebridge/euler"@, 20) && text_at(
            b,
            20,
            ",ishhhhhhhhihhfff"@,
            20,
        ),
{
    lemma_parts(b, pose, format, source_id, tx_sequence, age_ns, singles);
    reveal_strlit("/posebridge/quaternion");
    reveal_strlit("/posebridge/euler");
    reveal_strlit(",ishhhhhhhhihhffff");
    reveal_strlit(",ishhhhhhhhihhfff");
    let address = pose_address(format);
    vstd::utf8::is_ascii_chars_encode_utf8(address);
    let a: int = match format {
        OscFormat::Quaternion => 24,
        OscFormat::Euler => 20,
    };
    assert(terminated(encode_utf8(address)) =~= Seq::new(
        a as nat,
        |i: int|
            if i < address.len() {
                address[i] as u8
            } else {
                0u8
            },
    ));
    let text = match format {
        OscFormat::Quaternion => ",ishhhhhhhhihhffff"@,
        OscFormat::Euler => ",ishhhhhhhhihhfff"@,
    };
    assert(terminated(pose_tags(singles.len())) =~= Seq::new(
        20,
        |i: int|
            if i < text.len() {
                text[i] as u8
            } else {
                0u8
            },
    ));
}

#[verifier::spinoff_prover]
#[verifier::rlimit(40)]
proof fn lemma_source(
    b: Seq<u8>,
    pose: PoseSnapshot,
    format: OscFormat,
    source_id: Seq<char>,
    tx_sequence: u64,
    age_ns: u64,
    singles: Seq<u32>,
)
    requires
        b == pose_datagram(pose, format, source_id, tx_sequence, age_ns, singles),
        singles.len() == pose_values(pose, format).len(),
    ensures
        ({
            let p = fields_at(format, source_id);
            let a: int = match format {
                OscFormat::Quaternion => 24,
                OscFormat::Euler => 20,
            };
            let source = encode_utf8(source_id);
            &&& b.len() == p + 84 + 4 * singles.len()
            &&& word_read(b, a + 20) == PROTOCOL_VERSION
            &&& b.subrange(a + 24, a + 24 + source.len()) == source
            &&& b.subrange(a + 24 + source.len(), p) == Seq::new(
                (p - a - 24 - source.len()) as nat,
                |i: int| 0u8,
            )
        }),
{
    lemma_parts(b, pose, format, source_id, tx_sequence, age_ns, singles);
    let p = fields_at(format, source_id);
    let a: int = match format {
        OscFormat::Quaternion => 24,
        OscFormat::Euler => 20,
    };
    let source = encode_utf8(source_id);
    let n = source.len() as int;
    lemma_word_read(b, a + 20, PROTOCOL_VERSION as int);
    let t = b.subrange(a + 24, p);
    assert(t == terminated(source));
    assert(b.subrange(a + 24, a + 24 + n) =~= t.subrange(0, n));
    assert(t.subrange(0, n) =~= source);
    assert(b.subrange(a + 24 + n, p) =~= t.subrange(n, p - a - 24));
    assert(t.subrange(n, p - a - 24) =~= Seq::new((p - a - 24 - n) as nat, |i: int| 0u8));
}

/// The period of a rate is a second divided by it, to the nearest nanosecond.
pub proof fn periods_divide_a_second(rate: u32)
    requires
        1 <= rate <= 200,
    ensures
        -(rate as int) <= 2 * (rate * period_ns(rate) - 1_000_000_000) <= rate,
{
    let d = rate as int;
    let x = 1_000_000_000 + d / 2;
    let q = x / d;
    assert(q * d <= x < q * d + d) by (nonlinear_arith)
        requires
            d >= 1,
            q == x / d,
    ;
    assert(q * d == d * q) by (nonlinear_arith);
}

/// A pose that is fresh and was not the last one sent is sent as soon as its slot
/// has come; a stale or repeated one is dropped.
pub proof fn poses_are_sent_when_they_are_new(s: Sender, pose: PoseSnapshot, now: u64)
    ensures
        s.skips(pose) <==> !pose.fresh || (s.last_key matches Some((session, sequence)) && session
            == pose.session_id && sequence == pose.sequence),
        s.waits(now) <==> (s.next_slot matches Some(slot) && now < slot),
{
}

/// The samples that a sent pose has taken the place of are those numbered between
/// it and the last one sent of its session, or the first.
pub proof fn replaced_samples_are_counted(s: Sender, pose: PoseSnapshot, now: u64)
    requires
        pose.sequence >= 1,
        s.coalesced + pose.sequence <= u64::MAX,
    ensures
        ({
            let t = s.after_sending(pose, now);
            &&& t.last_key == Some((pose.session_id, pose.sequence))
            &&& match s.last_key {
                Some((session, sequence)) if session == pose.session_id && sequence
                    < pose.sequence => t.coalesced == s.coalesced + (pose.sequence - sequence - 1),
                Some((session, sequence)) if session == pose.session_id => t.coalesced
                    == s.coalesced,
                _ => t.coalesced == s.coalesced + (pose.sequence - 1),
            }
        }),
{
}

/// A description that was tried is wanted again when it has changed, and
/// otherwise 5 s later; a state when it has changed, 1 s later, or at the end.
/// Trying one leaves the other as it was.
pub proof fn telemetry_repeats_itself(
    t: Telemetry,
    instance_id: u64,
    revision: u64,
    state: ConnectionState,
    at: u64,
    other_instance: u64,
    other_revision: u64,
    other_state: ConnectionState,
    force: bool,
    now: u64,
)
    ensures
        ({
            let d = t.describing(instance_id, revision, at);
            let s = t.reporting(state, at);
            &&& d.info_wanted(other_instance, other_revision, now) <==> other_instance
                != instance_id || other_revision != revision || now >= at + 5_000_000_000
            &&& s.status_wanted(other_state, force, now) <==> force || other_state != state || now
                >= at + 1_000_000_000
            &&& d.status_wanted(other_state, force, now) == t.status_wanted(other_state, force, now)
            &&& s.info_wanted(other_instance, other_revision, now) == t.info_wanted(
                other_instance,
                other_revision,
                now,
            )
        }),
{
}

/// A field of 64 signed bits holds numbers below 2^63, and only those are sent.
pub proof fn long_fields_are_below_two_to_the_sixty_third(v: u64)
    ensures
        is_long(v) <==> v < 0x8000_0000_0000_0000,
{
}

/// A pose has a datagram exactly where each of its numbers fits its field and each
/// of its values has a finite binary32 number nearest to it.
pub proof fn poses_have_datagrams_unless_they_do_not_fit(
    pose: PoseSnapshot,
    format: OscFormat,
    tx_sequence: u64,
    age_ns: u64,
)
    ensures
        header_fits(pose, tx_sequence, age_ns) <==> {
            &&& is_long(pose.instance_id) && is_long(pose.session_id) && is_long(pose.sequence)
            &&& is_long(tx_sequence) && is_long(pose.reference_epoch)
            &&& is_long(pose.metadata_revision) && is_long(pose.received_ns) && is_long(age_ns)
            &&& pose.sample_time is Some ==> is_long(pose.sample_time->0.time_ms) && is_long(
                pose.sample_time->0.clock_epoch,
            )
        },
        values_fit(pose, OscFormat::Quaternion) <==> forall|i: int|
            0 <= i < 4 ==> !overflows(#[trigger] pose.quaternion_xyzw[i]),
        values_fit(pose, OscFormat::Euler) <==> forall|i: int|
            0 <= i < 3 ==> !overflows(#[trigger] pose.euler_deg[i]),
{
    let h = header(pose, tx_sequence, age_ns);
    assert(h[0] == pose.instance_id && h[1] == pose.session_id && h[2] == pose.sequence && h[3]
        == tx_sequence && h[4] == pose.reference_epoch && h[5] == pose.metadata_revision && h[6]
        == pose.received_ns && h[7] == age_ns);
    assert(pose.sample_time is Some ==> h[8] == pose.sample_time->0.time_ms && h[9]
        == pose.sample_time->0.clock_epoch);
    assert(pose.sample_time is None ==> h[8] == 0 && h[9] == 0);
    let q = pose_values(pose, OscFormat::Quaternion);
    let e = pose_values(pose, OscFormat::Euler);
    assert forall|i: int| 0 <= i < 4 implies #[trigger] q[i] == pose.quaternion_xyzw[i] by {}
    assert forall|i: int| 0 <= i < 3 implies #[trigger] e[i] == pose.euler_deg[i] by {}
    if values_fit(pose, OscFormat::Quaternion) {
        assert forall|i: int| 0 <= i < 4 implies !overflows(
            #[trigger] pose.quaternion_xyzw[i],
        ) by {
            assert(!overflows(q[i]));
        }
    }
    if values_fit(pose, OscFormat::Euler) {
        assert forall|i: int| 0 <= i < 3 implies !overflows(#[trigger] pose.euler_deg[i]) by {
            assert(!overflows(e[i]));
        }
    }
}

/// A pose that is sent keeps the cadence: the next slot is a period after this one
/// where that still lies ahead, and a period from now where it does not or there
/// was no slot. It is the next in number, and nothing waits any more.
pub proof fn sending_keeps_the_cadence(s: Sender, pose: PoseSnapshot, now: u64)
    requires
        !s.waits(now),
        s.tx_sequence < u64::MAX,
    ensures
        ({
            let t = s.after_sending(pose, now);
            &&& s.next_slot is None ==> t.next_slot == Some((now + s.interval_ns) as u128)
            &&& s.next_slot is Some && s.next_slot->0 + s.interval_ns > now ==> t.next_slot == Some(
                (s.next_slot->0 + s.interval_ns) as u128,
            )
            &&& s.next_slot is Some && s.next_slot->0 + s.interval_ns <= now ==> t.next_slot
                == Some((now + s.interval_ns) as u128)
            &&& t.tx_sequence == s.tx_sequence + 1
            &&& t.pending is None
            &&& t.send_errors == s.send_errors && t.interval_ns == s.interval_ns && t.format
                == s.format
        }),
{
}

} // verus!
