//! Register reads, device inspection and explicit device operations.
//!
//! An operation is a fixed plan for its command. `Operation` walks through the
//! plan: it names the next thing to do and is told how that went.

use crate::model::{
    AlgorithmMode, CalibrationState, DeviceCommand, DeviceObservation, Error, OperationOutcome,
    OutputFields, OutputProfile,
};
use crate::protocol::{
    command_register, length_of, register_of, vendor_rates, write_bytes, write_register, Frame,
    StreamFields, UNLOCK,
};
use crate::text::{decimal, decimal_text, hex, hex_text};
use vstd::prelude::*;

verus! {

/// How long one register may take to be read back.
pub const READ_TIMEOUT_NS: u64 = 3_000_000_000;

/// How long after a request it is sent again.
pub const READ_RETRY_NS: u64 = 250_000_000;

/// How long a write may take.
pub const WRITE_TIMEOUT_NS: u64 = 2_000_000_000;

/// How long a calibration may take to complete.
pub const COMPLETION_TIMEOUT_NS: u64 = 8_000_000_000;

/// A register word without its sign.
pub open spec fn unsigned(v: i16) -> u16 {
    (if v < 0 {
        v + 65536
    } else {
        v as int
    }) as u16
}

pub open spec fn unsigned_all(v: [i16; 8]) -> [u16; 8] {
    [
        unsigned(v[0]),
        unsigned(v[1]),
        unsigned(v[2]),
        unsigned(v[3]),
        unsigned(v[4]),
        unsigned(v[5]),
        unsigned(v[6]),
        unsigned(v[7]),
    ]
}

pub(crate) fn to_unsigned(v: i16) -> (r: u16)
    ensures
        r == unsigned(v),
{
    let wide: i32 = v as i32;
    if wide < 0 {
        (wide + 65536) as u16
    } else {
        wide as u16
    }
}

fn to_unsigned_all(v: &[i16; 8]) -> (r: [u16; 8])
    ensures
        r == unsigned_all(*v),
{
    [
        to_unsigned(v[0]),
        to_unsigned(v[1]),
        to_unsigned(v[2]),
        to_unsigned(v[3]),
        to_unsigned(v[4]),
        to_unsigned(v[5]),
        to_unsigned(v[6]),
        to_unsigned(v[7]),
    ]
}

/// The words of a register reply for `address`.
pub open spec fn reply_for(f: Frame, address: u16) -> Option<[u16; 8]> {
    match f {
        Frame::Registers { address: base, values } => if base == address {
            Some(unsigned_all(values))
        } else {
            None
        },
        _ => None,
    }
}

/// Whether a reply for `address` starts with the expected word, or with any.
pub open spec fn answers(f: Frame, address: u16, expected: Option<u16>) -> bool {
    reply_for(f, address) matches Some(v) && (expected is None || expected == Some(v[0]))
}

/// The words of the first frame that answers.
pub open spec fn first_answer(
    frames: Seq<Frame>,
    address: u16,
    expected: Option<u16>,
) -> Option<[u16; 8]>
    decreases frames.len(),
{
    if frames.len() == 0 {
        None
    } else if answers(frames[0], address, expected) {
        reply_for(frames[0], address)
    } else {
        first_answer(frames.skip(1), address, expected)
    }
}

/// The first word of the last reply for `address`.
pub open spec fn last_reply(frames: Seq<Frame>, address: u16) -> Option<u16>
    decreases frames.len(),
{
    if frames.len() == 0 {
        None
    } else if reply_for(frames.last(), address) is Some {
        Some((reply_for(frames.last(), address)->0)[0])
    } else {
        last_reply(frames.drop_last(), address)
    }
}

/// A reply that is taken for an expected word starts with that word.
pub proof fn answers_hold_the_expected_word(frames: Seq<Frame>, address: u16, value: u16)
    ensures
        first_answer(frames, address, Some(value)) matches Some(words) ==> words[0] == value,
    decreases frames.len(),
{
    if frames.len() > 0 {
        answers_hold_the_expected_word(frames.skip(1), address, value);
    }
}

/// How a register is reported that was asked to be `wanted` and is not.
pub open spec fn mismatch_text(address: u16, wanted: u16, observed: u16) -> Seq<char> {
    "register 0x"@ + hex(address as nat, 2) + ": requested "@ + decimal(wanted as nat)
        + ", read back "@ + decimal(observed as nat) + " after verification timeout"@
}

/// Waits for the reply to one register request.
#[derive(Clone, Copy, Debug)]
pub struct RegisterRead {
    pub address: u16,
    pub expected: Option<u16>,
    pub last_observed: Option<u16>,
}

impl RegisterRead {
    pub fn new(address: u16, expected: Option<u16>) -> (r: RegisterRead)
        ensures
            r == (RegisterRead { address, expected, last_observed: None }),
    {
        RegisterRead { address, expected, last_observed: None }
    }

    /// Looks for the reply among the frames of one read: the words of the first
    /// frame that answers, if there is one. The first word of what came last
    /// for this address is remembered.
    pub fn observe(&mut self, frames: &Vec<Frame>) -> (r: Option<[u16; 8]>)
        ensures
            r == first_answer(frames@, old(self).address, old(self).expected),
            *final(self) == (RegisterRead {
                last_observed: match r {
                    Some(v) => Some(v[0]),
                    None => if last_reply(frames@, old(self).address) is Some {
                        last_reply(frames@, old(self).address)
                    } else {
                        old(self).last_observed
                    },
                },
                ..*old(self)
            }),
    {
        let ghost start = *self;
        let mut i: usize = 0;
        assert(frames@.skip(0) =~= frames@);
        while i < frames.len()
            invariant
                i <= frames@.len(),
                start == *old(self),
                first_answer(frames@, start.address, start.expected) == first_answer(
                    frames@.skip(i as int),
                    start.address,
                    start.expected,
                ),
                *self == (RegisterRead {
                    last_observed: if last_reply(frames@.take(i as int), start.address) is Some {
                        last_reply(frames@.take(i as int), start.address)
                    } else {
                        start.last_observed
                    },
                    ..start
                }),
            decreases frames@.len() - i,
        {
            proof {
                assert(frames@.take(i + 1).drop_last() =~= frames@.take(i as int));
                assert(frames@.take(i + 1).last() == frames@[i as int]);
                assert(frames@.skip(i as int).skip(1) =~= frames@.skip(i + 1));
            }
            if let Frame::Registers { address, values } = &frames[i] {
                if *address == self.address {
                    let words = to_unsigned_all(values);
                    assert(reply_for(frames@[i as int], start.address) == Some(words));
                    self.last_observed = Some(words[0]);
                    let accepted = match self.expected {
                        None => true,
                        Some(v) => v == words[0],
                    };
                    if accepted {
                        assert(answers(frames@[i as int], start.address, start.expected));
                        return Some(words);
                    }
                }
            }
            i = i + 1;
        }
        assert(frames@.take(i as int) =~= frames@);
        None
    }

    /// The error for a reply that did not come in time: what was read instead
    /// of the expected word, where something was.
    pub fn timed_out(&self) -> (r: Error)
        ensures
            match (self.expected, self.last_observed) {
                (Some(wanted), Some(observed)) => r.is_protocol(
                    mismatch_text(self.address, wanted, observed),
                ),
                _ => r.is_timeout("readback register 0x"@ + hex(self.address as nat, 2)),
            },
    {
        let address = hex_text(self.address, 2);
        if let (Some(wanted), Some(observed)) = (self.expected, self.last_observed) {
            let mut s = "register 0x".to_string();
            s.append(address.as_str());
            s.append(": requested ");
            s.append(decimal_text(wanted as u64).as_str());
            s.append(", read back ");
            s.append(decimal_text(observed as u64).as_str());
            s.append(" after verification timeout");
            return Error::Protocol(s);
        }
        let mut s = "readback register 0x".to_string();
        s.append(address.as_str());
        Error::Timeout(s)
    }
}

/// What a register read does next.
#[derive(Clone, Copy, Debug, PartialEq, Eq, Structural)]
pub enum ReadStep {
    /// Send the request.
    Send,
    /// Wait for a reply, or for the deadline.
    Wait,
    GiveUp,
}

/// When the request of a register read is sent, sent again, and given up.
#[derive(Clone, Copy, Debug)]
pub struct ReadSchedule {
    pub began: u64,
    /// The request is sent again while no reply has come.
    pub resends: bool,
    /// When the request was sent last.
    pub sent: Option<u64>,
}

impl ReadSchedule {
    pub fn new(began: u64, resends: bool) -> (r: ReadSchedule)
        ensures
            r == (ReadSchedule { began, resends, sent: None }),
    {
        ReadSchedule { began, resends, sent: None }
    }

    /// When the request is sent next: at once, then 250 ms after the last time.
    pub open spec fn send_time(self) -> Option<int> {
        match self.sent {
            None => Some(self.began as int),
            Some(t) => if self.resends {
                Some(t + READ_RETRY_NS)
            } else {
                None
            },
        }
    }

    /// When the read is given up.
    pub open spec fn end_time(self) -> int {
        self.began + READ_TIMEOUT_NS
    }

    pub open spec fn step_at(self, now: u64) -> ReadStep {
        if now >= self.end_time() {
            ReadStep::GiveUp
        } else if self.send_time() matches Some(t) && now >= t {
            ReadStep::Send
        } else {
            ReadStep::Wait
        }
    }

    pub fn step(&self, now: u64) -> (r: ReadStep)
        ensures
            r == self.step_at(now),
    {
        let time: u128 = now as u128;
        if time >= self.began as u128 + READ_TIMEOUT_NS as u128 {
            return ReadStep::GiveUp;
        }
        let due = match self.sent {
            None => now >= self.began,
            Some(t) => self.resends && time >= t as u128 + READ_RETRY_NS as u128,
        };
        if due {
            ReadStep::Send
        } else {
            ReadStep::Wait
        }
    }

    /// The moment at which something other than `Wait` may be next.
    pub fn deadline(&self) -> (r: u128)
        ensures
            r == (match self.send_time() {
                Some(t) if t < self.end_time() => t,
                _ => self.end_time(),
            }),
    {
        let end: u128 = self.began as u128 + READ_TIMEOUT_NS as u128;
        match self.sent {
            None => self.began as u128,
            Some(t) => {
                let again: u128 = t as u128 + READ_RETRY_NS as u128;
                if self.resends && again < end {
                    again
                } else {
                    end
                }
            },
        }
    }

    pub open spec fn sent_at(self, now: u64) -> ReadSchedule {
        ReadSchedule { sent: Some(now), ..self }
    }

    /// The request has been sent.
    pub fn request_sent(&mut self, now: u64)
        ensures
            *final(self) == old(self).sent_at(now),
    {
        self.sent = Some(now);
    }

    /// After its requests were sent at these times.
    pub open spec fn after(self, sent: Seq<u64>) -> ReadSchedule {
        if sent.len() == 0 {
            self
        } else {
            self.sent_at(sent.last())
        }
    }

    /// Requests that became due at some times and had been sent at others.
    pub open spec fn follows(self, due: Seq<u64>, sent: Seq<u64>) -> bool {
        &&& due.len() == sent.len()
        &&& forall|i: int|
            0 <= i < due.len() ==> {
                &&& #[trigger] due[i] <= sent[i]
                &&& self.after(sent.take(i)).step_at(due[i]) == ReadStep::Send
            }
    }
}

/// Up to its deadline a read waits for a reply, and from then on it sends its
/// request or is given up.
pub proof fn reads_wait_for_their_deadline(s: ReadSchedule, now: u64)
    ensures
        ({
            let deadline = match s.send_time() {
                Some(t) if t < s.end_time() => t,
                _ => s.end_time(),
            };
            s.step_at(now) == ReadStep::Wait <==> now < deadline
        }),
{
}

/// A request is sent again 250 ms after the last time or later, within 3 s of
/// the first, twelve times in all at most; one that is not sent again is sent
/// once.
pub proof fn requests_are_spaced(s: ReadSchedule, due: Seq<u64>, sent: Seq<u64>)
    requires
        s.sent is None,
        s.follows(due, sent),
    ensures
        forall|i: int| 0 < i < due.len() ==> #[trigger] due[i] >= sent[i - 1] + 250_000_000,
        due.len() > 0 ==> s.began + 250_000_000 * (due.len() - 1) <= due.last() < s.began
            + 3_000_000_000,
        due.len() <= 12,
        !s.resends ==> due.len() <= 1,
    decreases due.len(),
{
    let n = due.len() as int;
    assert forall|i: int| 0 < i < n implies #[trigger] due[i] >= sent[i - 1] + 250_000_000 by {
        assert(sent.take(i).last() == sent[i - 1]);
        assert(s.after(sent.take(i)).step_at(due[i]) == ReadStep::Send);
    }
    if n > 0 {
        assert(s.after(sent.take(n - 1)).step_at(due[n - 1]) == ReadStep::Send);
    }
    if n > 1 {
        let d = due.drop_last();
        let t = sent.drop_last();
        assert forall|i: int| 0 <= i < d.len() implies {
            &&& #[trigger] d[i] <= t[i]
            &&& s.after(t.take(i)).step_at(d[i]) == ReadStep::Send
        } by {
            assert(due[i] <= sent[i]);
            assert(t.take(i) =~= sent.take(i));
        }
        requests_are_spaced(s, d, t);
        assert(due[n - 1] >= sent[n - 2] + 250_000_000);
        assert(due[n - 2] <= sent[n - 2]);
        assert(sent.take(n - 1).last() == sent[n - 2]);
    }
}

pub open spec fn calibration_of(calsw: u16) -> Option<CalibrationState> {
    if calsw == 0 {
        Some(CalibrationState::Idle)
    } else if calsw == 1 {
        Some(CalibrationState::AccelerometerActive)
    } else if calsw == 7 {
        Some(CalibrationState::MagneticActive)
    } else {
        None
    }
}

/// The rate that a rate register selects, in thousandths of a hertz.
pub open spec fn millihertz_of(register: u16) -> Option<u32> {
    if register == 1 {
        Some(100)
    } else if register == 2 {
        Some(500)
    } else if register == 3 {
        Some(1_000)
    } else if register == 4 {
        Some(2_000)
    } else if register == 5 {
        Some(5_000)
    } else if register == 6 {
        Some(10_000)
    } else if register == 7 {
        Some(20_000)
    } else if register == 8 {
        Some(50_000)
    } else if register == 9 {
        Some(100_000)
    } else if register == 11 {
        Some(200_000)
    } else {
        None
    }
}

/// The fields that an output register selects.
pub open spec fn fields_of(register: u16) -> Option<OutputFields> {
    if register == 0x61 || register == 0x01 || register == 0x04 || register == 0x81 || register
        == 0x84 || register == 0xa4 || register == 0xe4 {
        Some(
            OutputFields {
                sample_time: register >= 0x80,
                acceleration: register == 0x61 || register == 0xe4,
                angular_velocity: register == 0x61 || register == 0xa4 || register == 0xe4,
                euler: register == 0x61 || register == 0x01 || register == 0x81,
                quaternion: register == 0x04 || register == 0x84 || register == 0xa4 || register
                    == 0xe4,
            },
        )
    } else {
        None
    }
}

pub open spec fn algorithm_of(register: u16) -> Option<AlgorithmMode> {
    if register == 0 {
        Some(AlgorithmMode::NineAxis)
    } else if register == 1 {
        Some(AlgorithmMode::SixAxis)
    } else {
        None
    }
}

/// A rate register selects the rate that the command for that rate writes.
pub proof fn rate_registers_agree(hz: u32)
    requires
        crate::protocol::rate_code(hz) is Some,
    ensures
        millihertz_of(crate::protocol::rate_code(hz)->0) == Some((hz * 1000) as u32),
{
}

/// What the replies from registers 0x01, 0x0e, 0x1f and 0x2e say.
pub open spec fn observed(
    control: [u16; 8],
    output: [u16; 8],
    options: [u16; 8],
    version: [u16; 8],
    unix_ms: u64,
) -> DeviceObservation {
    DeviceObservation {
        valid: true,
        observed_unix_ms: Some(
            if unix_ms > i64::MAX {
                i64::MAX as u64
            } else {
                unix_ms
            },
        ),
        calsw: Some(control[0]),
        calibration_state: calibration_of(control[0]),
        rate_millihertz: millihertz_of(control[2]),
        output_fields: fields_of(output[0]),
        algorithm: algorithm_of(options[5]),
        firmware_version: if version[1] == 0 {
            Some(version[0])
        } else {
            None
        },
        rate_register: Some(control[2]),
        output_register: Some(output[0]),
        bandwidth_register: Some(options[0]),
        orientation_register: Some(options[4]),
        algorithm_register: Some(options[5]),
        firmware_registers: Some([version[0], version[1]]),
    }
}

fn read_rate(register: u16) -> (r: Option<u32>)
    ensures
        r == millihertz_of(register),
{
    match register {
        1 => Some(100),
        2 => Some(500),
        3 => Some(1_000),
        4 => Some(2_000),
        5 => Some(5_000),
        6 => Some(10_000),
        7 => Some(20_000),
        8 => Some(50_000),
        9 => Some(100_000),
        11 => Some(200_000),
        _ => None,
    }
}

fn read_fields(register: u16) -> (r: Option<OutputFields>)
    ensures
        r == fields_of(register),
{
    if !(register == 0x61 || register == 0x01 || register == 0x04 || register == 0x81 || register
        == 0x84 || register == 0xa4 || register == 0xe4) {
        return None;
    }
    Some(
        OutputFields {
            sample_time: register >= 0x80,
            acceleration: register == 0x61 || register == 0xe4,
            angular_velocity: register == 0x61 || register == 0xa4 || register == 0xe4,
            euler: register == 0x61 || register == 0x01 || register == 0x81,
            quaternion: register == 0x04 || register == 0x84 || register == 0xa4 || register
                == 0xe4,
        },
    )
}

/// The registers that an inspection reads, in order.
pub const INSPECTED: [u16; 4] = [0x01, 0x0e, 0x1f, 0x2e];

/// Puts an inspection together from the four replies. Words of a reply that
/// belong to other registers are ignored.
pub fn inspect(
    control: &[u16; 8],
    output: &[u16; 8],
    options: &[u16; 8],
    version: &[u16; 8],
    unix_ms: u64,
) -> (r: DeviceObservation)
    ensures
        r == observed(*control, *output, *options, *version, unix_ms),
{
    let time: u64 = if unix_ms > 0x7FFF_FFFF_FFFF_FFFF {
        0x7FFF_FFFF_FFFF_FFFF
    } else {
        unix_ms
    };
    let calibration_state = match control[0] {
        0 => Some(CalibrationState::Idle),
        1 => Some(CalibrationState::AccelerometerActive),
        7 => Some(CalibrationState::MagneticActive),
        _ => None,
    };
    let algorithm = match options[5] {
        0 => Some(AlgorithmMode::NineAxis),
        1 => Some(AlgorithmMode::SixAxis),
        _ => None,
    };
    DeviceObservation {
        valid: true,
        observed_unix_ms: Some(time),
        calsw: Some(control[0]),
        calibration_state,
        rate_millihertz: read_rate(control[2]),
        output_fields: read_fields(output[0]),
        algorithm,
        firmware_version: if version[1] == 0 {
            Some(version[0])
        } else {
            None
        },
        rate_register: Some(control[2]),
        output_register: Some(output[0]),
        bandwidth_register: Some(options[0]),
        orientation_register: Some(options[4]),
        algorithm_register: Some(options[5]),
        firmware_registers: Some([version[0], version[1]]),
    }
}

/// What an operation reports as it goes.
#[derive(Clone, Copy, Debug, PartialEq, Eq, Structural)]
pub enum Progress {
    /// A write is about to be sent; it may change the reference of the pose, or
    /// what the device keeps without power.
    WriteAttempt { reference: bool, persistent: bool },
    CommandSent,
    RegisterVerified,
    CompletionObserved,
}

/// What the first word of a register must be before anything is written.
#[derive(Clone, Copy, Debug, PartialEq, Eq, Structural)]
pub enum Rule {
    TwentyHertz,
    ShortProfile,
    NewFormat,
    SixAxis,
}

impl Rule {
    pub open spec fn allows(self, value: u16) -> bool {
        match self {
            Rule::TwentyHertz => value == 7,
            Rule::ShortProfile => value != 0xe4,
            Rule::NewFormat => value == 0x61 || value == 0x81 || value == 0x84 || value == 0xa4
                || value == 0xe4,
            Rule::SixAxis => value == 1,
        }
    }

    pub open spec fn refuses_with(self, value: u16, e: Error) -> bool {
        match self {
            Rule::TwentyHertz => e.is_invalid(
                "experimental full inertial output requires a verified 20 Hz rate"@,
            ),
            Rule::ShortProfile => e.is_invalid(
                "switch to a short output profile before leaving 20 Hz"@,
            ),
            Rule::NewFormat => e.is_protocol(
                "operation requires verified new-format firmware (0x0E=0x"@ + hex(value as nat, 4)
                    + ")"@,
            ),
            Rule::SixAxis => e.is_invalid(
                "zero-yaw requires six-axis mode; switch algorithm explicitly first"@,
            ),
        }
    }

    fn check(self, value: u16) -> (r: Result<(), Error>)
        ensures
            r is Ok <==> self.allows(value),
            r matches Err(e) ==> self.refuses_with(value, e),
    {
        match self {
            Rule::TwentyHertz => if value != 7 {
                return Err(
                    Error::invalid(
                        "experimental full inertial output requires a verified 20 Hz rate",
                    ),
                );
            },
            Rule::ShortProfile => if value == 0xe4 {
                return Err(Error::invalid("switch to a short output profile before leaving 20 Hz"));
            },
            Rule::NewFormat => if !(value == 0x61 || value == 0x81 || value == 0x84 || value == 0xa4
                || value == 0xe4) {
                let mut s =
                    "operation requires verified new-format firmware (0x0E=0x".to_string();
                s.append(hex_text(value, 4).as_str());
                s.append(")");
                return Err(Error::Protocol(s));
            },
            Rule::SixAxis => if value != 1 {
                return Err(
                    Error::invalid(
                        "zero-yaw requires six-axis mode; switch algorithm explicitly first",
                    ),
                );
            },
        }
        Ok(())
    }
}

/// How an operation ends that was carried through.
#[derive(Clone, Copy, Debug, PartialEq, Eq, Structural)]
pub enum Conclusion {
    ReferenceSaved,
    CommandSent,
    DefaultsRead,
    StartNotSeen,
    Calibrated,
    ReadBack { address: u8, value: u16 },
}

impl Conclusion {
    pub open spec fn spec_outcome(self) -> OperationOutcome {
        match self {
            Conclusion::ReferenceSaved => OperationOutcome::Unverified,
            Conclusion::CommandSent => OperationOutcome::Unverified,
            Conclusion::StartNotSeen => OperationOutcome::Unverified,
            _ => OperationOutcome::Succeeded,
        }
    }

    pub fn outcome(self) -> (r: OperationOutcome)
        ensures
            r == self.spec_outcome(),
    {
        match self {
            Conclusion::ReferenceSaved => OperationOutcome::Unverified,
            Conclusion::CommandSent => OperationOutcome::Unverified,
            Conclusion::StartNotSeen => OperationOutcome::Unverified,
            _ => OperationOutcome::Succeeded,
        }
    }

    pub open spec fn text(self) -> Seq<char> {
        match self {
            Conclusion::ReferenceSaved =>
            "angle-reference and SAVE sent; reference effect and power-cycle persistence unverified"@,
            Conclusion::CommandSent =>
            "command sent; effect/persistence requires independent verification"@,
            Conclusion::DefaultsRead =>
            "known defaults read back; calibration coefficients and power-cycle persistence unverified"@,
            Conclusion::StartNotSeen =>
            "calibration command sent; start was not observed, completion and accuracy unverified"@,
            Conclusion::Calibrated =>
            "CALSW start and completion observed; accuracy unverified, no SAVE sent"@,
            Conclusion::ReadBack { address, value } => "register 0x"@ + hex(address as nat, 2)
                + " readback verified: "@ + decimal(value as nat)
                + "; accuracy/persistence not inferred; no SAVE sent"@,
        }
    }

    /// What a person is told.
    pub fn message(self) -> (r: String)
        ensures
            r@ == self.text(),
    {
        match self {
            Conclusion::ReferenceSaved =>
            "angle-reference and SAVE sent; reference effect and power-cycle persistence unverified".to_string(),
            Conclusion::CommandSent =>
            "command sent; effect/persistence requires independent verification".to_string(),
            Conclusion::DefaultsRead =>
            "known defaults read back; calibration coefficients and power-cycle persistence unverified".to_string(),
            Conclusion::StartNotSeen =>
            "calibration command sent; start was not observed, completion and accuracy unverified".to_string(),
            Conclusion::Calibrated =>
            "CALSW start and completion observed; accuracy unverified, no SAVE sent".to_string(),
            Conclusion::ReadBack { address, value } => {
                let mut s = "register 0x".to_string();
                s.append(hex_text(address as u16, 2).as_str());
                s.append(" readback verified: ");
                s.append(decimal_text(value as u64).as_str());
                s.append("; accuracy/persistence not inferred; no SAVE sent");
                s
            },
        }
    }
}

/// The four reads of an inspection.
#[derive(Clone, Copy, Debug, PartialEq, Eq, Structural)]
pub enum Part {
    Control,
    Output,
    Options,
    Version,
}

/// One step of a plan.
#[derive(Clone, Copy, Debug)]
pub enum Item {
    /// Read a register and stop unless the rule allows its first word.
    Check { address: u16, rule: Rule },
    Write { bytes: [u8; 5] },
    Delay { millis: u64 },
    Report { progress: Progress },
    /// Read a register until its first word is `value`.
    Expect { address: u16, value: u16 },
    /// Read one part of an inspection; after the last, the defaults must stand.
    Observe { part: Part },
    /// Read whether the calibration has started; conclude if it has not.
    Started,
    /// Read every 100 ms until the calibration has ended, for 8 s at most.
    Poll,
    Finish { conclusion: Conclusion },
}

/// The checks before anything is written.
pub open spec fn checks(command: DeviceCommand) -> Seq<Item> {
    match command {
        DeviceCommand::Output { format } => if format
            == OutputProfile::ExperimentalFullInertial20Hz {
            seq![
                Item::Check { address: 0x03, rule: Rule::TwentyHertz },
                Item::Check { address: 0x0e, rule: Rule::NewFormat },
            ]
        } else {
            seq![Item::Check { address: 0x0e, rule: Rule::NewFormat }]
        },
        DeviceCommand::Rate { hz } => if hz != 20 {
            seq![Item::Check { address: 0x0e, rule: Rule::ShortProfile }]
        } else {
            seq![]
        },
        DeviceCommand::ResetDefaults => seq![Item::Check { address: 0x0e, rule: Rule::NewFormat }],
        DeviceCommand::ZeroYaw => seq![Item::Check { address: 0x24, rule: Rule::SixAxis }],
        _ => seq![],
    }
}

/// Whether a command may change the reference that poses are relative to.
pub open spec fn changes_reference(command: DeviceCommand) -> bool {
    !(command is Rate || command is Output || command is Save)
}

pub open spec fn is_persistent(command: DeviceCommand) -> bool {
    command is Save || command is ResetDefaults
}

/// Unlock, announce the write, write, and say that it was sent.
pub open spec fn writing(command: DeviceCommand) -> Seq<Item> {
    let (address, value) = register_of(command)->0;
    seq![
        Item::Write { bytes: UNLOCK },
        Item::Delay { millis: 200 },
        Item::Report {
            progress: Progress::WriteAttempt {
                reference: changes_reference(command),
                persistent: is_persistent(command),
            },
        },
        Item::Write { bytes: write_bytes(address, value) },
        Item::Report { progress: Progress::CommandSent },
    ]
}

/// What follows the write.
pub open spec fn aftermath(command: DeviceCommand) -> Seq<Item> {
    let (address, value) = register_of(command)->0;
    match command {
        DeviceCommand::AngleReference => seq![
            Item::Delay { millis: 100 },
            Item::Report {
                progress: Progress::WriteAttempt { reference: true, persistent: true },
            },
            Item::Write { bytes: write_bytes(0, 0) },
            Item::Finish { conclusion: Conclusion::ReferenceSaved },
        ],
        DeviceCommand::Save => seq![Item::Finish { conclusion: Conclusion::CommandSent }],
        DeviceCommand::ZeroYaw => seq![Item::Finish { conclusion: Conclusion::CommandSent }],
        DeviceCommand::ResetDefaults => seq![
            Item::Delay { millis: 100 },
            Item::Expect { address: 0x03, value: 6 },
            Item::Expect { address: 0x0e, value: 0x61 },
            Item::Expect { address: 0x24, value: 0 },
            Item::Observe { part: Part::Control },
            Item::Observe { part: Part::Output },
            Item::Observe { part: Part::Options },
            Item::Observe { part: Part::Version },
            Item::Report { progress: Progress::RegisterVerified },
            Item::Finish { conclusion: Conclusion::DefaultsRead },
        ],
        DeviceCommand::AccelCalibrate => seq![
            Item::Started,
            Item::Report { progress: Progress::RegisterVerified },
            Item::Poll,
            Item::Report { progress: Progress::CompletionObserved },
            Item::Finish { conclusion: Conclusion::Calibrated },
        ],
        DeviceCommand::MagStop => seq![
            Item::Delay { millis: 100 },
            Item::Expect { address: address as u16, value },
            Item::Report { progress: Progress::RegisterVerified },
            Item::Report { progress: Progress::CompletionObserved },
            Item::Finish { conclusion: Conclusion::ReadBack { address, value } },
        ],
        _ => seq![
            Item::Delay { millis: 100 },
            Item::Expect { address: address as u16, value },
            Item::Report { progress: Progress::RegisterVerified },
            Item::Finish { conclusion: Conclusion::ReadBack { address, value } },
        ],
    }
}

/// Everything that carrying out a command takes, in order.
pub open spec fn plan(command: DeviceCommand) -> Seq<Item> {
    checks(command) + writing(command) + aftermath(command)
}

fn build_checks(command: &DeviceCommand) -> (r: Vec<Item>)
    ensures
        r@ == checks(*command),
{
    let mut items: Vec<Item> = Vec::new();
    match command {
        DeviceCommand::Output { format } => {
            if *format == OutputProfile::ExperimentalFullInertial20Hz {
                items.push(Item::Check { address: 0x03, rule: Rule::TwentyHertz });
            }
            items.push(Item::Check { address: 0x0e, rule: Rule::NewFormat });
        },
        DeviceCommand::Rate { hz } => {
            if *hz != 20 {
                items.push(Item::Check { address: 0x0e, rule: Rule::ShortProfile });
            }
        },
        DeviceCommand::ResetDefaults => {
            items.push(Item::Check { address: 0x0e, rule: Rule::NewFormat });
        },
        DeviceCommand::ZeroYaw => {
            items.push(Item::Check { address: 0x24, rule: Rule::SixAxis });
        },
        _ => {},
    }
    assert(items@ =~= checks(*command));
    items
}

fn build_writing(command: &DeviceCommand, address: u8, value: u16, items: &mut Vec<Item>)
    requires
        register_of(*command) == Some((address, value)),
    ensures
        final(items)@ == old(items)@ + writing(*command),
{
    let ghost before = items@;
    let reference = !matches!(
        command,
        DeviceCommand::Rate { .. } | DeviceCommand::Output { .. } | DeviceCommand::Save
    );
    let persistent = matches!(command, DeviceCommand::Save | DeviceCommand::ResetDefaults);
    items.push(Item::Write { bytes: UNLOCK });
    items.push(Item::Delay { millis: 200 });
    items.push(Item::Report { progress: Progress::WriteAttempt { reference, persistent } });
    items.push(Item::Write { bytes: write_register(address, value) });
    items.push(Item::Report { progress: Progress::CommandSent });
    assert(items@ =~= before + writing(*command));
}

fn build_aftermath(command: &DeviceCommand, address: u8, value: u16, items: &mut Vec<Item>)
    requires
        register_of(*command) == Some((address, value)),
    ensures
        final(items)@ == old(items)@ + aftermath(*command),
{
    let ghost before = items@;
    match command {
        DeviceCommand::AngleReference => {
            items.push(Item::Delay { millis: 100 });
            items.push(
                Item::Report {
                    progress: Progress::WriteAttempt { reference: true, persistent: true },
                },
            );
            items.push(Item::Write { bytes: write_register(0, 0) });
            items.push(Item::Finish { conclusion: Conclusion::ReferenceSaved });
        },
        DeviceCommand::Save | DeviceCommand::ZeroYaw => {
            items.push(Item::Finish { conclusion: Conclusion::CommandSent });
        },
        DeviceCommand::ResetDefaults => {
            items.push(Item::Delay { millis: 100 });
            items.push(Item::Expect { address: 0x03, value: 6 });
            items.push(Item::Expect { address: 0x0e, value: 0x61 });
            items.push(Item::Expect { address: 0x24, value: 0 });
            items.push(Item::Observe { part: Part::Control });
            items.push(Item::Observe { part: Part::Output });
            items.push(Item::Observe { part: Part::Options });
            items.push(Item::Observe { part: Part::Version });
            items.push(Item::Report { progress: Progress::RegisterVerified });
            items.push(Item::Finish { conclusion: Conclusion::DefaultsRead });
        },
        DeviceCommand::AccelCalibrate => {
            items.push(Item::Started);
            items.push(Item::Report { progress: Progress::RegisterVerified });
            items.push(Item::Poll);
            items.push(Item::Report { progress: Progress::CompletionObserved });
            items.push(Item::Finish { conclusion: Conclusion::Calibrated });
        },
        _ => {
            items.push(Item::Delay { millis: 100 });
            items.push(Item::Expect { address: address as u16, value });
            items.push(Item::Report { progress: Progress::RegisterVerified });
            if matches!(command, DeviceCommand::MagStop) {
                items.push(Item::Report { progress: Progress::CompletionObserved });
            }
            items.push(Item::Finish { conclusion: Conclusion::ReadBack { address, value } });
        },
    }
    assert(items@ =~= before + aftermath(*command));
}

/// What is to be done next.
#[derive(Debug)]
pub enum Action {
    Read { address: u16, expected: Option<u16> },
    Write { bytes: [u8; 5] },
    Delay { millis: u64 },
    Report { progress: Progress },
    Finish { conclusion: Conclusion, observation: Option<DeviceObservation> },
    Fail { error: Error },
}

/// How the last action went.
#[derive(Debug)]
pub enum Reply {
    /// A write, a delay or a report is done.
    Done,
    /// A read gave these words.
    Registers { words: [u16; 8] },
    /// The deadline of the operation has passed.
    Expired,
    Failed { error: Error },
}

/// The four replies of an inspection, as far as they are in.
#[derive(Clone, Copy, Debug)]
pub struct Replies {
    pub control: [u16; 8],
    pub output: [u16; 8],
    pub options: [u16; 8],
}

/// A command on its way through its plan.
#[derive(Debug)]
pub struct Operation {
    pub items: Vec<Item>,
    /// The item under way; past the end once the operation is over.
    pub index: usize,
    /// Of a poll: the pause is over and the register is being read.
    pub reading: bool,
    /// Of a poll: when it is given up, in nanoseconds of the host clock.
    pub deadline: u128,
    pub replies: Replies,
    pub observation: Option<DeviceObservation>,
}

/// What to do for an item.
pub open spec fn request(item: Item, observation: Option<DeviceObservation>) -> Action {
    match item {
        Item::Check { address, .. } => Action::Read { address, expected: None },
        Item::Write { bytes } => Action::Write { bytes },
        Item::Delay { millis } => Action::Delay { millis },
        Item::Report { progress } => Action::Report { progress },
        Item::Expect { address, value } => Action::Read { address, expected: Some(value) },
        Item::Observe { part } => Action::Read {
            address: match part {
                Part::Control => 0x01,
                Part::Output => 0x0e,
                Part::Options => 0x1f,
                Part::Version => 0x2e,
            },
            expected: None,
        },
        Item::Started => Action::Read { address: 0x01, expected: None },
        Item::Poll => Action::Delay { millis: 100 },
        Item::Finish { conclusion } => Action::Finish { conclusion, observation },
    }
}

/// What a reply means for the item under way.
pub enum Verdict {
    Next,
    /// A poll reads the register.
    Look,
    /// A poll pauses again.
    Again,
    Conclude(Conclusion),
    Refuse,
}

pub open spec fn still_default(d: DeviceObservation) -> bool {
    d.rate_register == Some(6u16) && d.output_register == Some(0x61u16) && d.algorithm_register
        == Some(0u16)
}

impl Operation {
    /// The item under way is one of the plan, and the plan ends in a conclusion.
    pub open spec fn wf(&self) -> bool {
        &&& self.items@.len() > 0
        &&& self.items@.last() is Finish
        &&& self.index <= self.items@.len()
        &&& forall|i: int|
            0 <= i < self.items@.len() - 1 ==> !(#[trigger] self.items@[i] is Finish)
    }

    /// The inspection that the last of the four replies completes.
    pub open spec fn completed(&self, words: [u16; 8], unix_ms: u64) -> DeviceObservation {
        observed(self.replies.control, self.replies.output, self.replies.options, words, unix_ms)
    }

    pub open spec fn verdict(&self, reply: Reply, unix_ms: u64) -> Verdict {
        if self.index >= self.items@.len() {
            Verdict::Refuse
        } else {
            match (self.items@[self.index as int], reply) {
                (Item::Check { rule, .. }, Reply::Registers { words }) => if rule.allows(words[0]) {
                    Verdict::Next
                } else {
                    Verdict::Refuse
                },
                (Item::Write { .. }, Reply::Done) => Verdict::Next,
                (Item::Delay { .. }, Reply::Done) => Verdict::Next,
                (Item::Report { .. }, Reply::Done) => Verdict::Next,
                (Item::Expect { value, .. }, Reply::Registers { words }) => if words[0] == value {
                    Verdict::Next
                } else {
                    Verdict::Refuse
                },
                (Item::Observe { part }, Reply::Registers { words }) => if part == Part::Version
                    && !still_default(self.completed(words, unix_ms)) {
                    Verdict::Refuse
                } else {
                    Verdict::Next
                },
                (Item::Started, Reply::Registers { words }) => if words[0] == 1 {
                    Verdict::Next
                } else {
                    Verdict::Conclude(Conclusion::StartNotSeen)
                },
                (Item::Poll, Reply::Done) => if self.reading {
                    Verdict::Refuse
                } else {
                    Verdict::Look
                },
                (Item::Poll, Reply::Registers { words }) => if !self.reading {
                    Verdict::Refuse
                } else if words[0] == 0 {
                    Verdict::Next
                } else {
                    Verdict::Again
                },
                _ => Verdict::Refuse,
            }
        }
    }

    /// The item under way after a reply; past the end once the operation is over.
    pub open spec fn index_after(&self, reply: Reply, unix_ms: u64) -> int {
        match self.verdict(reply, unix_ms) {
            Verdict::Next => self.index + 1,
            Verdict::Look => self.index as int,
            Verdict::Again => self.index as int,
            _ => self.items@.len() as int,
        }
    }

    /// The replies of an inspection, and what they show, after one more reply.
    pub open spec fn noted(&self, reply: Reply, unix_ms: u64) -> (
        Replies,
        Option<DeviceObservation>,
    ) {
        match (self.verdict(reply, unix_ms), reply) {
            (
                Verdict::Next,
                Reply::Registers { words },
            ) => match self.items@[self.index as int] {
                Item::Observe { part } => match part {
                    Part::Control => (
                        Replies { control: words, ..self.replies },
                        self.observation,
                    ),
                    Part::Output => (Replies { output: words, ..self.replies }, self.observation),
                    Part::Options => (
                        Replies { options: words, ..self.replies },
                        self.observation,
                    ),
                    Part::Version => (self.replies, Some(self.completed(words, unix_ms))),
                },
                _ => (self.replies, self.observation),
            },
            _ => (self.replies, self.observation),
        }
    }

    /// Why a reply ends the operation.
    pub open spec fn refusal(&self, reply: Reply, e: Error) -> bool {
        match reply {
            Reply::Failed { error } => e == error,
            _ => if self.index >= self.items@.len() {
                e matches Error::Internal(m) && m@ == "unexpected device reply"@
            } else {
                match (self.items@[self.index as int], reply) {
                    (
                        Item::Check { rule, .. },
                        Reply::Registers { words },
                    ) => rule.refuses_with(words[0], e),
                    (
                        Item::Expect { address, value },
                        Reply::Registers { words },
                    ) => e.is_protocol(mismatch_text(address, value, words[0])),
                    (Item::Observe { .. }, Reply::Registers { .. }) => e.is_protocol(
                        "default configuration changed during verification"@,
                    ),
                    (Item::Poll, Reply::Expired) => e.is_timeout("calibration completion"@),
                    _ => e matches Error::Internal(m) && m@ == "unexpected device reply"@,
                }
            },
        }
    }

    /// Plans a command. Nothing is sent for a rate that the device does not have.
    pub fn new(command: &DeviceCommand) -> (r: Result<Operation, Error>)
        ensures
            match r {
                Ok(op) => {
                    &&& register_of(*command) is Some
                    &&& op.wf()
                    &&& op.items@ == plan(*command)
                    &&& op.index == 0
                    &&& !op.reading
                    &&& op.observation is None
                },
                Err(e) => register_of(*command) is None && e.is_invalid(
                    "supported device rates: 1, 2, 5, 10, 20, 50, 100, 200 Hz"@,
                ),
            },
    {
        let (address, value) = command_register(command)?;
        let mut items = build_checks(command);
        build_writing(command, address, value, &mut items);
        build_aftermath(command, address, value, &mut items);
        Ok(
            Operation {
                items,
                index: 0,
                reading: false,
                deadline: 0,
                replies: Replies { control: [0; 8], output: [0; 8], options: [0; 8] },
                observation: None,
            },
        )
    }

    /// What to do first.
    pub fn start(&self) -> (r: Action)
        requires
            self.wf(),
            self.index < self.items@.len(),
        ensures
            r == request(self.items@[self.index as int], self.observation),
    {
        self.current()
    }

    fn current(&self) -> (r: Action)
        requires
            self.index < self.items@.len(),
        ensures
            r == request(self.items@[self.index as int], self.observation),
    {
        match self.items[self.index] {
            Item::Check { address, .. } => Action::Read { address, expected: None },
            Item::Write { bytes } => Action::Write { bytes },
            Item::Delay { millis } => Action::Delay { millis },
            Item::Report { progress } => Action::Report { progress },
            Item::Expect { address, value } => Action::Read { address, expected: Some(value) },
            Item::Observe { part } => {
                let address: u16 = match part {
                    Part::Control => 0x01,
                    Part::Output => 0x0e,
                    Part::Options => 0x1f,
                    Part::Version => 0x2e,
                };
                Action::Read { address, expected: None }
            },
            Item::Started => Action::Read { address: 0x01, expected: None },
            Item::Poll => Action::Delay { millis: 100 },
            Item::Finish { conclusion } => Action::Finish {
                conclusion,
                observation: self.observation,
            },
        }
    }

    /// When the item under way is given up, where it has such a limit.
    pub fn deadline(&self) -> (r: Option<u128>)
        ensures
            r == (if self.index < self.items@.len() && self.items@[self.index as int] is Poll {
                Some(self.deadline)
            } else {
                None
            }),
    {
        if self.index < self.items.len() && matches!(self.items[self.index], Item::Poll) {
            Some(self.deadline)
        } else {
            None
        }
    }

    /// Takes how the last action went, at `now`, and says what to do next.
    pub fn step(&mut self, reply: Reply, now: u64, unix_ms: u64) -> (r: Action)
        requires
            old(self).wf(),
        ensures
            final(self).wf(),
            final(self).items@ == old(self).items@,
            final(self).index == old(self).index_after(reply, unix_ms),
            match old(self).verdict(reply, unix_ms) {
                Verdict::Next => {
                    &&& r == request(
                        old(self).items@[old(self).index + 1],
                        final(self).observation,
                    )
                    &&& !final(self).reading
                    &&& final(self).items@[final(self).index as int] is Poll
                        ==> final(self).deadline == now + COMPLETION_TIMEOUT_NS
                },
                Verdict::Look => {
                    &&& final(self).reading
                    &&& final(self).deadline == old(self).deadline
                    &&& r == (Action::Read { address: 0x01, expected: None })
                },
                Verdict::Again => {
                    &&& !final(self).reading
                    &&& final(self).deadline == old(self).deadline
                    &&& r == (Action::Delay { millis: 100 })
                },
                Verdict::Conclude(conclusion) => r == (Action::Finish {
                    conclusion,
                    observation: None,
                }),
                Verdict::Refuse => r matches Action::Fail { error } && old(self).refusal(
                    reply,
                    error,
                ),
            },
            (final(self).replies, final(self).observation) == old(self).noted(reply, unix_ms),
    {
        if self.index >= self.items.len() {
            self.index = self.items.len();
            return match reply {
                Reply::Failed { error } => Action::Fail { error },
                _ => Action::Fail { error: Error::Internal("unexpected device reply".to_string()) },
            };
        }
        let item = self.items[self.index];
        match (item, reply) {
            (_, Reply::Failed { error }) => {
                return self.fail(error);
            },
            (Item::Check { rule, .. }, Reply::Registers { words }) => match rule.check(words[0]) {
                Ok(()) => {},
                Err(error) => {
                    return self.fail(error);
                },
            },
            (Item::Write { .. }, Reply::Done) => {},
            (Item::Delay { .. }, Reply::Done) => {},
            (Item::Report { .. }, Reply::Done) => {},
            (Item::Expect { address, value }, Reply::Registers { words }) => {
                if words[0] != value {
                    let read = RegisterRead {
                        address,
                        expected: Some(value),
                        last_observed: Some(words[0]),
                    };
                    return self.fail(read.timed_out());
                }
            },
            (Item::Observe { part }, Reply::Registers { words }) => match part {
                Part::Control => {
                    self.replies.control = words;
                },
                Part::Output => {
                    self.replies.output = words;
                },
                Part::Options => {
                    self.replies.options = words;
                },
                Part::Version => {
                    let seen = inspect(
                        &self.replies.control,
                        &self.replies.output,
                        &self.replies.options,
                        &words,
                        unix_ms,
                    );
                    if seen.rate_register != Some(6u16) || seen.output_register != Some(0x61u16)
                        || seen.algorithm_register != Some(0u16) {
                        return self.fail(
                            Error::protocol("default configuration changed during verification"),
                        );
                    }
                    self.observation = Some(seen);
                },
            },
            (Item::Started, Reply::Registers { words }) => {
                if words[0] != 1 {
                    self.index = self.items.len();
                    return Action::Finish {
                        conclusion: Conclusion::StartNotSeen,
                        observation: None,
                    };
                }
            },
            (Item::Poll, Reply::Done) => {
                if !self.reading {
                    self.reading = true;
                    return Action::Read { address: 0x01, expected: None };
                }
                return self.fail(Error::Internal("unexpected device reply".to_string()));
            },
            (Item::Poll, Reply::Registers { words }) => {
                if !self.reading {
                    return self.fail(Error::Internal("unexpected device reply".to_string()));
                }
                if words[0] != 0 {
                    self.reading = false;
                    return Action::Delay { millis: 100 };
                }
            },
            (Item::Poll, Reply::Expired) => {
                return self.fail(Error::timeout("calibration completion"));
            },
            (_, _) => {
                return self.fail(Error::Internal("unexpected device reply".to_string()));
            },
        }
        self.index = self.index + 1;
        self.reading = false;
        if matches!(self.items[self.index], Item::Poll) {
            self.deadline = now as u128 + COMPLETION_TIMEOUT_NS as u128;
        }
        self.current()
    }

    fn fail(&mut self, error: Error) -> (r: Action)
        requires
            old(self).wf(),
        ensures
            final(self).wf(),
            final(self).items@ == old(self).items@,
            final(self).index == final(self).items@.len(),
            final(self).observation == old(self).observation,
            final(self).replies == old(self).replies,
            r == (Action::Fail { error }),
    {
        self.index = self.items.len();
        Action::Fail { error }
    }
}

/// The writes among some items, in order.
pub open spec fn writes(items: Seq<Item>) -> Seq<[u8; 5]>
    decreases items.len(),
{
    if items.len() == 0 {
        seq![]
    } else {
        match items.last() {
            Item::Write { bytes } => writes(items.drop_last()).push(bytes),
            _ => writes(items.drop_last()),
        }
    }
}

/// What a command ever writes: unlock, then its own register, and SAVE only
/// for an angle reference, for which it is part of the command.
pub proof fn only_the_command_is_written(command: DeviceCommand)
    requires
        register_of(command) is Some,
    ensures
        ({
            let (address, value) = register_of(command)->0;
            let own = seq![UNLOCK, write_bytes(address, value)];
            writes(plan(command)) == if command is AngleReference {
                own.push(write_bytes(0, 0))
            } else {
                own
            }
        }),
{
    let (address, value) = register_of(command)->0;
    let own = seq![UNLOCK, write_bytes(address, value)];
    lemma_writes_append(checks(command) + writing(command), aftermath(command));
    lemma_writes_append(checks(command), writing(command));
    lemma_no_writes(checks(command));
    assert(writes(writing(command)) =~= own) by {
        reveal_with_fuel(writes, 6);
        let w = writing(command);
        assert(w.drop_last() =~= w.take(4));
        assert(w.take(4).drop_last() =~= w.take(3));
        assert(w.take(3).drop_last() =~= w.take(2));
        assert(w.take(2).drop_last() =~= w.take(1));
        assert(w.take(1).drop_last() =~= w.take(0));
    }
    if command is AngleReference {
        assert(writes(aftermath(command)) =~= seq![write_bytes(0, 0)]) by {
            reveal_with_fuel(writes, 5);
            let w = aftermath(command);
            assert(w.drop_last() =~= w.take(3));
            assert(w.take(3).drop_last() =~= w.take(2));
            lemma_no_writes(w.take(2));
        }
    } else {
        lemma_no_writes(aftermath(command));
    }
}

proof fn lemma_no_writes(items: Seq<Item>)
    requires
        forall|i: int| 0 <= i < items.len() ==> !(#[trigger] items[i] is Write),
    ensures
        writes(items) == Seq::<[u8; 5]>::empty(),
    decreases items.len(),
{
    if items.len() > 0 {
        lemma_no_writes(items.drop_last());
    }
}

proof fn lemma_writes_append(a: Seq<Item>, b: Seq<Item>)
    ensures
        writes(a + b) == writes(a) + writes(b),
    decreases b.len(),
{
    if b.len() == 0 {
        assert(a + b =~= a);
        assert(writes(b) =~= seq![]);
        assert(writes(a) + writes(b) =~= writes(a));
    } else {
        lemma_writes_append(a, b.drop_last());
        assert((a + b).drop_last() =~= a + b.drop_last());
        assert((a + b).last() == b.last());
        assert(writes(a + b) =~= writes(a) + writes(b));
    }
}

/// Every check of a plan comes before its first write, so that a command which
/// a check refuses has written nothing.
pub proof fn checks_precede_writes(command: DeviceCommand, i: int, j: int)
    requires
        register_of(command) is Some,
        0 <= i < plan(command).len(),
        0 <= j < plan(command).len(),
        plan(command)[i] is Check,
        plan(command)[j] is Write,
    ensures
        i < j,
{
    let n = checks(command).len();
    let w = writing(command).len();
    assert(forall|k: int|
        0 <= k < checks(command).len() ==> !(#[trigger] checks(command)[k] is Write));
    assert(forall|k: int| 0 <= k < w ==> !(#[trigger] writing(command)[k] is Check));
    assert(forall|k: int|
        0 <= k < aftermath(command).len() ==> !(#[trigger] aftermath(command)[k] is Check));
    if i >= n + w {
        assert(plan(command)[i] == aftermath(command)[i - n - w]);
    } else if i >= n {
        assert(plan(command)[i] == writing(command)[i - n]);
    }
    if j < n {
        assert(plan(command)[j] == checks(command)[j]);
    }
}

/// A write other than unlock is announced by the report right before it.
pub proof fn writes_are_announced(command: DeviceCommand, j: int)
    requires
        register_of(command) is Some,
        0 <= j < plan(command).len(),
        plan(command)[j] matches Item::Write { bytes } && bytes != UNLOCK,
    ensures
        j > 0,
        plan(command)[j - 1] matches Item::Report { progress } && progress is WriteAttempt,
{
    let n = checks(command).len() as int;
    let w = writing(command).len() as int;
    if j < n {
        assert(plan(command)[j] == checks(command)[j]);
    } else if j < n + w {
        assert(plan(command)[j] == writing(command)[j - n]);
        assert(j - n == 3);
        assert(plan(command)[j - 1] == writing(command)[2]);
    } else {
        assert(plan(command)[j] == aftermath(command)[j - n - w]);
        assert(j - n - w == 2);
        assert(plan(command)[j - 1] == aftermath(command)[1]);
    }
}

/// A reply gives the words of the read that an item asks for, and the first of
/// them is the word that the item waits for.
pub open spec fn reads_back(item: Item, reply: Reply, address: u16, value: u16) -> bool {
    &&& request(item, None) matches Action::Read { address: asked, .. } && asked == address
    &&& reply matches Reply::Registers { words } && words[0] == value
}

/// A register is reported as verified only right after it was read back with
/// the value that the command has written. Of the defaults, which a command of
/// its own restores, it is the inspection that must show them.
pub proof fn verified_only_if_read_back(
    op: Operation,
    command: DeviceCommand,
    reply: Reply,
    unix_ms: u64,
)
    requires
        register_of(command) is Some,
        op.items@ == plan(command),
        op.verdict(reply, unix_ms) is Next,
        op.index + 1 < plan(command).len(),
        plan(command)[op.index + 1] == (Item::Report { progress: Progress::RegisterVerified }),
    ensures
        ({
            let (address, value) = register_of(command)->0;
            let item = plan(command)[op.index as int];
            if command is ResetDefaults {
                reply matches Reply::Registers { words } && still_default(
                    op.completed(words, unix_ms),
                )
            } else {
                reads_back(item, reply, address as u16, value)
            }
        }),
{
    let n = checks(command).len() as int;
    let w = writing(command).len() as int;
    let j = op.index + 1;
    if j < n {
        assert(plan(command)[j] == checks(command)[j]);
    } else if j < n + w {
        assert(plan(command)[j] == writing(command)[j - n]);
    } else {
        let k = j - n - w;
        assert(plan(command)[j] == aftermath(command)[k]);
        if k == 0 {
            assert(aftermath(command)[0] is Report);
        } else {
            assert(plan(command)[j - 1] == aftermath(command)[k - 1]);
        }
    }
}

/// An operation from its start on: each state is what a reply has made of the
/// one before.
pub open spec fn is_course(
    command: DeviceCommand,
    states: Seq<Operation>,
    replies: Seq<Reply>,
    clocks: Seq<u64>,
) -> bool {
    &&& states.len() == replies.len() + 1
    &&& clocks.len() == replies.len()
    &&& states[0].index == 0
    &&& forall|i: int| 0 <= i < states.len() ==> (#[trigger] states[i]).items@ == plan(command)
    &&& forall|i: int|
        0 <= i < replies.len() ==> states[i + 1].index == #[trigger] states[i].index_after(
            replies[i],
            clocks[i],
        )
}

/// An operation that stands at an item has had, for each item before it, a
/// reply that let it go on.
pub proof fn passed_items_were_answered(
    command: DeviceCommand,
    states: Seq<Operation>,
    replies: Seq<Reply>,
    clocks: Seq<u64>,
    k: int,
)
    requires
        is_course(command, states, replies, clocks),
        0 <= k < states.last().index < plan(command).len(),
    ensures
        exists|i: int|
            0 <= i < replies.len() && states[i].index == k && (#[trigger] states[i].verdict(
                replies[i],
                clocks[i],
            )) is Next,
    decreases replies.len(),
{
    let n = replies.len() as int;
    let before = states[n - 1];
    assert(states.last() == states[n]);
    assert(states[n - 1 + 1].index == before.index_after(replies[n - 1], clocks[n - 1]));
    if before.index > k {
        let s = states.drop_last();
        let r = replies.drop_last();
        let c = clocks.drop_last();
        assert(s.last() == before);
        assert forall|i: int| 0 <= i < r.len() implies s[i + 1].index
            == #[trigger] s[i].index_after(r[i], c[i]) by {
            assert(states[i + 1].index == states[i].index_after(replies[i], clocks[i]));
        }
        assert forall|i: int| 0 <= i < s.len() implies (#[trigger] s[i]).items@ == plan(
            command,
        ) by {
            assert(s[i] == states[i]);
        }
        passed_items_were_answered(command, s, r, c, k);
        let i = choose|i: int|
            0 <= i < r.len() && s[i].index == k && (#[trigger] s[i].verdict(r[i], c[i])) is Next;
        assert(states[i].verdict(replies[i], clocks[i]) is Next);
    } else {
        assert(before.verdict(replies[n - 1], clocks[n - 1]) is Next);
        assert(states[n - 1].index == k);
    }
}

/// An operation that ends by saying that a register was read back with a value
/// has had a reply from that register with that value.
pub proof fn readback_conclusions_are_true(
    command: DeviceCommand,
    states: Seq<Operation>,
    replies: Seq<Reply>,
    clocks: Seq<u64>,
    address: u8,
    value: u16,
)
    requires
        register_of(command) is Some,
        is_course(command, states, replies, clocks),
        states.last().index < plan(command).len(),
        plan(command)[states.last().index as int] == (Item::Finish {
            conclusion: Conclusion::ReadBack { address, value },
        }),
    ensures
        register_of(command) == Some((address, value)),
        exists|i: int|
            0 <= i < replies.len() && reads_back(
                #[trigger] plan(command)[states[i].index as int],
                replies[i],
                address as u16,
                value,
            ),
{
    let n = checks(command).len() as int;
    let w = writing(command).len() as int;
    let j = states.last().index as int;
    if j < n {
        assert(plan(command)[j] == checks(command)[j]);
    } else if j < n + w {
        assert(plan(command)[j] == writing(command)[j - n]);
    } else {
        assert(plan(command)[j] == aftermath(command)[j - n - w]);
    }
    let k = n + w + 1;
    assert(plan(command)[k] == aftermath(command)[1]);
    assert(plan(command)[k] == (Item::Expect { address: address as u16, value }));
    passed_items_were_answered(command, states, replies, clocks, k);
    let i = choose|i: int|
        0 <= i < replies.len() && states[i].index == k && (#[trigger] states[i].verdict(
            replies[i],
            clocks[i],
        )) is Next;
    assert(states[i].items@ == plan(command));
    assert(reads_back(plan(command)[states[i].index as int], replies[i], address as u16, value));
}

/// A calibration is reported as complete only once the calibration switch was
/// read as idle.
pub proof fn completion_is_reported_only_if_seen(
    command: DeviceCommand,
    states: Seq<Operation>,
    replies: Seq<Reply>,
    clocks: Seq<u64>,
)
    requires
        register_of(command) is Some,
        is_course(command, states, replies, clocks),
        states.last().index < plan(command).len(),
        plan(command)[states.last().index as int] == (Item::Report {
            progress: Progress::CompletionObserved,
        }),
    ensures
        exists|i: int|
            0 <= i < replies.len() && {
                let item = #[trigger] plan(command)[states[i].index as int];
                &&& item is Poll || item == (Item::Expect { address: 0x01, value: 0 })
                &&& replies[i] matches Reply::Registers { words } && words[0] == 0
            },
{
    let n = checks(command).len() as int;
    let w = writing(command).len() as int;
    let j = states.last().index as int;
    if j < n {
        assert(plan(command)[j] == checks(command)[j]);
    } else if j < n + w {
        assert(plan(command)[j] == writing(command)[j - n]);
    } else {
        assert(plan(command)[j] == aftermath(command)[j - n - w]);
    }
    let k = if command is MagStop {
        n + w + 1
    } else {
        n + w + 2
    };
    assert(plan(command)[k] == aftermath(command)[k - n - w]);
    passed_items_were_answered(command, states, replies, clocks, k);
    let i = choose|i: int|
        0 <= i < replies.len() && states[i].index == k && (#[trigger] states[i].verdict(
            replies[i],
            clocks[i],
        )) is Next;
    assert(states[i].items@ == plan(command));
    assert(plan(command)[states[i].index as int] == plan(command)[k]);
}

/// An inspection tells a calibration by the value that its command writes, and
/// idle by the value that ends one.
pub proof fn inspections_tell_calibrations_by_their_commands(
    control: [u16; 8],
    output: [u16; 8],
    options: [u16; 8],
    version: [u16; 8],
    unix_ms: u64,
)
    ensures
        ({
            let seen = observed(control, output, options, version, unix_ms).calibration_state;
            let switch = control[0];
            &&& seen == Some(CalibrationState::Idle) <==> switch == 0
            &&& seen == Some(CalibrationState::Idle) <==> register_of(DeviceCommand::MagStop)
                == Some((1u8, switch))
            &&& seen == Some(CalibrationState::AccelerometerActive) <==> register_of(
                DeviceCommand::AccelCalibrate,
            ) == Some((1u8, switch))
            &&& seen == Some(CalibrationState::MagneticActive) <==> register_of(
                DeviceCommand::MagStart,
            ) == Some((1u8, switch))
            &&& seen is None <==> switch != 0 && switch != 1 && switch != 7
        }),
{
}

/// An inspection shows the rate, the algorithm and the output that the commands
/// for them have written, and the raw words of the registers as they were read.
pub proof fn inspections_show_what_commands_have_written(
    control: [u16; 8],
    output: [u16; 8],
    options: [u16; 8],
    version: [u16; 8],
    unix_ms: u64,
    hz: u32,
    mode: AlgorithmMode,
)
    ensures
        ({
            let d = observed(control, output, options, version, unix_ms);
            &&& register_of(DeviceCommand::Rate { hz }) == Some((3u8, control[2]))
                ==> d.rate_millihertz == Some((1000 * hz) as u32)
            &&& register_of(DeviceCommand::Algorithm { mode }) == Some((0x24u8, options[5])) <==> d.algorithm
                == Some(mode)
            &&& d.valid
            &&& d.calsw == Some(control[0])
            &&& d.rate_register == Some(control[2])
            &&& d.output_register == Some(output[0])
            &&& d.bandwidth_register == Some(options[0])
            &&& d.orientation_register == Some(options[4])
            &&& d.algorithm_register == Some(options[5])
            &&& d.firmware_registers matches Some(v) && v[0] == version[0] && v[1] == version[1]
            &&& d.firmware_version == (if version[1] == 0 {
                Some(version[0])
            } else {
                None
            })
            &&& unix_ms < 0x8000_0000_0000_0000 ==> d.observed_unix_ms == Some(unix_ms)
        }),
{
}

/// The rates that a register value stands for, in hertz, as the vendor lists them
/// from value 3 on; values 1 and 2 are a tenth and a half of a hertz.
pub proof fn rates_are_shown_as_the_vendor_lists_them(register: u16)
    ensures
        register == 1 ==> millihertz_of(register) == Some(100u32),
        register == 2 ==> millihertz_of(register) == Some(500u32),
        3 <= register <= 11 ==> millihertz_of(register) == (match vendor_rates()[register - 3] {
            Some(hz) => Some((1000 * hz) as u32),
            None => None,
        }),
        register == 0 || register > 11 ==> millihertz_of(register) is None,
{
    let v = vendor_rates();
    assert(v[0] == Some(1u32) && v[1] == Some(2u32) && v[2] == Some(5u32) && v[3] == Some(10u32)
        && v[4] == Some(20u32) && v[5] == Some(50u32) && v[6] == Some(100u32) && v[7] is None
        && v[8] == Some(200u32));
}

/// A higher register value never stands for a lower rate.
pub proof fn rates_grow_with_their_register(a: u16, b: u16)
    requires
        a < b,
        millihertz_of(a) is Some,
        millihertz_of(b) is Some,
    ensures
        millihertz_of(a)->0 < millihertz_of(b)->0,
{
}

/// The output fields of a profile are those that frames with its flag carry, and
/// account for the whole length of such a frame.
pub proof fn output_fields_are_those_of_the_frames(flag: u8, f: StreamFields)
    requires
        flag != 0x71,
    ensures
        fields_of(flag as u16) is Some <==> length_of(flag) is Some,
        fields_of(flag as u16) matches Some(o) ==> {
            &&& length_of(flag) == Some(
                2 + (if o.sample_time {
                    8int
                } else {
                    0
                }) + (if o.acceleration {
                    6int
                } else {
                    0
                }) + (if o.angular_velocity {
                    6int
                } else {
                    0
                }) + (if o.euler {
                    6int
                } else {
                    0
                }) + (if o.quaternion {
                    8int
                } else {
                    0
                }),
            )
            &&& f.belong_to(flag) ==> {
                &&& o.sample_time == (f.stamp is Some)
                &&& o.acceleration == (f.acceleration is Some)
                &&& o.angular_velocity == (f.angular_velocity is Some)
                &&& o.euler == (f.euler_xyz is Some)
                &&& o.quaternion == (f.quaternion_wxyz is Some)
            }
            &&& flag == 0x61 ==> !o.sample_time && o.acceleration && o.angular_velocity && o.euler
                && !o.quaternion
        },
{
}

/// Register words above 255 select no output that is known.
pub proof fn outputs_are_one_byte(register: u16)
    requires
        register >= 256,
    ensures
        fields_of(register) is None,
{
}

/// What is checked before a write, in terms of the commands that set it: full
/// inertial output needs the register value of 20 Hz, another rate needs an
/// output that is not full inertial, zeroing the yaw needs six axes, and output
/// and defaults need a register value that some profile has.
pub proof fn checks_are_about_what_commands_set(value: u16)
    ensures
        Rule::TwentyHertz.allows(value) <==> register_of(DeviceCommand::Rate { hz: 20 }) == Some(
            (3u8, value),
        ),
        Rule::ShortProfile.allows(value) <==> register_of(
            DeviceCommand::Output { format: OutputProfile::ExperimentalFullInertial20Hz },
        ) != Some((0x0eu8, value)),
        Rule::SixAxis.allows(value) <==> register_of(
            DeviceCommand::Algorithm { mode: AlgorithmMode::SixAxis },
        ) == Some((0x24u8, value)),
        Rule::NewFormat.allows(value) <==> exists|format: OutputProfile|
            #[trigger] register_of(DeviceCommand::Output { format }) == Some((0x0eu8, value)),
{
    let motion = register_of(DeviceCommand::Output { format: OutputProfile::Motion });
    let euler = register_of(DeviceCommand::Output { format: OutputProfile::TimestampEuler });
    let quaternion = register_of(
        DeviceCommand::Output { format: OutputProfile::TimestampQuaternion },
    );
    let gyro = register_of(
        DeviceCommand::Output { format: OutputProfile::TimestampGyroQuaternion },
    );
    let full = register_of(
        DeviceCommand::Output { format: OutputProfile::ExperimentalFullInertial20Hz },
    );
    assert(motion == Some((0x0eu8, 0x61u16)) && euler == Some((0x0eu8, 0x81u16)) && quaternion
        == Some((0x0eu8, 0x84u16)) && gyro == Some((0x0eu8, 0xa4u16)) && full == Some(
        (0x0eu8, 0xe4u16),
    ));
}

/// Which commands are checked, and by which register: what no other command
/// needs is not asked for.
pub proof fn commands_are_checked(command: DeviceCommand, address: u16, rule: Rule)
    requires
        register_of(command) is Some,
    ensures
        plan(command).contains(Item::Check { address, rule }) <==> {
            ||| address == 0x03 && rule == Rule::TwentyHertz && command == (DeviceCommand::Output {
                format: OutputProfile::ExperimentalFullInertial20Hz,
            })
            ||| address == 0x0e && rule == Rule::ShortProfile && (command matches DeviceCommand::Rate {
                hz,
            } && hz != 20)
            ||| address == 0x0e && rule == Rule::NewFormat && (command is Output || command
                is ResetDefaults)
            ||| address == 0x24 && rule == Rule::SixAxis && command is ZeroYaw
        },
{
    let item = Item::Check { address, rule };
    let p = plan(command);
    let n = checks(command).len() as int;
    let w = writing(command).len() as int;
    if p.contains(item) {
        let j = choose|j: int| 0 <= j < p.len() && p[j] == item;
        if j >= n + w {
            assert(p[j] == aftermath(command)[j - n - w]);
        } else if j >= n {
            assert(p[j] == writing(command)[j - n]);
        } else {
            assert(p[j] == checks(command)[j]);
        }
    }
    assert(forall|k: int| 0 <= k < n ==> p[k] == #[trigger] checks(command)[k]);
    if n > 0 {
        assert(p[0] == checks(command)[0]);
    }
    if n > 1 {
        assert(p[1] == checks(command)[1]);
    }
}

/// A command announces that it may change the reference if it calibrates, changes
/// the algorithm, zeroes the yaw, sets the reference or restores the defaults, and
/// that it changes what the device keeps if it writes the register for saving.
pub proof fn effects_are_announced(command: DeviceCommand)
    requires
        register_of(command) is Some,
    ensures
        changes_reference(command) <==> command is AccelCalibrate || command is MagStart || command
            is MagStop || command is Algorithm || command is ZeroYaw || command is AngleReference
            || command is ResetDefaults,
        is_persistent(command) <==> (register_of(command)->0).0 == 0,
        exists|i: int|
            0 <= i < plan(command).len() && #[trigger] plan(command)[i] == (Item::Report {
                progress: Progress::WriteAttempt {
                    reference: changes_reference(command),
                    persistent: is_persistent(command),
                },
            }),
{
    let n = checks(command).len() as int;
    assert(plan(command)[n + 2] == writing(command)[2]);
}

/// An operation that runs to the end of its plan has succeeded exactly where the
/// plan has a register verified.
pub proof fn success_is_verification(command: DeviceCommand)
    requires
        register_of(command) is Some,
    ensures
        plan(command).last() matches Item::Finish { conclusion } && (conclusion.spec_outcome()
            == OperationOutcome::Succeeded <==> plan(command).contains(
            Item::Report { progress: Progress::RegisterVerified },
        )) && (conclusion.spec_outcome() == OperationOutcome::Succeeded || conclusion.spec_outcome()
            == OperationOutcome::Unverified),
        Conclusion::StartNotSeen.spec_outcome() == OperationOutcome::Unverified,
{
    let p = plan(command);
    let n = checks(command).len() as int;
    let w = writing(command).len() as int;
    let a = aftermath(command);
    let item = Item::Report { progress: Progress::RegisterVerified };
    assert(p.last() == a.last());
    assert(forall|k: int| 0 <= k < a.len() ==> p[n + w + k] == #[trigger] a[k]);
    if p.contains(item) {
        let j = choose|j: int| 0 <= j < p.len() && p[j] == item;
        if j < n {
            assert(p[j] == checks(command)[j]);
        } else if j < n + w {
            assert(p[j] == writing(command)[j - n]);
        } else {
            assert(p[j] == a[j - n - w]);
        }
    }
    if command is ResetDefaults {
        assert(p[n + w + 8] == item);
    } else if command is AccelCalibrate {
        assert(p[n + w + 1] == item);
    } else if !(command is AngleReference || command is Save || command is ZeroYaw) {
        assert(p[n + w + 2] == item);
    }
}

/// The defaults are those of the commands that set them: 10 Hz, motion output,
/// nine axes. They are what the restored registers are waited for and what the
/// inspection after it must show.
pub proof fn defaults_are_ten_hertz_motion_and_nine_axes(d: DeviceObservation)
    ensures
        still_default(d) <==> {
            &&& d.rate_register is Some && register_of(DeviceCommand::Rate { hz: 10 }) == Some(
                (3u8, d.rate_register->0),
            )
            &&& d.output_register is Some && register_of(
                DeviceCommand::Output { format: OutputProfile::Motion },
            ) == Some((0x0eu8, d.output_register->0))
            &&& d.algorithm_register is Some && register_of(
                DeviceCommand::Algorithm { mode: AlgorithmMode::NineAxis },
            ) == Some((0x24u8, d.algorithm_register->0))
        },
        ({
            let a = aftermath(DeviceCommand::ResetDefaults);
            &&& a.contains(Item::Expect { address: 3, value: 6 })
            &&& a.contains(Item::Expect { address: 0x0e, value: 0x61 })
            &&& a.contains(Item::Expect { address: 0x24, value: 0 })
        }),
{
    let a = aftermath(DeviceCommand::ResetDefaults);
    assert(a[1] == (Item::Expect { address: 3, value: 6 }));
    assert(a[2] == (Item::Expect { address: 0x0e, value: 0x61 }));
    assert(a[3] == (Item::Expect { address: 0x24, value: 0 }));
}

/// After an unlock a command waits 200 ms, and after its own write 100 ms before
/// anything is read back or saved. Accelerometer calibration is looked for at
/// once.
pub proof fn writes_are_followed_by_their_pauses(command: DeviceCommand, i: int)
    requires
        register_of(command) is Some,
        0 <= i < plan(command).len() - 2,
        plan(command)[i] matches Item::Write { bytes },
    ensures
        ({
            let bytes = plan(command)[i]->Write_bytes;
            let next = plan(command)[i + 1];
            let then = plan(command)[i + 2];
            &&& bytes == UNLOCK ==> next == (Item::Delay { millis: 200 })
            &&& bytes != UNLOCK ==> next == (Item::Report { progress: Progress::CommandSent })
            &&& bytes != UNLOCK && command is AccelCalibrate ==> then is Started
            &&& bytes != UNLOCK && !(command is AccelCalibrate || command is Save || command
                is ZeroYaw) ==> then == (Item::Delay { millis: 100 })
        }),
{
    let p = plan(command);
    let n = checks(command).len() as int;
    let w = writing(command).len() as int;
    let a = aftermath(command);
    if i < n {
        assert(p[i] == checks(command)[i]);
    } else if i < n + w {
        assert(p[i] == writing(command)[i - n]);
        assert(p[n + 1] == writing(command)[1]);
        assert(p[n + 4] == writing(command)[4]);
        assert(p[n + 5] == a[0]);
    } else {
        assert(p[i] == a[i - n - w]);
    }
    let (address, value) = register_of(command)->0;
    assert(write_bytes(address, value)[2] == address);
    assert(UNLOCK[2] == 0x69);
}

/// A calibration that was seen to start is given 8 s to end, counted from then.
pub proof fn calibrations_are_given_eight_seconds(op: Operation)
    ensures
        COMPLETION_TIMEOUT_NS == 8 * 1_000_000_000,
        request(Item::Poll, op.observation) == (Action::Delay { millis: 100 }),
        request(Item::Started, op.observation) == (Action::Read { address: 1, expected: None }),
{
}

/// The answer among some frames is the first reply from the register that starts
/// with the expected word, or with any where none is expected.
pub proof fn answers_are_the_first_that_fit(
    frames: Seq<Frame>,
    address: u16,
    expected: Option<u16>,
    i: int,
    values: [i16; 8],
)
    requires
        0 <= i < frames.len(),
        frames[i] == (Frame::Registers { address, values }),
        forall|k: int| 0 <= k < 8 ==> #[trigger] values[k] >= 0,
        expected is None || expected == Some(values[0] as u16),
        forall|j: int|
            0 <= j < i ==> match #[trigger] frames[j] {
                Frame::Registers { address: other, values: v } => other != address || (expected
                    matches Some(e) && e as int != (if v[0] < 0 {
                    v[0] + 65536
                } else {
                    v[0] as int
                })),
                _ => true,
            },
    ensures
        first_answer(frames, address, expected) matches Some(words) && forall|k: int|
            0 <= k < 8 ==> #[trigger] words[k] == values[k],
    decreases i,
{
    if i > 0 {
        let rest = frames.skip(1);
        assert(rest[i - 1] == frames[i]);
        assert forall|j: int| 0 <= j < i - 1 implies match #[trigger] rest[j] {
            Frame::Registers { address: other, values: v } => other != address || (expected matches
                Some(e) && e as int != (if v[0] < 0 {
                v[0] + 65536
            } else {
                v[0] as int
            })),
            _ => true,
        } by {
            assert(rest[j] == frames[j + 1]);
        }
        assert(!answers(frames[0], address, expected));
        answers_are_the_first_that_fit(rest, address, expected, i - 1, values);
    } else {
        assert(values[0] >= 0 && values[1] >= 0 && values[2] >= 0 && values[3] >= 0 && values[4]
            >= 0 && values[5] >= 0 && values[6] >= 0 && values[7] >= 0);
    }
}

/// A register word that is below zero as a signed number is read as the unsigned
/// number of the same bits.
pub proof fn words_keep_their_bits(v: i16)
    ensures
        v >= 0 ==> unsigned(v) == v,
        v < 0 ==> unsigned(v) == v + 65536,
        unsigned(v) as int % 65536 == v as int % 65536,
{
}

/// A request that is not answered is due again 250 ms after it was sent, where it
/// is sent again at all, and a read ends 3 s after it began.
pub proof fn reads_keep_their_times(s: ReadSchedule, sent: u64, now: u64)
    ensures
        s.sent_at(sent).step_at(now) == ReadStep::GiveUp <==> now >= s.began + 3_000_000_000,
        s.sent_at(sent).step_at(now) == ReadStep::Send <==> s.resends && now >= sent + 250_000_000
            && now < s.began + 3_000_000_000,
        s.sent is None ==> (s.step_at(now) == ReadStep::Send <==> s.began <= now < s.began
            + 3_000_000_000),
{
}

/// What each item of a plan does. An inspection reads registers 0x01, 0x0e, 0x1f
/// and 0x2e.
pub proof fn items_ask_for_what_they_say(item: Item, seen: Option<DeviceObservation>)
    ensures
        item matches Item::Check { address, .. } ==> request(item, seen) == (Action::Read {
            address,
            expected: None,
        }),
        item matches Item::Expect { address, value } ==> request(item, seen) == (Action::Read {
            address,
            expected: Some(value),
        }),
        item matches Item::Write { bytes } ==> request(item, seen) == (Action::Write { bytes }),
        item matches Item::Delay { millis } ==> request(item, seen) == (Action::Delay { millis }),
        item matches Item::Report { progress } ==> request(item, seen) == (Action::Report {
            progress,
        }),
        item matches Item::Finish { conclusion } ==> request(item, seen) == (Action::Finish {
            conclusion,
            observation: seen,
        }),
        item matches Item::Observe { part } ==> {
            &&& part == Part::Control <==> request(item, seen) == (Action::Read {
                address: 0x01,
                expected: None,
            })
            &&& part == Part::Output <==> request(item, seen) == (Action::Read {
                address: 0x0e,
                expected: None,
            })
            &&& part == Part::Options <==> request(item, seen) == (Action::Read {
                address: 0x1f,
                expected: None,
            })
            &&& part == Part::Version <==> request(item, seen) == (Action::Read {
                address: 0x2e,
                expected: None,
            })
        },
{
}

/// The replies of an inspection are kept under the register that they came from,
/// and the last one completes it.
pub proof fn inspections_keep_their_replies(op: Operation, part: Part, words: [u16; 8], unix_ms: u64)
    requires
        op.wf(),
        op.index < op.items@.len(),
        op.items@[op.index as int] == (Item::Observe { part }),
    ensures
        ({
            let reply = Reply::Registers { words };
            let (replies, seen) = op.noted(reply, unix_ms);
            &&& part == Part::Control ==> replies == (Replies { control: words, ..op.replies })
            &&& part == Part::Output ==> replies == (Replies { output: words, ..op.replies })
            &&& part == Part::Options ==> replies == (Replies { options: words, ..op.replies })
            &&& part != Part::Version ==> seen == op.observation && op.verdict(reply, unix_ms)
                is Next
            &&& part == Part::Version && op.verdict(reply, unix_ms) is Next ==> seen == Some(
                observed(
                    op.replies.control,
                    op.replies.output,
                    op.replies.options,
                    words,
                    unix_ms,
                ),
            )
        }),
{
}

/// A calibration that was not seen to start ends the operation as unverified; one
/// that runs is read again until it has ended, and given up when its time is over.
pub proof fn calibrations_are_followed(op: Operation, words: [u16; 8], unix_ms: u64)
    requires
        op.index < op.items@.len(),
    ensures
        op.items@[op.index as int] is Started ==> {
            &&& words[0] == 1 ==> op.verdict(Reply::Registers { words }, unix_ms) is Next
            &&& words[0] != 1 ==> op.verdict(Reply::Registers { words }, unix_ms)
                == Verdict::Conclude(Conclusion::StartNotSeen)
        },
        op.items@[op.index as int] is Poll ==> {
            &&& op.reading && words[0] == 0 ==> op.verdict(Reply::Registers { words }, unix_ms)
                is Next
            &&& op.reading && words[0] != 0 ==> op.verdict(Reply::Registers { words }, unix_ms)
                is Again
            &&& !op.reading ==> op.verdict(Reply::Done, unix_ms) is Look
            &&& op.verdict(Reply::Expired, unix_ms) is Refuse
        },
{
}

/// The registers of an inspection are listed in the order in which its parts are
/// read.
pub proof fn inspected_registers_are_listed(i: int, part: Part)
    requires
        0 <= i < 4,
        i == 0 <==> part == Part::Control,
        i == 1 <==> part == Part::Output,
        i == 2 <==> part == Part::Options,
        i == 3 <==> part == Part::Version,
    ensures
        request(Item::Observe { part }, None) == (Action::Read {
            address: INSPECTED[i],
            expected: None,
        }),
{
}

} // verus!
