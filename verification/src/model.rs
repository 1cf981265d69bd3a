//! Configuration, errors and the plain data that callers exchange with the library.

use crate::battery::BatteryStatus;
use crate::number::Number;
use crate::pose::Mounting;
use crate::text::{blank, has_control, is_blank, is_control};
use vstd::prelude::*;
use vstd::utf8::encode_utf8;

verus! {

pub const PROTOCOL_VERSION: u32 = 3;

pub const SNAPSHOT_SCHEMA_VERSION: u32 = 4;

pub const MAX_SOURCE_ID_BYTES: usize = 256;

#[derive(Debug)]
pub enum Error {
    Invalid(String),
    Busy,
    Unavailable(String),
    Permission(String),
    Io(String),
    Protocol(String),
    Timeout(String),
    Cancelled,
    Internal(String),
}

impl Error {
    /// What the error says to a person.
    pub open spec fn text(self) -> Seq<char> {
        match self {
            Error::Invalid(m) => "invalid argument: "@ + m@,
            Error::Busy => "operation is busy; stop the current operation first"@,
            Error::Unavailable(m) => "device or adapter unavailable: "@ + m@,
            Error::Permission(m) => "permission denied: "@ + m@,
            Error::Io(m) => "I/O error: "@ + m@,
            Error::Protocol(m) => "protocol error: "@ + m@,
            Error::Timeout(m) => "operation timed out: "@ + m@,
            Error::Cancelled => "operation cancelled"@,
            Error::Internal(m) => "internal error: "@ + m@,
        }
    }

    /// An `Invalid` error with this message.
    pub open spec fn is_invalid(self, message: Seq<char>) -> bool {
        self matches Error::Invalid(m) && m@ == message
    }

    /// A `Protocol` error with this message.
    pub open spec fn is_protocol(self, message: Seq<char>) -> bool {
        self matches Error::Protocol(m) && m@ == message
    }

    /// A `Timeout` error with this message.
    pub open spec fn is_timeout(self, message: Seq<char>) -> bool {
        self matches Error::Timeout(m) && m@ == message
    }

    /// An `Unavailable` error with this message.
    pub open spec fn is_unavailable(self, message: Seq<char>) -> bool {
        self matches Error::Unavailable(m) && m@ == message
    }

    /// The text shown to a person.
    pub fn message(&self) -> (r: String)
        ensures
            r@ == self.text(),
    {
        match self {
            Error::Invalid(m) => joined("invalid argument: ", m.as_str()),
            Error::Busy => "operation is busy; stop the current operation first".to_string(),
            Error::Unavailable(m) => joined("device or adapter unavailable: ", m.as_str()),
            Error::Permission(m) => joined("permission denied: ", m.as_str()),
            Error::Io(m) => joined("I/O error: ", m.as_str()),
            Error::Protocol(m) => joined("protocol error: ", m.as_str()),
            Error::Timeout(m) => joined("operation timed out: ", m.as_str()),
            Error::Cancelled => "operation cancelled".to_string(),
            Error::Internal(m) => joined("internal error: ", m.as_str()),
        }
    }

    pub(crate) fn invalid(message: &str) -> (r: Error)
        ensures
            r.is_invalid(message@),
    {
        Error::Invalid(message.to_string())
    }

    pub(crate) fn protocol(message: &str) -> (r: Error)
        ensures
            r.is_protocol(message@),
    {
        Error::Protocol(message.to_string())
    }

    pub(crate) fn timeout(message: &str) -> (r: Error)
        ensures
            r.is_timeout(message@),
    {
        Error::Timeout(message.to_string())
    }

    pub(crate) fn unavailable(message: &str) -> (r: Error)
        ensures
            r.is_unavailable(message@),
    {
        Error::Unavailable(message.to_string())
    }

    /// How an operating-system I/O failure is reported.
    pub fn from_io(permission_denied: bool, text: String) -> (r: Error)
        ensures
            permission_denied ==> r == Error::Permission(text),
            !permission_denied ==> r == Error::Io(text),
    {
        if permission_denied {
            Error::Permission(text)
        } else {
            Error::Io(text)
        }
    }
}

impl Clone for Error {
    fn clone(&self) -> (r: Error)
        ensures
            r == *self,
    {
        match self {
            Error::Invalid(m) => Error::Invalid(m.clone()),
            Error::Busy => Error::Busy,
            Error::Unavailable(m) => Error::Unavailable(m.clone()),
            Error::Permission(m) => Error::Permission(m.clone()),
            Error::Io(m) => Error::Io(m.clone()),
            Error::Protocol(m) => Error::Protocol(m.clone()),
            Error::Timeout(m) => Error::Timeout(m.clone()),
            Error::Cancelled => Error::Cancelled,
            Error::Internal(m) => Error::Internal(m.clone()),
        }
    }
}

/// Two texts, one after the other.
pub(crate) fn joined(a: &str, b: &str) -> (r: String)
    ensures
        r@ == a@ + b@,
{
    let mut s = a.to_string();
    s.append(b);
    s
}

pub(crate) fn copy_text(o: &Option<String>) -> (r: Option<String>)
    ensures
        r == *o,
{
    match o {
        Some(s) => Some(s.clone()),
        None => None,
    }
}

/// Where the program runs.
#[derive(Clone, Copy, Debug, PartialEq, Eq, Structural)]
pub enum Platform {
    Windows,
    Macos,
    Other,
}

#[derive(Clone, Copy, Debug, PartialEq, Eq, Structural)]
pub enum TransportKind {
    Ble,
    Usb,
}

#[derive(Clone, Copy, Debug, PartialEq, Eq, Structural)]
pub enum PoseInput {
    Euler,
    Quaternion,
    StreamQuaternion,
}

#[derive(Clone, Copy, Debug, PartialEq, Eq, Structural)]
pub enum Pattern {
    Fixed,
    Yaw,
    Combined,
    Wrap,
}

#[derive(Clone, Copy, Debug, PartialEq, Eq, Structural)]
pub enum BleConnectionMode {
    Default,
    Throughput,
}

#[derive(Clone, Copy, Debug, PartialEq, Eq, Structural)]
pub enum OscFormat {
    Quaternion,
    Euler,
}

#[derive(Debug)]
pub enum Source {
    Ble { device_id: String, connection_mode: BleConnectionMode },
    Usb { port: String, baud: u32 },
    Simulate { pattern: Pattern, euler_deg: [Number; 3], rate_hz: u32, sample_clock: bool },
}

impl Clone for Source {
    fn clone(&self) -> (r: Source)
        ensures
            r == *self,
    {
        match self {
            Source::Ble { device_id, connection_mode } => Source::Ble {
                device_id: device_id.clone(),
                connection_mode: *connection_mode,
            },
            Source::Usb { port, baud } => Source::Usb { port: port.clone(), baud: *baud },
            Source::Simulate { pattern, euler_deg, rate_hz, sample_clock } => Source::Simulate {
                pattern: *pattern,
                euler_deg: *euler_deg,
                rate_hz: *rate_hz,
                sample_clock: *sample_clock,
            },
        }
    }
}

/// A UDP endpoint by its numeric address.
#[derive(Clone, Copy, Debug)]
pub enum Endpoint {
    V4 { octets: [u8; 4], port: u16 },
    V6 { address: [u8; 16], scope_id: u32, port: u16 },
}

impl Endpoint {
    pub open spec fn spec_port(self) -> u16 {
        match self {
            Endpoint::V4 { port, .. } => port,
            Endpoint::V6 { port, .. } => port,
        }
    }

    /// 127.0.0.0/8 or ::1.
    pub open spec fn loopback(self) -> bool {
        match self {
            Endpoint::V4 { octets, .. } => octets[0] == 127,
            Endpoint::V6 { address, .. } => address[15] == 1 && forall|i: int|
                0 <= i < 15 ==> #[trigger] address[i] == 0,
        }
    }

    pub fn port(&self) -> (r: u16)
        ensures
            r == self.spec_port(),
    {
        match self {
            Endpoint::V4 { port, .. } => *port,
            Endpoint::V6 { port, .. } => *port,
        }
    }

    pub fn is_loopback(&self) -> (r: bool)
        ensures
            r == self.loopback(),
    {
        match self {
            Endpoint::V4 { octets, .. } => octets[0] == 127,
            Endpoint::V6 { address, .. } => {
                if address[15] != 1 {
                    return false;
                }
                let mut i: usize = 0;
                while i < 15
                    invariant
                        i <= 15,
                        *self matches Endpoint::V6 { address: a, .. } && a == *address,
                        forall|j: int| 0 <= j < i ==> #[trigger] address[j] == 0,
                    decreases 15 - i,
                {
                    if address[i] != 0 {
                        return false;
                    }
                    i = i + 1;
                }
                true
            },
        }
    }
}

#[derive(Clone, Copy, Debug)]
pub struct OscConfig {
    pub target: Endpoint,
    pub max_rate_hz: u32,
    pub format: OscFormat,
}

#[derive(Debug)]
pub struct Config {
    pub source: Source,
    pub source_id: Option<String>,
    pub pose_input: PoseInput,
    pub mounting: Option<Mounting>,
    pub osc: Option<OscConfig>,
}

impl Clone for Config {
    fn clone(&self) -> (r: Config)
        ensures
            r == *self,
    {
        Config {
            source: self.source.clone(),
            source_id: copy_text(&self.source_id),
            pose_input: self.pose_input,
            mounting: self.mounting,
            osc: self.osc,
        }
    }
}

impl Config {
    /// The configuration of a simulator that holds still at 100 Hz.
    pub open spec fn simulated() -> Config {
        Config {
            source: Source::Simulate {
                pattern: Pattern::Fixed,
                euler_deg: [Number { bits: 0 }, Number { bits: 0 }, Number { bits: 0 }],
                rate_hz: 100,
                sample_clock: false,
            },
            source_id: None,
            pose_input: PoseInput::Euler,
            mounting: None,
            osc: None,
        }
    }
}

impl Default for Config {
    fn default() -> (r: Config)
        ensures
            r == Config::simulated(),
    {
        Config {
            source: Source::Simulate {
                pattern: Pattern::Fixed,
                euler_deg: [Number { bits: 0 }, Number { bits: 0 }, Number { bits: 0 }],
                rate_hz: 100,
                sample_clock: false,
            },
            source_id: None,
            pose_input: PoseInput::Euler,
            mounting: None,
            osc: None,
        }
    }
}

/// The rate used where none is given.
pub fn default_rate() -> (r: u32)
    ensures
        r == 100,
{
    100
}

pub open spec fn rate_message() -> Seq<char> {
    "rate must be between 1 and 200 Hz"@
}

pub open spec fn source_id_message() -> Seq<char> {
    "source_id must be 1..256 UTF-8 bytes without control characters"@
}

/// A sample rate in hertz is accepted from 1 to 200.
pub fn validate_rate(rate: u32) -> (r: Result<(), Error>)
    ensures
        r is Ok <==> 1 <= rate <= 200,
        r matches Err(e) ==> e.is_invalid(rate_message()),
{
    if rate < 1 || rate > 200 {
        return Err(Error::invalid("rate must be between 1 and 200 Hz"));
    }
    Ok(())
}

/// 1 to 256 bytes of UTF-8 that are not all whitespace and hold no control character.
pub open spec fn source_id_ok(s: Seq<char>) -> bool {
    &&& !is_blank(s)
    &&& encode_utf8(s).len() <= MAX_SOURCE_ID_BYTES
    &&& !exists|i: int| 0 <= i < s.len() && is_control(#[trigger] s[i])
}

pub fn validate_source_id(value: &str) -> (r: Result<(), Error>)
    ensures
        r is Ok <==> source_id_ok(value@),
        r matches Err(e) ==> e.is_invalid(source_id_message()),
{
    if blank(value) || value.as_bytes().len() > MAX_SOURCE_ID_BYTES || has_control(value) {
        return Err(
            Error::invalid("source_id must be 1..256 UTF-8 bytes without control characters"),
        );
    }
    Ok(())
}

pub open spec fn euler_in_range(e: [Number; 3]) -> bool {
    forall|i: int|
        0 <= i < 3 ==> (#[trigger] e[i]).finite() && -1_000_000 * vstd::arithmetic::power2::pow2(
            1074,
        ) <= e[i].value() <= 1_000_000 * vstd::arithmetic::power2::pow2(1074)
}

impl Source {
    /// The first rule that the source breaks, by its message.
    pub open spec fn problem(self, platform: Platform) -> Option<Seq<char>> {
        match self {
            Source::Ble { device_id, connection_mode } => if is_blank(device_id@) {
                Some("BLE device_id is empty"@)
            } else if connection_mode == BleConnectionMode::Throughput && platform
                != Platform::Windows {
                Some("BLE throughput preference requires Windows 11 or later"@)
            } else {
                None
            },
            Source::Usb { port, baud } => if is_blank(port@) || baud == 0 {
                Some("USB port or baud is invalid"@)
            } else {
                None
            },
            Source::Simulate { euler_deg, rate_hz, .. } => if !(1 <= rate_hz <= 200) {
                Some(rate_message())
            } else if !euler_in_range(euler_deg) {
                Some("Euler angles must be finite and within 1e6 degrees"@)
            } else {
                None
            },
        }
    }

    fn validate(&self, platform: Platform) -> (r: Result<(), Error>)
        ensures
            r is Ok <==> self.problem(platform) is None,
            r matches Err(e) ==> e.is_invalid(self.problem(platform)->0),
    {
        match self {
            Source::Ble { device_id, connection_mode } => {
                if blank(device_id.as_str()) {
                    return Err(Error::invalid("BLE device_id is empty"));
                }
                if *connection_mode == BleConnectionMode::Throughput && platform
                    != Platform::Windows {
                    return Err(
                        Error::invalid("BLE throughput preference requires Windows 11 or later"),
                    );
                }
            },
            Source::Usb { port, baud } => {
                if blank(port.as_str()) || *baud == 0 {
                    return Err(Error::invalid("USB port or baud is invalid"));
                }
            },
            Source::Simulate { euler_deg, rate_hz, .. } => {
                validate_rate(*rate_hz)?;
                if !(euler_deg[0].within_million() && euler_deg[1].within_million()
                    && euler_deg[2].within_million()) {
                    return Err(
                        Error::invalid("Euler angles must be finite and within 1e6 degrees"),
                    );
                }
            },
        }
        Ok(())
    }
}

impl Config {
    /// The name under which samples of this configuration are published.
    pub open spec fn source_name(self) -> Seq<char> {
        match self.source_id {
            Some(id) => id@,
            None => match self.source {
                Source::Ble { device_id, .. } => "ble:"@ + device_id@,
                Source::Usb { port, .. } => "usb:"@ + port@,
                Source::Simulate { .. } => "simulate"@,
            },
        }
    }

    /// The first rule that the configuration breaks, by its message.
    pub open spec fn problem(self, platform: Platform) -> Option<Seq<char>> {
        if self.source.problem(platform) is Some {
            self.source.problem(platform)
        } else if !source_id_ok(self.source_name()) {
            Some(source_id_message())
        } else if self.mounting is Some && self.mounting->0.problem() is Some {
            self.mounting->0.problem()
        } else if self.osc is Some && !(1 <= self.osc->0.max_rate_hz <= 200) {
            Some(rate_message())
        } else if self.osc is Some && !(self.osc->0.target.loopback()
            && self.osc->0.target.spec_port() != 0) {
            Some("OSC target must be a nonzero loopback port"@)
        } else {
            None
        }
    }

    /// The first rule that stands against acquiring with this configuration.
    pub open spec fn acquisition_problem(self, platform: Platform) -> Option<Seq<char>> {
        if self.problem(platform) is Some {
            self.problem(platform)
        } else if !(self.source is Simulate) && self.mounting is None {
            Some("hardware acquisition requires an explicit mounting"@)
        } else {
            None
        }
    }

    /// Accepts a configuration that breaks no rule; reports the first one broken.
    pub fn validate(&self, platform: Platform) -> (r: Result<(), Error>)
        ensures
            r is Ok <==> self.problem(platform) is None,
            r matches Err(e) ==> e.is_invalid(self.problem(platform)->0),
    {
        self.source.validate(platform)?;
        let name = self.logical_source_id();
        validate_source_id(name.as_str())?;
        if let Some(mounting) = self.mounting {
            mounting.validate()?;
        }
        if let Some(osc) = self.osc {
            validate_rate(osc.max_rate_hz)?;
            if !osc.target.is_loopback() || osc.target.port() == 0 {
                return Err(Error::invalid("OSC target must be a nonzero loopback port"));
            }
        }
        Ok(())
    }

    /// The configured name, or one made from the source.
    pub fn logical_source_id(&self) -> (r: String)
        ensures
            r@ == self.source_name(),
    {
        match &self.source_id {
            Some(id) => id.clone(),
            None => match &self.source {
                Source::Ble { device_id, .. } => joined("ble:", device_id.as_str()),
                Source::Usb { port, .. } => joined("usb:", port.as_str()),
                Source::Simulate { .. } => "simulate".to_string(),
            },
        }
    }

    /// As `validate`, and hardware needs a mounting.
    pub fn validate_acquisition(&self, platform: Platform) -> (r: Result<(), Error>)
        ensures
            r is Ok <==> self.acquisition_problem(platform) is None,
            r matches Err(e) ==> e.is_invalid(self.acquisition_problem(platform)->0),
    {
        self.validate(platform)?;
        let simulated = matches!(self.source, Source::Simulate { .. });
        if !simulated && self.mounting.is_none() {
            return Err(Error::invalid("hardware acquisition requires an explicit mounting"));
        }
        Ok(())
    }

    /// Whether acquisition needs a one-millisecond system timer.
    pub fn needs_fine_timer(&self) -> (r: bool)
        ensures
            r == ((self.osc is Some && self.osc->0.max_rate_hz > 50) || (self.source matches
                Source::Simulate { rate_hz, .. } && rate_hz > 50) || self.pose_input
                == PoseInput::Quaternion),
    {
        let paced = match self.osc {
            Some(osc) => osc.max_rate_hz > 50,
            None => false,
        };
        let simulated = match &self.source {
            Source::Simulate { rate_hz, .. } => *rate_hz > 50,
            _ => false,
        };
        paced || simulated || self.pose_input == PoseInput::Quaternion
    }
}

#[derive(Clone, Copy, Debug, PartialEq, Eq, Structural)]
pub enum SampleTimeKind {
    DeviceCalendar,
    SimulatedElapsed,
}

impl SampleTimeKind {
    pub open spec fn spec_code(self) -> u32 {
        match self {
            SampleTimeKind::DeviceCalendar => 1,
            SampleTimeKind::SimulatedElapsed => 2,
        }
    }

    /// The number of the kind on the wire.
    pub fn code(self) -> (r: u32)
        ensures
            r == self.spec_code(),
    {
        match self {
            SampleTimeKind::DeviceCalendar => 1,
            SampleTimeKind::SimulatedElapsed => 2,
        }
    }
}

#[derive(Clone, Copy, Debug, PartialEq, Eq, Structural)]
pub struct SampleTime {
    pub kind: SampleTimeKind,
    pub time_ms: u64,
    pub clock_epoch: u64,
}

#[derive(Clone, Copy, Debug, PartialEq, Eq, Structural)]
pub enum OutputProfile {
    Motion,
    TimestampEuler,
    TimestampQuaternion,
    TimestampGyroQuaternion,
    ExperimentalFullInertial20Hz,
}

impl OutputProfile {
    pub open spec fn spec_code(self) -> u16 {
        match self {
            OutputProfile::Motion => 0x61,
            OutputProfile::TimestampEuler => 0x81,
            OutputProfile::TimestampQuaternion => 0x84,
            OutputProfile::TimestampGyroQuaternion => 0xa4,
            OutputProfile::ExperimentalFullInertial20Hz => 0xe4,
        }
    }

    /// The value of the output register that selects the profile.
    pub fn code(self) -> (r: u16)
        ensures
            r == self.spec_code(),
    {
        match self {
            OutputProfile::Motion => 0x61,
            OutputProfile::TimestampEuler => 0x81,
            OutputProfile::TimestampQuaternion => 0x84,
            OutputProfile::TimestampGyroQuaternion => 0xa4,
            OutputProfile::ExperimentalFullInertial20Hz => 0xe4,
        }
    }
}

#[derive(Clone, Copy, Debug, PartialEq, Eq, Structural)]
pub enum AlgorithmMode {
    NineAxis,
    SixAxis,
}

impl AlgorithmMode {
    pub open spec fn spec_code(self) -> u16 {
        match self {
            AlgorithmMode::NineAxis => 0,
            AlgorithmMode::SixAxis => 1,
        }
    }

    /// The value of the algorithm register that selects the mode.
    pub fn code(self) -> (r: u16)
        ensures
            r == self.spec_code(),
    {
        match self {
            AlgorithmMode::NineAxis => 0,
            AlgorithmMode::SixAxis => 1,
        }
    }
}

#[derive(Clone, Copy, Debug, PartialEq, Eq, Structural)]
pub enum DeviceCommand {
    Rate { hz: u32 },
    Output { format: OutputProfile },
    AccelCalibrate,
    MagStart,
    MagStop,
    Save,
    Algorithm { mode: AlgorithmMode },
    ZeroYaw,
    AngleReference,
    ResetDefaults,
}

#[derive(Clone, Copy, Debug, PartialEq, Eq, Structural)]
pub enum OperationOutcome {
    Running,
    Succeeded,
    Unverified,
    Failed,
    Cancelled,
}

/// What a calibration switch register shows.
#[derive(Clone, Copy, Debug, PartialEq, Eq, Structural)]
pub enum CalibrationState {
    Idle,
    AccelerometerActive,
    MagneticActive,
}

/// The fields of a stream frame.
#[derive(Clone, Copy, Debug, PartialEq, Eq, Structural)]
pub struct OutputFields {
    pub sample_time: bool,
    pub acceleration: bool,
    pub angular_velocity: bool,
    pub euler: bool,
    pub quaternion: bool,
}

/// What was read from a device, and when.
#[derive(Clone, Copy, Debug)]
pub struct DeviceObservation {
    pub valid: bool,
    pub observed_unix_ms: Option<u64>,
    pub calsw: Option<u16>,
    pub calibration_state: Option<CalibrationState>,
    pub rate_millihertz: Option<u32>,
    pub output_fields: Option<OutputFields>,
    pub algorithm: Option<AlgorithmMode>,
    pub firmware_version: Option<u16>,
    pub rate_register: Option<u16>,
    pub output_register: Option<u16>,
    pub bandwidth_register: Option<u16>,
    pub orientation_register: Option<u16>,
    pub algorithm_register: Option<u16>,
    pub firmware_registers: Option<[u16; 2]>,
}

impl DeviceObservation {
    /// Nothing is known of the device.
    pub open spec fn unknown() -> DeviceObservation {
        DeviceObservation {
            valid: false,
            observed_unix_ms: None,
            calsw: None,
            calibration_state: None,
            rate_millihertz: None,
            output_fields: None,
            algorithm: None,
            firmware_version: None,
            rate_register: None,
            output_register: None,
            bandwidth_register: None,
            orientation_register: None,
            algorithm_register: None,
            firmware_registers: None,
        }
    }
}

impl Default for DeviceObservation {
    fn default() -> (r: DeviceObservation)
        ensures
            r == DeviceObservation::unknown(),
    {
        DeviceObservation {
            valid: false,
            observed_unix_ms: None,
            calsw: None,
            calibration_state: None,
            rate_millihertz: None,
            output_fields: None,
            algorithm: None,
            firmware_version: None,
            rate_register: None,
            output_register: None,
            bandwidth_register: None,
            orientation_register: None,
            algorithm_register: None,
            firmware_registers: None,
        }
    }
}

#[derive(Debug)]
pub struct DeviceInfo {
    pub transport: TransportKind,
    pub id: String,
    pub name: String,
    pub rssi: Option<i16>,
    pub usb_vid: Option<u16>,
    pub usb_pid: Option<u16>,
}

impl Clone for DeviceInfo {
    fn clone(&self) -> (r: DeviceInfo)
        ensures
            r == *self,
    {
        DeviceInfo {
            transport: self.transport,
            id: self.id.clone(),
            name: self.name.clone(),
            rssi: self.rssi,
            usb_vid: self.usb_vid,
            usb_pid: self.usb_pid,
        }
    }
}

#[derive(Clone, Copy, Debug, PartialEq, Eq, Structural)]
pub enum ConnectionState {
    Idle,
    Scanning,
    Connecting,
    Active,
    Stale,
    Reconnecting,
    Stopped,
    Failed,
    Configuring,
    Complete,
    Inspecting,
    Magnetic,
}

impl ConnectionState {
    pub open spec fn spec_code(self) -> u32 {
        match self {
            ConnectionState::Idle => 0,
            ConnectionState::Scanning => 1,
            ConnectionState::Connecting => 2,
            ConnectionState::Active => 3,
            ConnectionState::Stale => 4,
            ConnectionState::Reconnecting => 5,
            ConnectionState::Stopped => 6,
            ConnectionState::Failed => 7,
            ConnectionState::Configuring => 8,
            ConnectionState::Complete => 9,
            ConnectionState::Inspecting => 10,
            ConnectionState::Magnetic => 11,
        }
    }

    /// The number of the state in C structures.
    pub fn code(self) -> (r: u32)
        ensures
            r == self.spec_code(),
    {
        match self {
            ConnectionState::Idle => 0,
            ConnectionState::Scanning => 1,
            ConnectionState::Connecting => 2,
            ConnectionState::Active => 3,
            ConnectionState::Stale => 4,
            ConnectionState::Reconnecting => 5,
            ConnectionState::Stopped => 6,
            ConnectionState::Failed => 7,
            ConnectionState::Configuring => 8,
            ConnectionState::Complete => 9,
            ConnectionState::Inspecting => 10,
            ConnectionState::Magnetic => 11,
        }
    }
}

/// The last raw readings in counts, and when they were received.
#[derive(Clone, Copy, Debug)]
pub struct RawData {
    pub acceleration: Option<[i16; 3]>,
    pub angular_velocity: Option<[i16; 3]>,
    pub euler_xyz: Option<[i16; 3]>,
    pub quaternion_wxyz: Option<[i16; 4]>,
    pub motion_received_ns: Option<u64>,
    pub quaternion_received_ns: Option<u64>,
}

impl RawData {
    pub open spec fn empty() -> RawData {
        RawData {
            acceleration: None,
            angular_velocity: None,
            euler_xyz: None,
            quaternion_wxyz: None,
            motion_received_ns: None,
            quaternion_received_ns: None,
        }
    }
}

impl Default for RawData {
    fn default() -> (r: RawData)
        ensures
            r == RawData::empty(),
    {
        RawData {
            acceleration: None,
            angular_velocity: None,
            euler_xyz: None,
            quaternion_wxyz: None,
            motion_received_ns: None,
            quaternion_received_ns: None,
        }
    }
}

#[derive(Clone, Copy, Debug)]
pub struct PoseSnapshot {
    pub instance_id: u64,
    pub reference_epoch: u64,
    pub metadata_revision: u64,
    pub session_id: u64,
    pub sequence: u64,
    pub received_ns: u64,
    pub age_ns: u64,
    pub sample_time: Option<SampleTime>,
    pub quaternion_xyzw: [Number; 4],
    pub euler_deg: [Number; 3],
    pub raw: RawData,
    pub fresh: bool,
}

/// How bytes arrived from the transport.
#[derive(Clone, Copy, Debug)]
pub struct DeliveryStats {
    pub reads: u64,
    pub max_bytes_per_read: u64,
    pub max_frames_per_read: u64,
    /// Gaps between reads under 1 ms, 10 ms, 30 ms, 100 ms, and longer ones.
    pub gap_histogram: [u64; 5],
    pub max_gap_ns: u64,
}

impl DeliveryStats {
    pub open spec fn empty() -> DeliveryStats {
        DeliveryStats {
            reads: 0,
            max_bytes_per_read: 0,
            max_frames_per_read: 0,
            gap_histogram: [0, 0, 0, 0, 0],
            max_gap_ns: 0,
        }
    }
}

#[derive(Debug)]
pub struct BleLinkStatus {
    pub requested_mode: BleConnectionMode,
    pub request_status: Option<String>,
    /// In units of 1.25 ms.
    pub connection_interval: Option<u16>,
    pub peripheral_latency: Option<u16>,
    pub note: Option<String>,
}

impl Clone for BleLinkStatus {
    fn clone(&self) -> (r: BleLinkStatus)
        ensures
            r == *self,
    {
        BleLinkStatus {
            requested_mode: self.requested_mode,
            request_status: copy_text(&self.request_status),
            connection_interval: self.connection_interval,
            peripheral_latency: self.peripheral_latency,
            note: copy_text(&self.note),
        }
    }
}

/// Counters and state of a run.
#[derive(Debug)]
pub struct StatusSnapshot {
    pub state: ConnectionState,
    pub session_id: u64,
    pub bytes_received: u64,
    pub frames_received: u64,
    pub discarded_bytes: u64,
    pub invalid_poses: u64,
    pub invalid_frames: u64,
    pub duplicate_sample_times: u64,
    pub clock_discontinuities: u64,
    pub pose_count: u64,
    pub session_samples: u64,
    pub osc_sent: u64,
    pub coalesced_samples: u64,
    pub send_errors: u64,
    pub telemetry_sent: u64,
    pub reconnect_count: u64,
    /// Time from the first to the latest sample of the session. Over it, the
    /// session's samples less one give the actual rate.
    pub session_span_ns: u64,
    pub interval_min_ns: u64,
    pub interval_max_ns: u64,
    pub last_error: Option<String>,
    pub configuration_report: Option<String>,
    pub delivery: DeliveryStats,
    pub ble_link: Option<BleLinkStatus>,
    pub battery: BatteryStatus,
}

impl StatusSnapshot {
    pub open spec fn initial() -> StatusSnapshot {
        StatusSnapshot {
            state: ConnectionState::Idle,
            session_id: 0,
            bytes_received: 0,
            frames_received: 0,
            discarded_bytes: 0,
            invalid_poses: 0,
            invalid_frames: 0,
            duplicate_sample_times: 0,
            clock_discontinuities: 0,
            pose_count: 0,
            session_samples: 0,
            osc_sent: 0,
            coalesced_samples: 0,
            send_errors: 0,
            telemetry_sent: 0,
            reconnect_count: 0,
            session_span_ns: 0,
            interval_min_ns: 0,
            interval_max_ns: 0,
            last_error: None,
            configuration_report: None,
            delivery: DeliveryStats::empty(),
            ble_link: None,
            battery: BatteryStatus::unknown(),
        }
    }
}

impl Default for StatusSnapshot {
    fn default() -> (r: StatusSnapshot)
        ensures
            r == StatusSnapshot::initial(),
    {
        StatusSnapshot {
            state: ConnectionState::Idle,
            session_id: 0,
            bytes_received: 0,
            frames_received: 0,
            discarded_bytes: 0,
            invalid_poses: 0,
            invalid_frames: 0,
            duplicate_sample_times: 0,
            clock_discontinuities: 0,
            pose_count: 0,
            session_samples: 0,
            osc_sent: 0,
            coalesced_samples: 0,
            send_errors: 0,
            telemetry_sent: 0,
            reconnect_count: 0,
            session_span_ns: 0,
            interval_min_ns: 0,
            interval_max_ns: 0,
            last_error: None,
            configuration_report: None,
            delivery: DeliveryStats {
                reads: 0,
                max_bytes_per_read: 0,
                max_frames_per_read: 0,
                gap_histogram: [0, 0, 0, 0, 0],
                max_gap_ns: 0,
            },
            ble_link: None,
            battery: BatteryStatus {
                raw_register: None,
                estimated_percent: None,
                age_ns: None,
                fresh: false,
                last_error: None,
            },
        }
    }
}

impl Clone for StatusSnapshot {
    fn clone(&self) -> (r: StatusSnapshot)
        ensures
            r == *self,
    {
        StatusSnapshot {
            state: self.state,
            session_id: self.session_id,
            bytes_received: self.bytes_received,
            frames_received: self.frames_received,
            discarded_bytes: self.discarded_bytes,
            invalid_poses: self.invalid_poses,
            invalid_frames: self.invalid_frames,
            duplicate_sample_times: self.duplicate_sample_times,
            clock_discontinuities: self.clock_discontinuities,
            pose_count: self.pose_count,
            session_samples: self.session_samples,
            osc_sent: self.osc_sent,
            coalesced_samples: self.coalesced_samples,
            send_errors: self.send_errors,
            telemetry_sent: self.telemetry_sent,
            reconnect_count: self.reconnect_count,
            session_span_ns: self.session_span_ns,
            interval_min_ns: self.interval_min_ns,
            interval_max_ns: self.interval_max_ns,
            last_error: copy_text(&self.last_error),
            configuration_report: copy_text(&self.configuration_report),
            delivery: self.delivery,
            ble_link: match &self.ble_link {
                Some(link) => Some(link.clone()),
                None => None,
            },
            battery: self.battery.clone(),
        }
    }
}

/// Why poses have the reference that they have.
#[derive(Clone, Copy, Debug, PartialEq, Eq, Structural)]
pub enum ReferenceReason {
    NewContext,
    ApplicationConfigurationChanged,
    DeviceControl,
    DeviceControlUncertain,
    Reconnected,
    MagneticControl,
    MagneticCleanup,
}

impl ReferenceReason {
    pub open spec fn text(self) -> Seq<char> {
        match self {
            ReferenceReason::NewContext => "new_context"@,
            ReferenceReason::ApplicationConfigurationChanged =>
            "application_configuration_changed"@,
            ReferenceReason::DeviceControl => "device_control"@,
            ReferenceReason::DeviceControlUncertain => "device_control_uncertain"@,
            ReferenceReason::Reconnected => "reconnected"@,
            ReferenceReason::MagneticControl => "magnetic_control"@,
            ReferenceReason::MagneticCleanup => "magnetic_cleanup"@,
        }
    }

    pub fn as_str(self) -> (r: &'static str)
        ensures
            r@ == self.text(),
    {
        match self {
            ReferenceReason::NewContext => "new_context",
            ReferenceReason::ApplicationConfigurationChanged => "application_configuration_changed",
            ReferenceReason::DeviceControl => "device_control",
            ReferenceReason::DeviceControlUncertain => "device_control_uncertain",
            ReferenceReason::Reconnected => "reconnected",
            ReferenceReason::MagneticControl => "magnetic_control",
            ReferenceReason::MagneticCleanup => "magnetic_cleanup",
        }
    }
}

/// What kind of source a descriptor is of.
#[derive(Clone, Copy, Debug, PartialEq, Eq, Structural)]
pub enum SourceKind {
    Ble,
    Usb,
    Simulate,
}

/// The axes and rotation order of published quaternions and angles.
pub const COORDINATE_PROFILE: &'static str = "posebridge.yxz.v1";

/// What the software can do with a device.
pub const SOFTWARE_CAPABILITIES: [&'static str; 12] = [
    "inspect",
    "battery",
    "rate",
    "output",
    "algorithm",
    "zero_yaw",
    "angle_reference",
    "reset_defaults",
    "accel_calibrate",
    "mag_start",
    "mag_stop",
    "save",
];

/// What samples come from and what they are relative to.
#[derive(Debug)]
pub struct SourceDescriptor {
    pub source_id: String,
    pub instance_id: u64,
    pub session_id: u64,
    pub metadata_revision: u64,
    pub reference_epoch: u64,
    pub reference_reason: ReferenceReason,
    pub transport: SourceKind,
    pub platform_id: Option<String>,
    pub device_name: Option<String>,
    pub device_model: Option<String>,
    pub application_config: Config,
    pub device: DeviceObservation,
    pub calibration_quality: Option<String>,
}

impl Clone for SourceDescriptor {
    fn clone(&self) -> (r: SourceDescriptor)
        ensures
            r == *self,
    {
        SourceDescriptor {
            source_id: self.source_id.clone(),
            instance_id: self.instance_id,
            session_id: self.session_id,
            metadata_revision: self.metadata_revision,
            reference_epoch: self.reference_epoch,
            reference_reason: self.reference_reason,
            transport: self.transport,
            platform_id: copy_text(&self.platform_id),
            device_name: copy_text(&self.device_name),
            device_model: copy_text(&self.device_model),
            application_config: self.application_config.clone(),
            device: self.device,
            calibration_quality: copy_text(&self.calibration_quality),
        }
    }
}

impl SourceDescriptor {
    /// What a configuration alone says of its source.
    pub open spec fn describes(self, config: Config) -> bool {
        &&& self.source_id@ == config.source_name()
        &&& match config.source {
            Source::Ble { device_id, .. } => self.transport == SourceKind::Ble && self.platform_id
                == Some(device_id),
            Source::Usb { port, .. } => self.transport == SourceKind::Usb && self.platform_id
                == Some(port),
            Source::Simulate { .. } => self.transport == SourceKind::Simulate && self.platform_id
                is None,
        }
        &&& self.application_config == config
        &&& self.device_model is None
        &&& self.calibration_quality is None
    }

    /// A source of which nothing is known but its configuration.
    pub fn new(config: &Config) -> (r: SourceDescriptor)
        ensures
            r.describes(*config),
            r.instance_id == 0,
            r.session_id == 0,
            r.metadata_revision == 1,
            r.reference_epoch == 1,
            r.reference_reason == ReferenceReason::NewContext,
            r.device_name is None,
            r.device == DeviceObservation::unknown(),
    {
        let (transport, platform_id) = match &config.source {
            Source::Ble { device_id, .. } => (SourceKind::Ble, Some(device_id.clone())),
            Source::Usb { port, .. } => (SourceKind::Usb, Some(port.clone())),
            Source::Simulate { .. } => (SourceKind::Simulate, None),
        };
        SourceDescriptor {
            source_id: config.logical_source_id(),
            instance_id: 0,
            session_id: 0,
            metadata_revision: 1,
            reference_epoch: 1,
            reference_reason: ReferenceReason::NewContext,
            transport,
            platform_id,
            device_name: None,
            device_model: None,
            application_config: config.clone(),
            device: DeviceObservation::default(),
            calibration_quality: None,
        }
    }
}

impl Default for SourceDescriptor {
    fn default() -> (r: SourceDescriptor)
        ensures
            r.describes(Config::simulated()),
            r.metadata_revision == 1,
            r.reference_epoch == 1,
            r.instance_id == 0,
            r.session_id == 0,
            r.reference_reason == ReferenceReason::NewContext,
            r.device == DeviceObservation::unknown(),
            r.device_name is None,
    {
        SourceDescriptor::new(&Config::default())
    }
}

/// What has become of an operation on a device.
#[derive(Debug)]
pub struct OperationStatus {
    pub source_id: Option<String>,
    pub id: u64,
    pub action: String,
    pub outcome: OperationOutcome,
    pub write_attempted: bool,
    pub command_sent: bool,
    pub register_verified: bool,
    pub completion_observed: bool,
    pub persistence: String,
    pub reference_may_have_changed: bool,
    pub message: Option<String>,
}

impl Clone for OperationStatus {
    fn clone(&self) -> (r: OperationStatus)
        ensures
            r == *self,
    {
        OperationStatus {
            source_id: copy_text(&self.source_id),
            id: self.id,
            action: self.action.clone(),
            outcome: self.outcome,
            write_attempted: self.write_attempted,
            command_sent: self.command_sent,
            register_verified: self.register_verified,
            completion_observed: self.completion_observed,
            persistence: self.persistence.clone(),
            reference_may_have_changed: self.reference_may_have_changed,
            message: copy_text(&self.message),
        }
    }
}

pub(crate) fn copy_operation(o: &Option<OperationStatus>) -> (r: Option<OperationStatus>)
    ensures
        r == *o,
{
    match o {
        Some(o) => Some(o.clone()),
        None => None,
    }
}

impl OperationStatus {
    /// An operation that has done nothing yet, of some source or none.
    pub open spec fn begins(self, source_id: Option<String>) -> bool {
        &&& self.source_id == source_id
        &&& is_identifier(self.id)
        &&& self.outcome == OperationOutcome::Running
        &&& !self.write_attempted
        &&& !self.command_sent
        &&& !self.register_verified
        &&& !self.completion_observed
        &&& self.persistence@ == "not_requested"@
        &&& !self.reference_may_have_changed
        &&& self.message is None
    }

    /// An operation under way, with an identifier of its own.
    pub fn new(action: String) -> (r: OperationStatus)
        ensures
            r.begins(None),
            r.action == action,
    {
        OperationStatus {
            source_id: None,
            id: new_id(),
            action,
            outcome: OperationOutcome::Running,
            write_attempted: false,
            command_sent: false,
            register_verified: false,
            completion_observed: false,
            persistence: "not_requested".to_string(),
            reference_may_have_changed: false,
            message: None,
        }
    }
}

/// Everything there is to know at one moment.
#[derive(Debug)]
pub struct Snapshot {
    pub schema: u32,
    pub descriptor: SourceDescriptor,
    pub status: StatusSnapshot,
    pub pose: Option<PoseSnapshot>,
    pub operation: Option<OperationStatus>,
}

/// Identifiers are positive and fit a signed 64-bit field.
pub open spec fn is_identifier(id: u64) -> bool {
    1 <= id <= 0x7FFF_FFFF_FFFF_FFFF
}

/// `uuid::Uuid::new_v4` as a number: 122 random bits, with the version, 4, in
/// bits 76 to 79 and the variant, binary 10, in bits 62 and 63.
#[verifier::external_body]
fn random_uuid() -> (r: u128)
    ensures
        (r / 0x1000_0000_0000_0000_0000) % 16 == 4,
        (r / 0x4000_0000_0000_0000) % 4 == 2,
{
    uuid::Uuid::new_v4().as_u128()
}

/// The identifier that a random number gives: its low 63 bits, and 1 for 0.
pub fn id_from_random(random: u128) -> (r: u64)
    ensures
        is_identifier(r),
        r == (if random % 0x8000_0000_0000_0000 == 0 {
            1
        } else {
            random % 0x8000_0000_0000_0000
        }),
{
    let low: u64 = (random % 0x8000_0000_0000_0000) as u64;
    if low == 0 {
        1
    } else {
        low
    }
}

/// A new random identifier, from the 62 random bits in the low half of a version
/// 4 UUID. Which one it is, and that two differ, rests on chance.
pub fn new_id() -> (r: u64)
    ensures
        is_identifier(r),
        r < 0x4000_0000_0000_0000,
{
    id_from_random(random_uuid())
}

/// The states by their number in C structures.
pub open spec fn states_by_number() -> Seq<ConnectionState> {
    seq![
        ConnectionState::Idle,
        ConnectionState::Scanning,
        ConnectionState::Connecting,
        ConnectionState::Active,
        ConnectionState::Stale,
        ConnectionState::Reconnecting,
        ConnectionState::Stopped,
        ConnectionState::Failed,
        ConnectionState::Configuring,
        ConnectionState::Complete,
        ConnectionState::Inspecting,
        ConnectionState::Magnetic,
    ]
}

/// A state has the number under which C callers know it.
pub proof fn states_have_their_numbers(s: ConnectionState)
    ensures
        s.spec_code() < 12,
        states_by_number()[s.spec_code() as int] == s,
{
    let t = states_by_number();
    assert(t[0] == ConnectionState::Idle && t[1] == ConnectionState::Scanning && t[2]
        == ConnectionState::Connecting && t[3] == ConnectionState::Active && t[4]
        == ConnectionState::Stale && t[5] == ConnectionState::Reconnecting && t[6]
        == ConnectionState::Stopped && t[7] == ConnectionState::Failed && t[8]
        == ConnectionState::Configuring && t[9] == ConnectionState::Complete && t[10]
        == ConnectionState::Inspecting && t[11] == ConnectionState::Magnetic);
}

/// The number that bytes spell, most significant first.
pub open spec fn address_number(b: Seq<u8>) -> nat
    decreases b.len(),
{
    if b.len() == 0 {
        0
    } else {
        256 * address_number(b.drop_last()) + b.last() as nat
    }
}

proof fn lemma_address_zero(b: Seq<u8>)
    ensures
        address_number(b) == 0 <==> forall|i: int| 0 <= i < b.len() ==> #[trigger] b[i] == 0,
    decreases b.len(),
{
    if b.len() > 0 {
        let front = b.drop_last();
        lemma_address_zero(front);
        if forall|i: int| 0 <= i < b.len() ==> #[trigger] b[i] == 0 {
            assert forall|i: int| 0 <= i < front.len() implies #[trigger] front[i] == 0 by {
                assert(front[i] == b[i]);
            }
            assert(b[b.len() - 1] == 0);
        }
        if address_number(b) == 0 {
            assert forall|i: int| 0 <= i < b.len() implies #[trigger] b[i] == 0 by {
                if i < b.len() - 1 {
                    assert(b[i] == front[i]);
                }
            }
        }
    }
}

/// An address of this machine is one of 127.0.0.0 to 127.255.255.255, or the sixth
/// version's address number 1.
pub proof fn loopback_addresses(e: Endpoint)
    ensures
        match e {
            Endpoint::V4 { octets, .. } => e.loopback() <==> 127 * 0x100_0000 <= address_number(
                octets@,
            ) < 128 * 0x100_0000,
            Endpoint::V6 { address, .. } => e.loopback() <==> address_number(address@) == 1,
        },
{
    match e {
        Endpoint::V4 { octets, .. } => {
            let b = octets@;
            assert(b.drop_last() =~= seq![b[0], b[1], b[2]]);
            assert(b.drop_last().drop_last() =~= seq![b[0], b[1]]);
            assert(b.drop_last().drop_last().drop_last() =~= seq![b[0]]);
            assert(b.drop_last().drop_last().drop_last().drop_last() =~= Seq::<u8>::empty());
            reveal_with_fuel(address_number, 5);
            assert(octets[0] == b[0]);
        },
        Endpoint::V6 { address, .. } => {
            let b = address@;
            let front = b.drop_last();
            lemma_address_zero(front);
            assert(forall|i: int| 0 <= i < 15 ==> #[trigger] address[i] == front[i]);
            assert(forall|i: int| 0 <= i < 15 ==> #[trigger] front[i] == address[i]);
            assert(b.last() == address[15]);
        },
    }
}

/// A configuration is accepted exactly where its device is named, its rates are
/// from 1 to 200, its angles are within a million degrees, its name is 1 to 256
/// bytes that are not blank and hold no control character, its mounting is one,
/// and its output goes to a port of this machine.
pub proof fn configurations_are_accepted(c: Config, platform: Platform)
    ensures
        c.problem(platform) is None <==> {
            &&& match c.source {
                Source::Ble { device_id, connection_mode } => !is_blank(device_id@) && (platform
                    == Platform::Windows || connection_mode == BleConnectionMode::Default),
                Source::Usb { port, baud } => !is_blank(port@) && baud > 0,
                Source::Simulate { euler_deg, rate_hz, .. } => 0 < rate_hz < 201 && euler_in_range(
                    euler_deg,
                ),
            }
            &&& !is_blank(c.source_name())
            &&& encode_utf8(c.source_name()).len() < 257
            &&& forall|i: int|
                0 <= i < c.source_name().len() ==> !is_control(#[trigger] c.source_name()[i])
            &&& c.mounting is Some ==> c.mounting->0.problem() is None
            &&& c.osc is Some ==> 0 < c.osc->0.max_rate_hz < 201 && c.osc->0.target.loopback()
                && c.osc->0.target.spec_port() > 0
        },
        c.acquisition_problem(platform) is None <==> c.problem(platform) is None && (
        c.source is Simulate || c.mounting is Some),
{
}

/// A source goes by the name that it was given, and otherwise by its transport and
/// the name that the system has for it.
pub proof fn sources_have_names(c: Config)
    ensures
        c.source_id matches Some(id) ==> c.source_name() == id@,
        c.source_id is None ==> match c.source {
            Source::Ble { device_id, .. } => c.source_name() == "ble:"@ + device_id@,
            Source::Usb { port, .. } => c.source_name() == "usb:"@ + port@,
            Source::Simulate { .. } => c.source_name() == "simulate"@,
        },
{
}

/// An error is told as its kind and its own words.
pub proof fn errors_are_told_in_words(m: String)
    ensures
        Error::Invalid(m).text() == "invalid argument: "@ + m@,
        Error::Unavailable(m).text() == "device or adapter unavailable: "@ + m@,
        Error::Permission(m).text() == "permission denied: "@ + m@,
        Error::Io(m).text() == "I/O error: "@ + m@,
        Error::Protocol(m).text() == "protocol error: "@ + m@,
        Error::Timeout(m).text() == "operation timed out: "@ + m@,
        Error::Internal(m).text() == "internal error: "@ + m@,
{
}

/// Identifiers are positive and fit a field of 64 signed bits.
pub proof fn identifiers_are_positive(id: u64)
    ensures
        is_identifier(id) <==> id > 0 && id < 0x8000_0000_0000_0000,
{
}

/// Angles are within a million times what the pattern of one denotes.
pub proof fn angles_are_within_a_million(e: [Number; 3], i: int)
    requires
        0 <= i < 3,
        euler_in_range(e),
    ensures
        e[i].finite(),
        e[i].value() <= 1_000_000 * crate::number::units(0x3FF0_0000_0000_0000),
        -e[i].value() <= 1_000_000 * crate::number::units(0x3FF0_0000_0000_0000),
{
    crate::number::patterns_have_their_unit(0x3FF0_0000_0000_0000);
    assert(e[i].finite());
}

/// A descriptor names the transport of its source and the name that the system has
/// for it, and repeats the configuration; it makes up no model and no quality.
pub proof fn descriptors_describe_their_source(d: SourceDescriptor, c: Config)
    requires
        d.describes(c),
    ensures
        d.source_id@ == c.source_name(),
        d.application_config == c,
        c.source is Ble <==> d.transport == SourceKind::Ble,
        c.source is Usb <==> d.transport == SourceKind::Usb,
        c.source is Simulate <==> d.transport == SourceKind::Simulate,
        c.source matches Source::Ble { device_id, .. } ==> d.platform_id == Some(device_id),
        c.source matches Source::Usb { port, .. } ==> d.platform_id == Some(port),
        c.source is Simulate ==> d.platform_id is None,
        d.device_model is None && d.calibration_quality is None,
{
}

/// An operation begins with nothing attempted, sent, verified or completed.
pub proof fn operations_begin_with_nothing(op: OperationStatus, source: Option<String>)
    requires
        op.begins(source),
    ensures
        op.outcome == OperationOutcome::Running,
        !(op.write_attempted || op.command_sent || op.register_verified || op.completion_observed
            || op.reference_may_have_changed),
        op.persistence@ == "not_requested"@,
        op.message is None,
        op.source_id == source,
{
}

} // verus!
