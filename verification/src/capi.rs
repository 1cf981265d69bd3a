//! What the C interface decides: result codes, flags and buffer sizes.

use crate::model::{Error, RawData, TransportKind};
use vstd::prelude::*;

verus! {

pub const PB_ABI_VERSION: u32 = 400;

pub const PB_OK: i32 = 0;

pub const PB_INVALID_ARGUMENT: i32 = 1;

pub const PB_NO_DATA: i32 = 2;

pub const PB_BUSY: i32 = 3;

pub const PB_UNAVAILABLE: i32 = 4;

pub const PB_PERMISSION: i32 = 5;

pub const PB_IO_ERROR: i32 = 6;

pub const PB_PROTOCOL_ERROR: i32 = 7;

pub const PB_TIMEOUT: i32 = 8;

pub const PB_BUFFER_TOO_SMALL: i32 = 9;

pub const PB_INTERNAL_ERROR: i32 = 10;

pub const PB_CANCELLED: i32 = 11;

pub const PB_TRANSPORT_BLE: u32 = 0;

pub const PB_TRANSPORT_USB: u32 = 1;

/// The longest JSON document that is taken.
pub const MAX_JSON_BYTES: u32 = 65536;

pub open spec fn code_of(e: Error) -> i32 {
    match e {
        Error::Invalid(_) => PB_INVALID_ARGUMENT,
        Error::Busy => PB_BUSY,
        Error::Unavailable(_) => PB_UNAVAILABLE,
        Error::Permission(_) => PB_PERMISSION,
        Error::Io(_) => PB_IO_ERROR,
        Error::Protocol(_) => PB_PROTOCOL_ERROR,
        Error::Timeout(_) => PB_TIMEOUT,
        Error::Cancelled => PB_CANCELLED,
        Error::Internal(_) => PB_INTERNAL_ERROR,
    }
}

/// The result code of an error.
pub fn error_code(e: &Error) -> (r: i32)
    ensures
        r == code_of(*e),
        r != PB_OK,
{
    match e {
        Error::Invalid(_) => PB_INVALID_ARGUMENT,
        Error::Busy => PB_BUSY,
        Error::Unavailable(_) => PB_UNAVAILABLE,
        Error::Permission(_) => PB_PERMISSION,
        Error::Io(_) => PB_IO_ERROR,
        Error::Protocol(_) => PB_PROTOCOL_ERROR,
        Error::Timeout(_) => PB_TIMEOUT,
        Error::Cancelled => PB_CANCELLED,
        Error::Internal(_) => PB_INTERNAL_ERROR,
    }
}

pub open spec fn flag(set: bool, value: int) -> int {
    if set {
        value
    } else {
        0
    }
}

/// Which raw readings are there: bit 0 a whole motion group, bit 1 the
/// quaternion, bits 2, 3 and 4 Euler angles, acceleration and angular velocity.
pub fn raw_flags(raw: &RawData) -> (r: u32)
    ensures
        r == flag(
            raw.euler_xyz is Some && raw.acceleration is Some && raw.angular_velocity is Some,
            1,
        ) + flag(raw.quaternion_wxyz is Some, 2) + flag(raw.euler_xyz is Some, 4) + flag(
            raw.acceleration is Some,
            8,
        ) + flag(raw.angular_velocity is Some, 16),
{
    let mut flags: u32 = 0;
    if raw.euler_xyz.is_some() && raw.acceleration.is_some() && raw.angular_velocity.is_some() {
        flags = flags + 1;
    }
    if raw.quaternion_wxyz.is_some() {
        flags = flags + 2;
    }
    if raw.euler_xyz.is_some() {
        flags = flags + 4;
    }
    if raw.acceleration.is_some() {
        flags = flags + 8;
    }
    if raw.angular_velocity.is_some() {
        flags = flags + 16;
    }
    flags
}

/// What copying a text to a caller's buffer comes to.
#[derive(Clone, Copy, Debug, PartialEq, Eq, Structural)]
pub enum TextCopy {
    /// The place for the required size is missing.
    NoRequired,
    TooLong,
    /// Report the required size; the buffer is too small.
    Small { required: u32 },
    /// Report the required size; there is no buffer.
    NoBuffer { required: u32 },
    /// Report the required size and copy, with a zero byte behind the text.
    Copy { required: u32 },
}

pub fn text_copy(length: usize, capacity: u32, has_buffer: bool, has_required: bool) -> (r:
    TextCopy)
    ensures
        r == (if !has_required {
            TextCopy::NoRequired
        } else if length + 1 > u32::MAX {
            TextCopy::TooLong
        } else if capacity < length + 1 {
            TextCopy::Small { required: (length + 1) as u32 }
        } else if !has_buffer {
            TextCopy::NoBuffer { required: (length + 1) as u32 }
        } else {
            TextCopy::Copy { required: (length + 1) as u32 }
        }),
{
    if !has_required {
        return TextCopy::NoRequired;
    }
    if length >= u32::MAX as usize {
        return TextCopy::TooLong;
    }
    let required: u32 = length as u32 + 1;
    if capacity < required {
        TextCopy::Small { required }
    } else if !has_buffer {
        TextCopy::NoBuffer { required }
    } else {
        TextCopy::Copy { required }
    }
}

/// Whether a JSON document of this length is read.
pub fn json_accepted(has_data: bool, length: u32) -> (r: bool)
    ensures
        r == (has_data && 1 <= length <= MAX_JSON_BYTES),
        r == (has_data && 1 <= length <= 65536),
{
    has_data && length != 0 && length <= MAX_JSON_BYTES
}

/// The transport of a number.
pub fn transport_kind(number: u32) -> (r: Result<TransportKind, Error>)
    ensures
        match r {
            Ok(TransportKind::Ble) => number == PB_TRANSPORT_BLE && number == 0,
            Ok(TransportKind::Usb) => number == PB_TRANSPORT_USB && number == 1,
            Err(e) => number != PB_TRANSPORT_BLE && number != PB_TRANSPORT_USB && e.is_invalid(
                "unknown transport"@,
            ),
        },
{
    if number == PB_TRANSPORT_BLE {
        Ok(TransportKind::Ble)
    } else if number == PB_TRANSPORT_USB {
        Ok(TransportKind::Usb)
    } else {
        Err(Error::invalid("unknown transport"))
    }
}

/// The kinds of error by their result code, from 1 on; 2 stands for missing data
/// and 9 for a small buffer.
pub proof fn errors_have_their_codes(e: Error)
    ensures
        e is Invalid <==> code_of(e) == 1,
        e is Busy <==> code_of(e) == 3,
        e is Unavailable <==> code_of(e) == 4,
        e is Permission <==> code_of(e) == 5,
        e is Io <==> code_of(e) == 6,
        e is Protocol <==> code_of(e) == 7,
        e is Timeout <==> code_of(e) == 8,
        e is Internal <==> code_of(e) == 10,
        e is Cancelled <==> code_of(e) == 11,
{
}

} // verus!
