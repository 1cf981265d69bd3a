//! The last battery reading and how far it can be relied on.

use crate::clock::{elapsed, elapsed_ns};
use crate::text::{decimal, decimal_text};
use vstd::prelude::*;

verus! {

/// The register that holds the supply voltage in hundredths of a volt.
pub const REGISTER: u16 = 0x64;

pub const POLL_INTERVAL_NS: u64 = 30_000_000_000;

pub const RESPONSE_TIMEOUT_NS: u64 = 3_000_000_000;

pub const STALE_AFTER_NS: u64 = 90_000_000_000;

/// The vendor's voltage table for one cell. Outside 2.00 V to 4.30 V the
/// voltage need not be that of a battery.
pub open spec fn percent_at(raw: u16) -> Option<u8> {
    if raw < 200 || raw > 430 {
        None
    } else if raw >= 396 {
        Some(100)
    } else if raw >= 393 {
        Some(90)
    } else if raw >= 387 {
        Some(75)
    } else if raw >= 382 {
        Some(60)
    } else if raw >= 379 {
        Some(50)
    } else if raw >= 377 {
        Some(40)
    } else if raw >= 373 {
        Some(30)
    } else if raw >= 370 {
        Some(20)
    } else if raw >= 368 {
        Some(15)
    } else if raw >= 350 {
        Some(10)
    } else if raw >= 340 {
        Some(5)
    } else {
        Some(0)
    }
}

/// The charge that a voltage in hundredths of a volt suggests.
pub fn estimate(raw: u16) -> (r: Option<u8>)
    ensures
        r == percent_at(raw),
{
    if raw < 200 || raw > 430 {
        return None;
    }
    let percent: u8 = if raw >= 396 {
        100
    } else if raw >= 393 {
        90
    } else if raw >= 387 {
        75
    } else if raw >= 382 {
        60
    } else if raw >= 379 {
        50
    } else if raw >= 377 {
        40
    } else if raw >= 373 {
        30
    } else if raw >= 370 {
        20
    } else if raw >= 368 {
        15
    } else if raw >= 350 {
        10
    } else if raw >= 340 {
        5
    } else {
        0
    };
    Some(percent)
}

/// A higher voltage never suggests a lower charge.
pub proof fn estimate_is_monotone(a: u16, b: u16)
    requires
        a <= b,
        percent_at(a) is Some,
        percent_at(b) is Some,
    ensures
        percent_at(a)->0 <= percent_at(b)->0 <= 100,
{
}

/// Why there is no newer reading.
#[derive(Debug)]
pub enum BatteryError {
    /// The register held a voltage outside 2.00 V to 5.50 V.
    OutOfRange { raw: u16 },
    TimedOut,
    Request(String),
}

impl Clone for BatteryError {
    fn clone(&self) -> (r: BatteryError)
        ensures
            r == *self,
    {
        match self {
            BatteryError::OutOfRange { raw } => BatteryError::OutOfRange { raw: *raw },
            BatteryError::TimedOut => BatteryError::TimedOut,
            BatteryError::Request(m) => BatteryError::Request(m.clone()),
        }
    }
}

impl BatteryError {
    pub open spec fn text(self) -> Seq<char> {
        match self {
            BatteryError::OutOfRange { raw } => "invalid battery register 0x64: "@ + decimal(
                raw as nat,
            ) + " (expected 200..550 centivolts)"@,
            BatteryError::TimedOut => "battery read timed out (register 0x64)"@,
            BatteryError::Request(m) => m@,
        }
    }

    /// What a person is told.
    pub fn message(&self) -> (r: String)
        ensures
            r@ == self.text(),
    {
        match self {
            BatteryError::OutOfRange { raw } => {
                let mut s = "invalid battery register 0x64: ".to_string();
                s.append(decimal_text(*raw as u64).as_str());
                s.append(" (expected 200..550 centivolts)");
                s
            },
            BatteryError::TimedOut => "battery read timed out (register 0x64)".to_string(),
            BatteryError::Request(m) => m.clone(),
        }
    }
}

/// A battery reading as it stands at some moment.
#[derive(Debug)]
pub struct BatteryStatus {
    /// Hundredths of a volt.
    pub raw_register: Option<u16>,
    pub estimated_percent: Option<u8>,
    pub age_ns: Option<u64>,
    pub fresh: bool,
    pub last_error: Option<BatteryError>,
}

impl BatteryStatus {
    pub open spec fn unknown() -> BatteryStatus {
        BatteryStatus {
            raw_register: None,
            estimated_percent: None,
            age_ns: None,
            fresh: false,
            last_error: None,
        }
    }
}

impl Clone for BatteryStatus {
    fn clone(&self) -> (r: BatteryStatus)
        ensures
            r == *self,
    {
        BatteryStatus {
            raw_register: self.raw_register,
            estimated_percent: self.estimated_percent,
            age_ns: self.age_ns,
            fresh: self.fresh,
            last_error: copy_error(&self.last_error),
        }
    }
}

fn copy_error(e: &Option<BatteryError>) -> (r: Option<BatteryError>)
    ensures
        r == *e,
{
    match e {
        Some(e) => Some(e.clone()),
        None => None,
    }
}

/// The last good reading, when it came, and what has failed since.
#[derive(Debug)]
pub struct Battery {
    pub raw_register: Option<u16>,
    pub estimated_percent: Option<u8>,
    pub received: Option<u64>,
    pub last_error: Option<BatteryError>,
}

impl Default for Battery {
    fn default() -> (r: Battery)
        ensures
            r == Battery::unread(),
    {
        Battery { raw_register: None, estimated_percent: None, received: None, last_error: None }
    }
}

impl Battery {
    pub open spec fn unread() -> Battery {
        Battery { raw_register: None, estimated_percent: None, received: None, last_error: None }
    }

    /// The battery after a register value came in. A voltage that neither a
    /// battery nor a supply has leaves the last good reading in place.
    pub open spec fn after(self, raw: u16, now: u64) -> Battery {
        if 200 <= raw <= 550 {
            Battery {
                raw_register: Some(raw),
                estimated_percent: percent_at(raw),
                received: Some(now),
                last_error: None,
            }
        } else {
            Battery { last_error: Some(BatteryError::OutOfRange { raw }), ..self }
        }
    }

    pub open spec fn status_at(self, now: u64, available: bool) -> BatteryStatus {
        BatteryStatus {
            raw_register: self.raw_register,
            estimated_percent: self.estimated_percent,
            age_ns: match self.received {
                Some(t) => Some(elapsed(t, now)),
                None => None,
            },
            fresh: available && self.last_error is None && (self.received matches Some(t)
                && elapsed(t, now) < STALE_AFTER_NS),
            last_error: self.last_error,
        }
    }

    pub fn observe(&mut self, raw: u16, now: u64)
        ensures
            *final(self) == old(self).after(raw, now),
    {
        if raw < 200 || raw > 550 {
            self.fail(BatteryError::OutOfRange { raw });
            return ;
        }
        self.raw_register = Some(raw);
        self.estimated_percent = estimate(raw);
        self.last_error = None;
        self.received = Some(now);
    }

    pub fn fail(&mut self, error: BatteryError)
        ensures
            *final(self) == (Battery { last_error: Some(error), ..*old(self) }),
    {
        self.last_error = Some(error);
    }

    pub fn snapshot(&self, now: u64, available: bool) -> (r: BatteryStatus)
        ensures
            r == self.status_at(now, available),
    {
        let age_ns = match self.received {
            Some(t) => Some(elapsed_ns(t, now)),
            None => None,
        };
        let recent = match age_ns {
            Some(age) => age < STALE_AFTER_NS,
            None => false,
        };
        BatteryStatus {
            raw_register: self.raw_register,
            estimated_percent: self.estimated_percent,
            age_ns,
            fresh: available && self.last_error.is_none() && recent,
            last_error: copy_error(&self.last_error),
        }
    }
}

/// A failed read keeps the last good reading with its age, and never passes it
/// off as fresh.
pub proof fn failures_keep_old_readings_stale(b: Battery, raw: u16, at: u64, now: u64)
    requires
        raw < 200 || raw > 550,
    ensures
        ({
            let s = b.after(raw, at).status_at(now, true);
            &&& !s.fresh
            &&& s.raw_register == b.raw_register
            &&& s.estimated_percent == b.estimated_percent
            &&& s.age_ns == b.status_at(now, true).age_ns
        }),
{
}

/// The vendor's table: from each voltage on, in hundredths of a volt, the charge
/// that it suggests.
pub open spec fn vendor_levels() -> Seq<(int, int)> {
    seq![
        (200int, 0int),
        (340int, 5int),
        (350int, 10int),
        (368int, 15int),
        (370int, 20int),
        (373int, 30int),
        (377int, 40int),
        (379int, 50int),
        (382int, 60int),
        (387int, 75int),
        (393int, 90int),
        (396int, 100int),
        (431int, -1int),
    ]
}

/// From each voltage of the vendor's table on, and up to the next, the charge is
/// that of the table; below 2.00 V and above 4.30 V there is none.
pub proof fn charges_are_the_vendors(raw: u16, k: int)
    requires
        0 <= k < 12,
    ensures
        vendor_levels()[k].0 <= raw < vendor_levels()[k + 1].0 ==> percent_at(raw) == Some(
            vendor_levels()[k].1 as u8,
        ),
        raw < 200 || raw >= 431 ==> percent_at(raw) is None,
{
    let v = vendor_levels();
    assert(v[0].0 == 200 && v[1].0 == 340 && v[2].0 == 350 && v[3].0 == 368 && v[4].0 == 370
        && v[5].0 == 373 && v[6].0 == 377 && v[7].0 == 379 && v[8].0 == 382 && v[9].0 == 387
        && v[10].0 == 393 && v[11].0 == 396 && v[12].0 == 431);
    assert(v[0].1 == 0 && v[1].1 == 5 && v[2].1 == 10 && v[3].1 == 15 && v[4].1 == 20 && v[5].1
        == 30 && v[6].1 == 40 && v[7].1 == 50 && v[8].1 == 60 && v[9].1 == 75 && v[10].1 == 90
        && v[11].1 == 100);
}

/// A reading from 2.00 V to 5.50 V is kept with its time, clears an earlier
/// error, and is fresh for 90 s while the device is there.
pub proof fn good_readings_are_fresh_for_ninety_seconds(
    b: Battery,
    raw: u16,
    at: u64,
    now: u64,
    available: bool,
)
    requires
        200 <= raw <= 550,
        at <= now,
        now - at < 0x8000_0000_0000_0000,
    ensures
        ({
            let s = b.after(raw, at).status_at(now, available);
            &&& s.raw_register == Some(raw)
            &&& s.estimated_percent == percent_at(raw)
            &&& s.last_error is None
            &&& s.age_ns == Some((now - at) as u64)
            &&& s.fresh <==> available && now - at < 90_000_000_000
        }),
{
}

/// A register value that no battery or supply has is an error that names it.
pub proof fn bad_readings_are_errors(b: Battery, raw: u16, now: u64)
    requires
        raw < 200 || raw > 550,
    ensures
        b.after(raw, now).last_error == Some(BatteryError::OutOfRange { raw }),
        b.after(raw, now).received == b.received,
{
}

} // verus!
