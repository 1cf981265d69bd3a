//! What is decided about ports, advertisements and GATT characteristics.

use crate::model::{
    joined, BleConnectionMode, BleLinkStatus, DeviceInfo, Error, Platform, TransportKind,
};
use crate::text::{characters, has_prefix};
use vstd::prelude::*;
use vstd::utf8::encode_utf8;

verus! {

/// The sensor's GATT service, its notifications and its commands, as 128-bit UUIDs.
pub const SERVICE: u128 = 0x0000ffe500001000800000805f9a34fb;

pub const NOTIFY: u128 = 0x0000ffe400001000800000805f9a34fb;

pub const WRITE: u128 = 0x0000ffe900001000800000805f9a34fb;

/// The name starts with WT in either letter case, or the service is advertised.
/// Some firmware leaves the service out.
pub open spec fn is_wit(name: Seq<char>, services: Seq<u128>) -> bool {
    ||| name.len() >= 2 && (name[0] == 'W' || name[0] == 'w') && (name[1] == 'T' || name[1] == 't')
    ||| services.contains(SERVICE)
}

pub fn advertises_wit(name: &str, services: &[u128]) -> (r: bool)
    ensures
        r == is_wit(name@, services@),
{
    let chars = characters(name);
    if chars.len() >= 2 && (chars[0] == 'W' || chars[0] == 'w') && (chars[1] == 'T' || chars[1]
        == 't') {
        return true;
    }
    let mut i: usize = 0;
    while i < services.len()
        invariant
            i <= services@.len(),
            forall|j: int| 0 <= j < i ==> services@[j] != SERVICE,
        decreases services@.len() - i,
    {
        if services[i] == SERVICE {
            assert(services@.contains(SERVICE));
            return true;
        }
        i = i + 1;
    }
    false
}

/// USB ports are listed; of the two names of a port on macOS, the callout one.
pub fn lists_port(is_usb: bool, name: &str, platform: Platform) -> (r: bool)
    ensures
        r == (is_usb && !(platform == Platform::Macos && "/dev/tty."@.len() <= name@.len()
            && name@.take("/dev/tty."@.len() as int) == "/dev/tty."@)),
{
    is_usb && !(platform == Platform::Macos && has_prefix(name, "/dev/tty."))
}

pub fn usb_device(port: String, product: Option<String>, vid: u16, pid: u16) -> (r: DeviceInfo)
    ensures
        r.transport == TransportKind::Usb,
        r.id == port,
        r.name@ == (match product {
            Some(name) => name@,
            None => "USB serial"@,
        }),
        r.rssi is None,
        r.usb_vid == Some(vid),
        r.usb_pid == Some(pid),
{
    DeviceInfo {
        transport: TransportKind::Usb,
        id: port,
        name: match product {
            Some(name) => name,
            None => "USB serial".to_string(),
        },
        rssi: None,
        usb_vid: Some(vid),
        usb_pid: Some(pid),
    }
}

pub fn ble_device(id: String, name: String, rssi: Option<i16>) -> (r: DeviceInfo)
    ensures
        r == (DeviceInfo {
            transport: TransportKind::Ble,
            id,
            name,
            rssi,
            usb_vid: None,
            usb_pid: None,
        }),
{
    DeviceInfo { transport: TransportKind::Ble, id, name, rssi, usb_vid: None, usb_pid: None }
}

/// Lexicographic order of bytes.
pub open spec fn bytes_le(a: Seq<u8>, b: Seq<u8>) -> bool
    decreases a.len(),
{
    if a.len() == 0 {
        true
    } else if b.len() == 0 {
        false
    } else if a[0] != b[0] {
        a[0] < b[0]
    } else {
        bytes_le(a.skip(1), b.skip(1))
    }
}

pub open spec fn id_le(a: DeviceInfo, b: DeviceInfo) -> bool {
    bytes_le(encode_utf8(a.id@), encode_utf8(b.id@))
}

/// The devices of one identifier, in order.
pub open spec fn of_id(s: Seq<DeviceInfo>, id: Seq<char>) -> Seq<DeviceInfo>
    decreases s.len(),
{
    if s.len() == 0 {
        seq![]
    } else if s.last().id@ == id {
        of_id(s.drop_last(), id).push(s.last())
    } else {
        of_id(s.drop_last(), id)
    }
}

pub open spec fn ordered(s: Seq<DeviceInfo>) -> bool {
    forall|i: int, j: int| 0 <= i < j < s.len() ==> id_le(#[trigger] s[i], #[trigger] s[j])
}

proof fn lemma_total(a: Seq<u8>, b: Seq<u8>)
    ensures
        bytes_le(a, b) || bytes_le(b, a),
        bytes_le(a, b) && bytes_le(b, a) ==> a == b,
    decreases a.len(),
{
    if a.len() > 0 && b.len() > 0 && a[0] == b[0] {
        lemma_total(a.skip(1), b.skip(1));
        if bytes_le(a, b) && bytes_le(b, a) {
            assert(a.skip(1) == b.skip(1));
            assert forall|i: int| 0 <= i < a.len() implies a[i] == b[i] by {
                if i > 0 {
                    assert(a[i] == a.skip(1)[i - 1]);
                    assert(b[i] == b.skip(1)[i - 1]);
                }
            }
            assert(a.len() == a.skip(1).len() + 1);
            assert(b.len() == b.skip(1).len() + 1);
            assert(a =~= b);
        }
    } else if a.len() == 0 && b.len() == 0 {
        assert(a =~= b);
    }
}

proof fn lemma_transitive(a: Seq<u8>, b: Seq<u8>, c: Seq<u8>)
    requires
        bytes_le(a, b),
        bytes_le(b, c),
    ensures
        bytes_le(a, c),
    decreases a.len(),
{
    if a.len() > 0 && b.len() > 0 && c.len() > 0 && a[0] == b[0] && b[0] == c[0] {
        lemma_transitive(a.skip(1), b.skip(1), c.skip(1));
    }
}

fn compare(a: &str, b: &str) -> (r: bool)
    ensures
        r == bytes_le(encode_utf8(a@), encode_utf8(b@)),
{
    let x = a.as_bytes();
    let y = b.as_bytes();
    let mut i: usize = 0;
    assert(x@.skip(0) =~= x@);
    assert(y@.skip(0) =~= y@);
    while i < x.len() && i < y.len()
        invariant
            i <= x@.len(),
            i <= y@.len(),
            x@ == encode_utf8(a@),
            y@ == encode_utf8(b@),
            bytes_le(x@, y@) == bytes_le(x@.skip(i as int), y@.skip(i as int)),
        decreases x@.len() - i,
    {
        assert(x@.skip(i as int).skip(1) =~= x@.skip(i + 1));
        assert(y@.skip(i as int).skip(1) =~= y@.skip(i + 1));
        if x[i] != y[i] {
            return x[i] < y[i];
        }
        i = i + 1;
    }
    i >= x.len()
}

proof fn lemma_of_id_append(a: Seq<DeviceInfo>, b: Seq<DeviceInfo>, id: Seq<char>)
    ensures
        of_id(a + b, id) == of_id(a, id) + of_id(b, id),
    decreases b.len(),
{
    if b.len() == 0 {
        assert(a + b =~= a);
        assert(of_id(a, id) + of_id(b, id) =~= of_id(a, id));
    } else {
        assert((a + b).drop_last() =~= a + b.drop_last());
        assert((a + b).last() == b.last());
        lemma_of_id_append(a, b.drop_last(), id);
        assert(of_id(a + b, id) =~= of_id(a, id) + of_id(b, id));
    }
}

proof fn lemma_of_id_none(s: Seq<DeviceInfo>, id: Seq<char>)
    requires
        forall|i: int| 0 <= i < s.len() ==> (#[trigger] s[i]).id@ != id,
    ensures
        of_id(s, id) == Seq::<DeviceInfo>::empty(),
    decreases s.len(),
{
    if s.len() > 0 {
        lemma_of_id_none(s.drop_last(), id);
    }
}

proof fn lemma_insert(s: Seq<DeviceInfo>, k: int, d: DeviceInfo, id: Seq<char>)
    requires
        0 <= k <= s.len(),
        forall|i: int| k <= i < s.len() ==> (#[trigger] s[i]).id@ != d.id@,
    ensures
        of_id(s.insert(k, d), id) == of_id(s.push(d), id),
{
    let front = s.take(k);
    let back = s.skip(k);
    assert(s.insert(k, d) =~= front + seq![d] + back);
    assert(s.push(d) =~= front + back + seq![d]);
    lemma_of_id_append(front + seq![d], back, id);
    lemma_of_id_append(front, seq![d], id);
    lemma_of_id_append(front + back, seq![d], id);
    lemma_of_id_append(front, back, id);
    if id == d.id@ {
        assert(forall|i: int| 0 <= i < back.len() ==> (#[trigger] back[i]) == s[k + i]);
        lemma_of_id_none(back, id);
        assert(of_id(s.insert(k, d), id) =~= of_id(s.push(d), id));
    } else {
        assert(forall|i: int| 0 <= i < seq![d].len() ==> (#[trigger] seq![d][i]) == d);
        lemma_of_id_none(seq![d], id);
        assert(of_id(s.insert(k, d), id) =~= of_id(s.push(d), id));
    }
}

/// Sorts devices by identifier. Devices of one identifier stay in order.
pub fn sort_devices(devices: Vec<DeviceInfo>) -> (r: Vec<DeviceInfo>)
    ensures
        r@.len() == devices@.len(),
        ordered(r@),
        forall|id: Seq<char>| #[trigger] of_id(r@, id) == of_id(devices@, id),
{
    let mut sorted: Vec<DeviceInfo> = Vec::new();
    let mut i: usize = 0;
    while i < devices.len()
        invariant
            i <= devices@.len(),
            sorted@.len() == i,
            ordered(sorted@),
            forall|id: Seq<char>|
                #[trigger] of_id(sorted@, id) == of_id(devices@.take(i as int), id),
        decreases devices@.len() - i,
    {
        let device = devices[i].clone();
        let ghost before = sorted@;
        let mut k: usize = sorted.len();
        while k > 0 && !compare(sorted[k - 1].id.as_str(), device.id.as_str())
            invariant
                k <= sorted@.len(),
                forall|j: int| k <= j < sorted@.len() ==> !id_le(#[trigger] sorted@[j], device),
            decreases k,
        {
            k = k - 1;
        }
        sorted.insert(k, device);
        proof {
            assert forall|a: int, b: int| 0 <= a < b < sorted@.len() implies id_le(
                #[trigger] sorted@[a],
                #[trigger] sorted@[b],
            ) by {
                lemma_order_of_insert(before, k as int, device, a, b);
            }
            assert forall|j: int| k <= j < before.len() implies (#[trigger] before[j]).id@
                != device.id@ by {
                lemma_total(encode_utf8(before[j].id@), encode_utf8(device.id@));
            }
            assert(devices@.take(i + 1) =~= devices@.take(i as int).push(device));
            assert forall|id: Seq<char>| #[trigger] of_id(sorted@, id) == of_id(
                devices@.take(i + 1),
                id,
            ) by {
                lemma_insert(before, k as int, device, id);
                assert(of_id(before, id) == of_id(devices@.take(i as int), id));
                assert(before.push(device).drop_last() =~= before);
                assert(devices@.take(i as int).push(device).drop_last() =~= devices@.take(
                    i as int,
                ));
            }
        }
        i = i + 1;
    }
    assert(devices@.take(i as int) =~= devices@);
    sorted
}

proof fn lemma_order_of_insert(s: Seq<DeviceInfo>, k: int, d: DeviceInfo, a: int, b: int)
    requires
        ordered(s),
        0 <= k <= s.len(),
        k > 0 ==> id_le(s[k - 1], d),
        forall|j: int| k <= j < s.len() ==> !id_le(#[trigger] s[j], d),
        0 <= a < b < s.len() + 1,
    ensures
        id_le(s.insert(k, d)[a], s.insert(k, d)[b]),
{
    let t = s.insert(k, d);
    if b < k {
        assert(t[a] == s[a] && t[b] == s[b]);
    } else if b == k {
        assert(t[a] == s[a]);
        if a < k - 1 {
            assert(id_le(s[a], s[k - 1]));
            lemma_transitive(
                encode_utf8(s[a].id@),
                encode_utf8(s[k - 1].id@),
                encode_utf8(d.id@),
            );
        }
    } else if a > k {
        assert(t[a] == s[a - 1] && t[b] == s[b - 1]);
    } else if a == k {
        assert(t[b] == s[b - 1]);
        lemma_total(encode_utf8(s[b - 1].id@), encode_utf8(d.id@));
    } else {
        assert(t[a] == s[a] && t[b] == s[b - 1]);
    }
}

/// A GATT characteristic.
#[derive(Clone, Copy, Debug)]
pub struct CharacteristicInfo {
    pub service: u128,
    pub uuid: u128,
    pub notify: bool,
    pub indicate: bool,
    pub write: bool,
    pub write_without_response: bool,
}

pub open spec fn can_notify(c: CharacteristicInfo) -> bool {
    c.service == SERVICE && c.uuid == NOTIFY && (c.notify || c.indicate)
}

pub open spec fn can_write(c: CharacteristicInfo) -> bool {
    c.service == SERVICE && c.uuid == WRITE && (c.write || c.write_without_response)
}

/// `k` is the first place where `f` holds.
pub open spec fn is_first(
    s: Seq<CharacteristicInfo>,
    k: int,
    f: spec_fn(CharacteristicInfo) -> bool,
) -> bool {
    &&& 0 <= k < s.len()
    &&& f(s[k])
    &&& forall|j: int| 0 <= j < k ==> !f(#[trigger] s[j])
}

/// The first characteristic that notifies, which there must be, and the first
/// one that can be written to, if there is one.
pub fn select_characteristics(list: &Vec<CharacteristicInfo>) -> (r: Result<
    (usize, Option<usize>),
    Error,
>)
    ensures
        match r {
            Ok((n, w)) => {
                &&& is_first(list@, n as int, |c: CharacteristicInfo| can_notify(c))
                &&& match w {
                    Some(k) => is_first(list@, k as int, |c: CharacteristicInfo| can_write(c)),
                    None => forall|j: int|
                        0 <= j < list@.len() ==> !can_write(#[trigger] list@[j]),
                }
            },
            Err(e) => {
                &&& forall|j: int| 0 <= j < list@.len() ==> !can_notify(#[trigger] list@[j])
                &&& e.is_protocol("WIT FFE5/FFE4 notification characteristic missing"@)
            },
        },
{
    let mut notify: Option<usize> = None;
    let mut writer: Option<usize> = None;
    let mut i: usize = 0;
    while i < list.len()
        invariant
            i <= list@.len(),
            match notify {
                Some(k) => k < i && is_first(
                    list@,
                    k as int,
                    |c: CharacteristicInfo| can_notify(c),
                ),
                None => forall|j: int| 0 <= j < i ==> !can_notify(#[trigger] list@[j]),
            },
            match writer {
                Some(k) => k < i && is_first(list@, k as int, |c: CharacteristicInfo| can_write(c)),
                None => forall|j: int| 0 <= j < i ==> !can_write(#[trigger] list@[j]),
            },
        decreases list@.len() - i,
    {
        let c = &list[i];
        if notify.is_none() && c.service == SERVICE && c.uuid == NOTIFY && (c.notify
            || c.indicate) {
            notify = Some(i);
        }
        if writer.is_none() && c.service == SERVICE && c.uuid == WRITE && (c.write
            || c.write_without_response) {
            writer = Some(i);
        }
        i = i + 1;
    }
    match notify {
        Some(n) => Ok((n, writer)),
        None => Err(Error::protocol("WIT FFE5/FFE4 notification characteristic missing")),
    }
}

/// Why a Bluetooth call failed.
#[derive(Clone, Copy, Debug, PartialEq, Eq, Structural)]
pub enum BleFailure {
    PermissionDenied,
    NotSupported,
    Other,
}

pub fn ble_error(kind: BleFailure, text: String) -> (r: Error)
    ensures
        r == (match kind {
            BleFailure::PermissionDenied => Error::Permission(text),
            BleFailure::NotSupported => Error::Protocol(text),
            BleFailure::Other => Error::Unavailable(text),
        }),
{
    match kind {
        BleFailure::PermissionDenied => Error::Permission(text),
        BleFailure::NotSupported => Error::Protocol(text),
        BleFailure::Other => Error::Unavailable(text),
    }
}

/// Why a serial port could not be opened.
#[derive(Clone, Copy, Debug, PartialEq, Eq, Structural)]
pub enum SerialFailure {
    PermissionDenied,
    InvalidInput,
    Other,
}

pub fn serial_error(kind: SerialFailure, port: &str, text: &str) -> (r: Error)
    ensures
        ({
            let m = port@ + ": "@ + text@;
            match kind {
                SerialFailure::PermissionDenied => r matches Error::Permission(t) && t@ == m,
                SerialFailure::InvalidInput => r matches Error::Invalid(t) && t@ == m,
                SerialFailure::Other => r matches Error::Unavailable(t) && t@ == m,
            }
        }),
{
    let mut m = joined(port, ": ");
    m.append(text);
    match kind {
        SerialFailure::PermissionDenied => Error::Permission(m),
        SerialFailure::InvalidInput => Error::Invalid(m),
        SerialFailure::Other => Error::Unavailable(m),
    }
}

/// What the system says of a connection-parameter request.
pub open spec fn request_status_text(code: i32) -> Seq<char> {
    if code == 0 {
        "unspecified"@
    } else if code == 1 {
        "success"@
    } else if code == 2 {
        "device_not_available"@
    } else if code == 3 {
        "access_denied"@
    } else {
        "unknown"@
    }
}

fn request_status(code: i32) -> (r: &'static str)
    ensures
        r@ == request_status_text(code),
{
    match code {
        0 => "unspecified",
        1 => "success",
        2 => "device_not_available",
        3 => "access_denied",
        _ => "unknown",
    }
}

/// The state of a link, from what the system says of the request for a
/// preference and of the connection's interval and latency, where it says
/// anything. A later note takes the place of an earlier one.
pub fn link_status(
    mode: BleConnectionMode,
    note: Option<String>,
    request: Option<Result<i32, String>>,
    parameters: Option<Result<(u16, u16), String>>,
) -> (r: BleLinkStatus)
    ensures
        r.requested_mode == mode,
        match request {
            Some(Ok(code)) => r.request_status matches Some(s) && s@ == request_status_text(code),
            _ => r.request_status is None,
        },
        match parameters {
            Some(Ok((interval, latency))) if interval != 0 => r.connection_interval == Some(
                interval,
            ) && r.peripheral_latency == Some(latency),
            _ => r.connection_interval is None && r.peripheral_latency is None,
        },
        match (parameters, request) {
            (Some(Err(e)), _) => r.note == Some(e),
            (Some(Ok((0, _))), _) => r.note matches Some(n) && n@
                == "connection parameters are not available yet"@,
            (_, Some(Err(e))) => r.note == Some(e),
            _ => r.note == note,
        },
{
    let mut status = BleLinkStatus {
        requested_mode: mode,
        request_status: None,
        connection_interval: None,
        peripheral_latency: None,
        note,
    };
    match request {
        Some(Ok(code)) => {
            status.request_status = Some(request_status(code).to_string());
        },
        Some(Err(e)) => {
            status.note = Some(e);
        },
        None => {},
    }
    match parameters {
        Some(Ok((interval, latency))) => {
            if interval != 0 {
                status.connection_interval = Some(interval);
                status.peripheral_latency = Some(latency);
            } else {
                status.note = Some("connection parameters are not available yet".to_string());
            }
        },
        Some(Err(e)) => {
            status.note = Some(e);
        },
        None => {},
    }
    status
}

/// A 16-bit identifier in the base identifier of Bluetooth.
pub open spec fn bluetooth_uuid(short: int) -> int {
    short * 0x1_0000_0000_0000_0000_0000_0000 + 0x1000_8000_0080_5f9a_34fb
}

/// Notifications come from characteristic ffe4 and commands go to ffe9, both of
/// service ffe5, where they can notify or indicate, and be written to in either
/// way.
pub proof fn characteristics_serve_by_identifier(c: CharacteristicInfo)
    ensures
        can_notify(c) <==> c.service == bluetooth_uuid(0xffe5) && c.uuid == bluetooth_uuid(0xffe4)
            && (c.notify || c.indicate),
        can_write(c) <==> c.service == bluetooth_uuid(0xffe5) && c.uuid == bluetooth_uuid(0xffe9)
            && (c.write || c.write_without_response),
{
}

/// A sensor is known by the service that it advertises, whatever its name, and by
/// a name that begins with WT in any letter case, whatever it advertises.
pub proof fn sensors_are_known_by_name_or_service(
    name: Seq<char>,
    services: Seq<u128>,
    service: u128,
    rest: Seq<char>,
)
    requires
        service == bluetooth_uuid(0xffe5),
    ensures
        is_wit(name, services.push(service)),
        is_wit(seq!['W', 'T'] + rest, services),
        is_wit(seq!['w', 't'] + rest, services),
        is_wit(seq!['W', 't'] + rest, services),
        is_wit(seq!['w', 'T'] + rest, services),
        !services.contains(service) && name.len() < 2 ==> !is_wit(name, services),
        !services.contains(service) && name.len() >= 2 && is_wit(name, services) ==> (name[0] == 'w'
            || name[0] == 'W') && (name[1] == 't' || name[1] == 'T'),
{
    assert(services.push(service)[services.len() as int] == service);
    assert(services.push(service).contains(SERVICE));
    assert((seq!['W', 'T'] + rest)[0] == 'W' && (seq!['W', 'T'] + rest)[1] == 'T');
    assert((seq!['w', 't'] + rest)[0] == 'w' && (seq!['w', 't'] + rest)[1] == 't');
    assert((seq!['W', 't'] + rest)[0] == 'W' && (seq!['W', 't'] + rest)[1] == 't');
    assert((seq!['w', 'T'] + rest)[0] == 'w' && (seq!['w', 'T'] + rest)[1] == 'T');
}

/// In the order of identifiers the first byte that differs decides, and an
/// identifier comes before those that it begins.
pub proof fn identifiers_are_ordered_byte_by_byte(
    common: Seq<u8>,
    a: u8,
    b: u8,
    x: Seq<u8>,
    y: Seq<u8>,
)
    ensures
        a < b ==> bytes_le(common + seq![a] + x, common + seq![b] + y),
        a < b ==> !bytes_le(common + seq![b] + y, common + seq![a] + x),
        bytes_le(common, common + x),
        x.len() > 0 ==> !bytes_le(common + x, common),
    decreases common.len(),
{
    let p = common + seq![a] + x;
    let q = common + seq![b] + y;
    if common.len() > 0 {
        let rest = common.skip(1);
        assert(p.skip(1) =~= rest + seq![a] + x);
        assert(q.skip(1) =~= rest + seq![b] + y);
        assert((common + x).skip(1) =~= rest + x);
        assert(p[0] == common[0] && q[0] == common[0] && (common + x)[0] == common[0]);
        identifiers_are_ordered_byte_by_byte(rest, a, b, x, y);
    } else {
        assert(p[0] == a && q[0] == b);
    }
}

/// What the system says of a request for a connection preference, by its number.
pub proof fn request_states_are_told(code: i32)
    ensures
        code == 0 ==> request_status_text(code) == "unspecified"@,
        code == 1 ==> request_status_text(code) == "success"@,
        code == 2 ==> request_status_text(code) == "device_not_available"@,
        code == 3 ==> request_status_text(code) == "access_denied"@,
        code < 0 || code > 3 ==> request_status_text(code) == "unknown"@,
{
}

} // verus!
