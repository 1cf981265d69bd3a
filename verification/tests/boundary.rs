use posebridge::capi::{
    error_code, json_accepted, raw_flags, text_copy, transport_kind, TextCopy, PB_ABI_VERSION,
    PB_BUSY, PB_CANCELLED, PB_INTERNAL_ERROR, PB_INVALID_ARGUMENT, PB_IO_ERROR, PB_PERMISSION,
    PB_PROTOCOL_ERROR, PB_TIMEOUT, PB_UNAVAILABLE,
};
use posebridge::model::{
    BleConnectionMode, ConnectionState, Error, Platform, RawData, TransportKind,
};
use posebridge::transport::{
    advertises_wit, ble_device, ble_error, link_status, lists_port, select_characteristics,
    serial_error, sort_devices, usb_device, BleFailure, CharacteristicInfo, SerialFailure, NOTIFY,
    SERVICE, WRITE,
};

#[test]
fn sensors_are_told_by_name_or_service() {
    assert!(advertises_wit("WT901BLE", &[]));
    assert!(advertises_wit("wt-x", &[1]));
    assert!(!advertises_wit("W", &[]));
    assert!(!advertises_wit("XWT", &[NOTIFY]));
    assert!(advertises_wit("", &[1, SERVICE]));
}

#[test]
fn usb_ports_are_listed_once() {
    assert!(lists_port(true, "/dev/cu.usbserial", Platform::Macos));
    assert!(!lists_port(true, "/dev/tty.usbserial", Platform::Macos));
    assert!(lists_port(true, "/dev/tty.usbserial", Platform::Other));
    assert!(!lists_port(false, "COM1", Platform::Windows));
    let d = usb_device("COM3".into(), None, 1, 2);
    assert_eq!((d.name.as_str(), d.usb_vid, d.usb_pid), ("USB serial", Some(1), Some(2)));
    assert_eq!(d.transport, TransportKind::Usb);
}

#[test]
fn devices_are_sorted_by_identifier() {
    let device = |id: &str, name: &str| ble_device(id.into(), name.into(), None);
    let sorted = sort_devices(vec![
        device("b", "1"),
        device("aa", "2"),
        device("é", "3"),
        device("b", "4"),
        device("", "5"),
        device("a", "6"),
    ]);
    let mut expected = vec![("b", "1"), ("aa", "2"), ("é", "3"), ("b", "4"), ("", "5"), ("a", "6")];
    expected.sort_by(|x, y| x.0.cmp(y.0));
    let got: Vec<(&str, &str)> = sorted.iter().map(|d| (d.id.as_str(), d.name.as_str())).collect();
    assert_eq!(got, expected);
}

#[test]
fn characteristics_are_chosen_by_what_they_can_do() {
    let c = CharacteristicInfo {
        service: SERVICE,
        uuid: NOTIFY,
        notify: false,
        indicate: false,
        write: false,
        write_without_response: false,
    };
    let list = vec![
        c,
        CharacteristicInfo { uuid: WRITE, ..c },
        CharacteristicInfo { indicate: true, ..c },
        CharacteristicInfo { notify: true, ..c },
        CharacteristicInfo { uuid: WRITE, write_without_response: true, ..c },
    ];
    assert_eq!(select_characteristics(&list).unwrap(), (2, Some(4)));
    assert_eq!(select_characteristics(&list[..3].to_vec()).unwrap(), (2, None));
    assert_eq!(
        select_characteristics(&list[..2].to_vec()).unwrap_err().message(),
        "protocol error: WIT FFE5/FFE4 notification characteristic missing"
    );
}

#[test]
fn failures_are_classified() {
    assert!(matches!(ble_error(BleFailure::PermissionDenied, "t".into()), Error::Permission(_)));
    assert!(matches!(ble_error(BleFailure::NotSupported, "t".into()), Error::Protocol(_)));
    assert!(matches!(ble_error(BleFailure::Other, "t".into()), Error::Unavailable(_)));
    assert_eq!(
        serial_error(SerialFailure::InvalidInput, "COM9", "bad").message(),
        "invalid argument: COM9: bad"
    );
    assert_eq!(
        serial_error(SerialFailure::PermissionDenied, "COM9", "no").message(),
        "permission denied: COM9: no"
    );
    assert_eq!(
        serial_error(SerialFailure::Other, "COM9", "no").message(),
        "device or adapter unavailable: COM9: no"
    );
    assert!(matches!(Error::from_io(true, "x".into()), Error::Permission(_)));
    assert!(matches!(Error::from_io(false, "x".into()), Error::Io(_)));
}

#[test]
fn links_say_what_the_system_says() {
    let mode = BleConnectionMode::Throughput;
    let s = link_status(mode, None, Some(Ok(1)), Some(Ok((12, 0))));
    assert_eq!(s.request_status.as_deref(), Some("success"));
    assert_eq!((s.connection_interval, s.peripheral_latency), (Some(12), Some(0)));
    assert!(s.note.is_none());
    let s = link_status(mode, Some("n".into()), Some(Ok(9)), Some(Ok((0, 3))));
    assert_eq!(s.request_status.as_deref(), Some("unknown"));
    assert_eq!(s.note.as_deref(), Some("connection parameters are not available yet"));
    let s = link_status(mode, Some("n".into()), Some(Err("r".into())), None);
    assert_eq!(s.note.as_deref(), Some("r"));
    let s = link_status(mode, Some("n".into()), None, Some(Err("p".into())));
    assert_eq!(s.note.as_deref(), Some("p"));
    assert_eq!(link_status(mode, Some("n".into()), None, None).note.as_deref(), Some("n"));
}

#[test]
fn errors_have_codes_and_texts() {
    let cases = [
        (Error::Invalid("m".into()), PB_INVALID_ARGUMENT, "invalid argument: m"),
        (Error::Busy, PB_BUSY, "operation is busy; stop the current operation first"),
        (Error::Unavailable("m".into()), PB_UNAVAILABLE, "device or adapter unavailable: m"),
        (Error::Permission("m".into()), PB_PERMISSION, "permission denied: m"),
        (Error::Io("m".into()), PB_IO_ERROR, "I/O error: m"),
        (Error::Protocol("m".into()), PB_PROTOCOL_ERROR, "protocol error: m"),
        (Error::Timeout("m".into()), PB_TIMEOUT, "operation timed out: m"),
        (Error::Cancelled, PB_CANCELLED, "operation cancelled"),
        (Error::Internal("m".into()), PB_INTERNAL_ERROR, "internal error: m"),
    ];
    for (error, code, text) in cases {
        assert_eq!(error_code(&error), code);
        assert_eq!(error.message(), text);
        assert_eq!(error.clone().message(), text);
    }
    assert_eq!(PB_ABI_VERSION, 400);
}

#[test]
fn buffers_and_numbers_of_the_c_interface() {
    assert_eq!(text_copy(4, 5, true, true), TextCopy::Copy { required: 5 });
    assert_eq!(text_copy(4, 4, true, true), TextCopy::Small { required: 5 });
    assert_eq!(text_copy(4, 0, false, true), TextCopy::Small { required: 5 });
    assert_eq!(text_copy(4, 9, false, true), TextCopy::NoBuffer { required: 5 });
    assert_eq!(text_copy(4, 9, true, false), TextCopy::NoRequired);
    assert_eq!(text_copy(u32::MAX as usize, 9, true, true), TextCopy::TooLong);
    assert!(json_accepted(true, 65536) && json_accepted(true, 1));
    assert!(!json_accepted(true, 65537) && !json_accepted(true, 0) && !json_accepted(false, 5));
    assert_eq!(transport_kind(0).unwrap(), TransportKind::Ble);
    assert_eq!(transport_kind(1).unwrap(), TransportKind::Usb);
    assert!(transport_kind(2).is_err());
    let mut raw = RawData::default();
    assert_eq!(raw_flags(&raw), 0);
    raw.quaternion_wxyz = Some([1; 4]);
    raw.euler_xyz = Some([1; 3]);
    assert_eq!(raw_flags(&raw), 0b00110);
    raw.acceleration = Some([1; 3]);
    raw.angular_velocity = Some([1; 3]);
    assert_eq!(raw_flags(&raw), 0b11111);
    assert_eq!(ConnectionState::Idle.code(), 0);
    assert_eq!(ConnectionState::Magnetic.code(), 11);
}
