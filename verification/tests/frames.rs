use posebridge::model::DeviceCommand;
use posebridge::protocol::{
    command_register, device_calendar_ms, read_register, write_register, Frame, Parser, UNLOCK,
};

fn close(a: f64, b: f64) {
    assert!((a - b).abs() < 1e-6, "{a} != {b}");
}

fn scaled<const N: usize>(counts: [i16; N], scale: f64) -> [f64; N] {
    counts.map(|v| f64::from(v) / 32768.0 * scale)
}

const USB_SAMPLE: [u8; 20] = [
    0x55, 0x61, 0x11, 0x00, 0x1b, 0x00, 0x23, 0x08, 0, 0, 0, 0, 0, 0, 0x8b, 0, 0x9f, 0xff, 0x89,
    0xeb,
];

#[test]
fn captured_usb_frame_fragmentation_noise_and_coalescing() {
    let mut parser = Parser::default();
    assert!(parser.push(&[1, 2, 0x55, 0x40, 3]).is_empty());
    assert!(parser.push(&USB_SAMPLE[..7]).is_empty());
    let mut tail = USB_SAMPLE[7..].to_vec();
    tail.extend(USB_SAMPLE);
    let frames = parser.push(&tail);
    assert_eq!(frames.len(), 2);
    assert_eq!(parser.discarded_bytes, 5);
    match &frames[0] {
        Frame::Motion { acceleration, angular_velocity, euler_xyz } => {
            let acceleration_g = scaled(*acceleration, 16.);
            let angular_velocity_dps = scaled(*angular_velocity, 2000.);
            let euler_xyz_deg = scaled(*euler_xyz, 180.);
            close(acceleration_g[0], 17. / 32768. * 16.);
            close(acceleration_g[2], 2083. / 32768. * 16.);
            assert_eq!(angular_velocity_dps, [0.; 3]);
            close(euler_xyz_deg[0], 139. / 32768. * 180.);
            close(euler_xyz_deg[1], -97. / 32768. * 180.);
            close(euler_xyz_deg[2], -5239. / 32768. * 180.);
        }
        _ => panic!("wrong frame"),
    }
}

#[test]
fn register_values_and_explicit_configuration_commands() {
    let mut bytes = [0u8; 20];
    bytes[..4].copy_from_slice(&[0x55, 0x71, 0x51, 0]);
    bytes[4..6].copy_from_slice(&16384i16.to_le_bytes());
    bytes[6..8].copy_from_slice(&(-16384i16).to_le_bytes());
    let result = Parser::default().push(&bytes);
    match result[0] {
        Frame::Registers { address, values } => {
            assert_eq!(address, 0x51);
            assert_eq!(values[0], 16384);
            assert_eq!(values[1], -16384);
        }
        _ => panic!("wrong frame"),
    }
    assert_eq!(read_register(0x51), [0xff, 0xaa, 0x27, 0x51, 0]);
    for (hz, code) in [(10, 6), (50, 8), (100, 9), (200, 11)] {
        assert_eq!(command_register(&DeviceCommand::Rate { hz }).unwrap(), (3, code));
    }
    assert!(command_register(&DeviceCommand::Rate { hz: 125 }).is_err());
}

#[test]
fn commands_are_little_endian() {
    assert_eq!(read_register(0x1234), [0xff, 0xaa, 0x27, 0x34, 0x12]);
    assert_eq!(write_register(0x0e, 0xe4), [0xff, 0xaa, 0x0e, 0xe4, 0]);
    assert_eq!(write_register(3, 0x0102), [0xff, 0xaa, 3, 2, 1]);
    assert_eq!(UNLOCK, [0xff, 0xaa, 0x69, 0x88, 0xb5]);
}

#[test]
fn complete_inertial_frame_is_split_safe_and_keeps_each_field() {
    let mut data = vec![0x55, 0xe4, 26, 9, 20, 12, 0, 0, 0, 0];
    for word in [0i16, 0, 2048, 16384, 0, -8192, 32767, 0, 0, 0] {
        data.extend(word.to_le_bytes());
    }
    assert_eq!(data.len(), 30);
    for split in 0..data.len() {
        let mut p = Parser::default();
        assert!(p.push(&data[..split]).is_empty());
        let frames = p.push(&data[split..]);
        assert_eq!(frames.len(), 1);
        let Frame::Stream {
            profile,
            acceleration,
            angular_velocity,
            quaternion_wxyz,
            sample_time_ms,
            ..
        } = frames[0]
        else {
            panic!()
        };
        assert_eq!(profile, 0xe4);
        assert_eq!(acceleration.map(|v| scaled(v, 16.)), Some([0., 0., 1.]));
        assert_eq!(angular_velocity.map(|v| scaled(v, 2000.)), Some([1000., 0., -500.]));
        assert!(quaternion_wxyz.is_some() && sample_time_ms.is_some());
        assert_eq!(p.discarded_bytes, 0);
    }
    let mut p = Parser::default();
    data.extend_from_within(..);
    assert_eq!(p.push(&data).len(), 2);
}

fn stamp(year: u8, month: u8, day: u8, hour: u8, minute: u8, second: u8, ms: u16) -> [u8; 8] {
    let [lo, hi] = ms.to_le_bytes();
    [year, month, day, hour, minute, second, lo, hi]
}

#[test]
fn calendar_boundaries_and_invalid_dates() {
    assert_eq!(device_calendar_ms(stamp(0, 1, 1, 0, 0, 0, 0)), Some(0));
    for (before, after) in [
        (stamp(0, 2, 28, 23, 59, 59, 999), stamp(0, 2, 29, 0, 0, 0, 0)),
        (stamp(0, 2, 29, 23, 59, 59, 999), stamp(0, 3, 1, 0, 0, 0, 0)),
        (stamp(99, 12, 31, 23, 59, 59, 999), stamp(100, 1, 1, 0, 0, 0, 0)),
        (stamp(100, 2, 28, 23, 59, 59, 999), stamp(100, 3, 1, 0, 0, 0, 0)),
        (stamp(24, 4, 30, 23, 59, 59, 999), stamp(24, 5, 1, 0, 0, 0, 0)),
    ] {
        assert_eq!(
            device_calendar_ms(after).unwrap() - device_calendar_ms(before).unwrap(),
            1
        );
    }
    for invalid in [
        stamp(100, 2, 29, 0, 0, 0, 0),
        stamp(1, 2, 29, 0, 0, 0, 0),
        stamp(24, 4, 31, 0, 0, 0, 0),
        stamp(24, 0, 1, 0, 0, 0, 0),
        stamp(24, 13, 1, 0, 0, 0, 0),
        stamp(24, 1, 0, 0, 0, 0, 0),
        stamp(24, 1, 1, 24, 0, 0, 0),
        stamp(24, 1, 1, 0, 60, 0, 0),
        stamp(24, 1, 1, 0, 0, 60, 0),
        stamp(24, 1, 1, 0, 0, 0, 1000),
    ] {
        assert_eq!(device_calendar_ms(invalid), None);
    }
}

#[test]
fn calendar_values_are_milliseconds_since_2000() {
    let day: u64 = 24 * 3600 * 1000;
    assert_eq!(device_calendar_ms(stamp(1, 1, 1, 0, 0, 0, 0)), Some(366 * day));
    assert_eq!(device_calendar_ms(stamp(15, 1, 1, 3, 38, 46, 930)), Some(473398726930));
    assert_eq!(
        device_calendar_ms(stamp(255, 12, 31, 23, 59, 59, 999)),
        Some((256 * 365 + 62) * day - 1)
    );
    let earlier = device_calendar_ms(stamp(24, 2, 29, 23, 59, 59, 999)).unwrap();
    let later = device_calendar_ms(stamp(24, 12, 1, 0, 0, 0, 0)).unwrap();
    assert!(earlier < later);
}

fn frame(flag: u8, ms: u16) -> Vec<u8> {
    let mut bytes = vec![0x55, flag];
    if flag & 0x80 != 0 {
        bytes.extend(stamp(15, 1, 1, 3, 38, 46, ms));
    }
    if flag & 0x20 != 0 {
        bytes.extend(
            [(-16384i16).to_le_bytes(), 0i16.to_le_bytes(), 8192i16.to_le_bytes()].concat(),
        );
    }
    if flag & 0x01 != 0 {
        bytes.extend(
            [(-16384i16).to_le_bytes(), 8192i16.to_le_bytes(), 0i16.to_le_bytes()].concat(),
        );
    } else {
        bytes.extend([0xff, 0x7f, 0, 0, 0, 0, 0, 0]);
    }
    bytes
}

#[test]
fn variable_profiles_split_coalesced_invalid_and_resynchronized() {
    for flag in [0x01, 0x04, 0x81, 0x84, 0xa4] {
        let bytes = frame(flag, 930);
        for split in 0..bytes.len() {
            let mut parser = Parser::default();
            assert!(parser.push(&bytes[..split]).is_empty());
            let frames = parser.push(&[bytes[split..].to_vec(), bytes.clone()].concat());
            assert_eq!(frames.len(), 2);
            let Frame::Stream {
                sample_time_ms,
                angular_velocity,
                euler_xyz,
                quaternion_wxyz,
                ..
            } = frames[0]
            else {
                panic!("stream")
            };
            assert_eq!(sample_time_ms.is_some(), flag & 0x80 != 0);
            assert_eq!(
                euler_xyz.map(|v| scaled(v, 180.)),
                (flag & 1 != 0).then_some([-90., 45., 0.])
            );
            assert_eq!(
                angular_velocity.map(|v| scaled(v, 2000.)),
                (flag & 0x20 != 0).then_some([-1000., 0., 500.])
            );
            assert_eq!(quaternion_wxyz.is_some(), flag & 4 != 0);
            assert_eq!(parser.discarded_bytes, 0);
        }
    }
    let mut bad_date = frame(0x84, 1000);
    let mut bad_q = frame(0x84, 930);
    bad_q[10..].fill(0);
    bad_date.extend(bad_q);
    bad_date.extend([0; 256]);
    bad_date.extend(frame(0xa4, 935));
    let mut parser = Parser::default();
    assert_eq!(parser.push(&bad_date).len(), 1);
    assert_eq!(parser.invalid_frames, 2);
    assert_eq!(parser.discarded_bytes, 292);
}

#[test]
fn real_ble_a4_capture_has_correct_time_and_component_order() {
    let bytes = [
        0x55, 0xa4, 0x0f, 1, 1, 3, 0x26, 0x2e, 0xa2, 3, 0, 0, 0, 0, 0, 0, 0x86, 7, 5, 0xb2, 0xb5,
        0x64, 0xda, 0xf5,
    ];
    let frames = Parser::default().push(&bytes);
    let Frame::Stream { sample_time_ms, angular_velocity, quaternion_wxyz, .. } = frames[0] else {
        panic!("stream")
    };
    assert_eq!(sample_time_ms, device_calendar_ms(stamp(15, 1, 1, 3, 38, 46, 930)));
    assert_eq!(angular_velocity.map(|v| scaled(v, 2000.)), Some([0.; 3]));
    assert_eq!(
        scaled(quaternion_wxyz.unwrap(), 1.),
        [1926., -19963., 25781., -2598.].map(|v| v / 32768.)
    );
}

#[test]
fn quaternion_length_limits_are_exact() {
    // 29491^2 is the largest square below 0.81 of full scale, 29492^2 lies above.
    let with = |w: i16| {
        let mut bytes = vec![0x55, 0x04];
        bytes.extend(w.to_le_bytes());
        bytes.extend([0; 6]);
        Parser::default().push(&bytes).len()
    };
    assert_eq!(with(29491), 0);
    assert_eq!(with(29492), 1);
    assert_eq!(with(-29492), 1);
    assert_eq!(with(i16::MIN), 1);
}

#[test]
fn bytes_are_framed_discarded_or_kept() {
    let mut noise = vec![9u8, 0x55, 0x00, 0x55];
    noise.extend(USB_SAMPLE);
    noise.extend(&USB_SAMPLE[..11]);
    let mut whole = Parser::default();
    let frames = whole.push(&noise);
    assert_eq!(frames.len(), 1);
    assert_eq!(whole.discarded_bytes, 4);
    assert_eq!(whole.buffer, USB_SAMPLE[..11].to_vec());
    assert_eq!(
        noise.len() as u64,
        20 * frames.len() as u64 + whole.discarded_bytes + whole.buffer.len() as u64
    );
    let mut piecewise = Parser::default();
    let mut count = 0;
    for byte in &noise {
        count += piecewise.push(&[*byte]).len();
        assert!(piecewise.buffer.len() < 30);
    }
    assert_eq!(count, frames.len());
    assert_eq!(piecewise.discarded_bytes, whole.discarded_bytes);
    assert_eq!(piecewise.buffer, whole.buffer);
}

#[test]
fn parts_of_a_stream_give_what_the_whole_gives() {
    let mut stream = Vec::new();
    stream.extend([0x55, 0x13, 0x55]);
    let mut motion = vec![0x55, 0x61];
    motion.extend(1..=18);
    stream.extend(&motion);
    stream.extend([0x55, 0x81, 26, 13, 1, 0, 0, 0, 0, 0, 1, 0, 2, 0, 3, 0]); // no such month
    stream.extend(&motion);
    stream.extend([0x55, 0xe4, 1, 2, 3]);
    let mut whole = Parser::default();
    let frames = whole.push(&stream);
    for cut in 0..=stream.len() {
        let mut parts = Parser::default();
        let mut given = parts.push(&stream[..cut]);
        let (discarded, invalid) = (parts.discarded_bytes, parts.invalid_frames);
        given.extend(parts.push(&stream[cut..]));
        assert_eq!(format!("{given:?}"), format!("{frames:?}"));
        assert_eq!(parts.buffer, whole.buffer);
        assert_eq!(parts.discarded_bytes, whole.discarded_bytes);
        assert_eq!(parts.invalid_frames, whole.invalid_frames);
        assert!(discarded <= parts.discarded_bytes && invalid <= parts.invalid_frames);
    }
    assert_eq!(frames.len(), 2);
    assert_eq!(whole.invalid_frames, 1);
    assert_eq!(whole.discarded_bytes, 19);
    assert_eq!(stream.len(), 19 + 2 * 20 + whole.buffer.len());
    assert_eq!(whole.buffer.len(), 5);
}
