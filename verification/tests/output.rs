use posebridge::model::{
    ConnectionState, Endpoint, Error, OscConfig, OscFormat, PoseSnapshot, RawData, SampleTime,
    SampleTimeKind,
};
use posebridge::number::Number;
use posebridge::osc::{
    encode, encode_text, period, SendResult, Sender, Telemetry, EULER_ADDRESS, INFO_ADDRESS,
    QUATERNION_ADDRESS,
};
use rosc::{OscMessage, OscPacket, OscType};

fn number(v: f64) -> Number {
    Number { bits: v.to_bits() }
}

fn snapshot() -> PoseSnapshot {
    PoseSnapshot {
        instance_id: 1,
        reference_epoch: 1,
        metadata_revision: 1,
        session_id: 1,
        sequence: 1,
        received_ns: 0,
        age_ns: 0,
        sample_time: None,
        quaternion_xyzw: [0., 0., 0., 1.].map(number),
        euler_deg: [0.; 3].map(number),
        raw: RawData::default(),
        fresh: true,
    }
}

fn decode(bytes: &[u8]) -> OscMessage {
    let (rest, packet) = rosc::decoder::decode_udp(bytes).unwrap();
    assert!(rest.is_empty());
    let OscPacket::Message(message) = packet else { panic!("message") };
    message
}

#[test]
fn osc_keeps_int64_precision_and_distinguishes_absent_time() {
    let mut pose = PoseSnapshot {
        session_id: 0x123456789abcdef,
        sequence: (1 << 53) + 1,
        received_ns: (1 << 54) + 3,
        sample_time: Some(SampleTime {
            kind: SampleTimeKind::DeviceCalendar,
            time_ms: 473398726930,
            clock_epoch: 2,
        }),
        ..snapshot()
    };
    for format in [OscFormat::Euler, OscFormat::Quaternion] {
        let bytes = encode(&pose, format, "test", 1, 0).unwrap();
        let msg = decode(&bytes);
        assert_eq!(msg.args[0], OscType::Int(3));
        assert_eq!(msg.args[1], OscType::String("test".into()));
        assert_eq!(msg.args[3], OscType::Long(pose.session_id as i64));
        assert_eq!(msg.args[4], OscType::Long(pose.sequence as i64));
        assert_eq!(msg.args[8], OscType::Long(pose.received_ns as i64));
        assert_eq!(msg.args[11], OscType::Long(473398726930));
    }

    pose.sample_time = None;
    let bytes = encode(&pose, OscFormat::Euler, "test", 1, 0).unwrap();
    let msg = decode(&bytes);
    assert_eq!(msg.args[10..13], [OscType::Int(0), OscType::Long(0), OscType::Long(0)]);
    pose.session_id = u64::MAX;
    assert!(encode(&pose, OscFormat::Euler, "test", 1, 0).is_err());
}

#[test]
fn pose_datagrams_are_what_the_osc_encoder_gives() {
    let pose = PoseSnapshot {
        instance_id: 11,
        session_id: 12,
        sequence: 13,
        reference_epoch: 14,
        metadata_revision: 15,
        received_ns: 16,
        sample_time: Some(SampleTime {
            kind: SampleTimeKind::SimulatedElapsed,
            time_ms: 17,
            clock_epoch: 18,
        }),
        quaternion_xyzw: [0.1, -0.2, 1e-40, 0.97].map(number),
        euler_deg: [30., -20.5, 1e-300].map(number),
        ..snapshot()
    };
    for (format, address, values) in [
        (OscFormat::Quaternion, QUATERNION_ADDRESS, vec![0.1f64, -0.2, 1e-40, 0.97]),
        (OscFormat::Euler, EULER_ADDRESS, vec![30., -20.5, 1e-300]),
    ] {
        for source in ["", "a", "abc", "耳机", "0123456"] {
            let mut args = vec![OscType::Int(3), OscType::String(source.into())];
            args.extend([11, 12, 13, 19, 14, 15, 16, 20].map(OscType::Long));
            args.extend([OscType::Int(2), OscType::Long(17), OscType::Long(18)]);
            args.extend(values.iter().map(|v| OscType::Float(*v as f32)));
            let expected =
                rosc::encoder::encode(&OscPacket::Message(OscMessage { addr: address.into(), args }))
                    .unwrap();
            assert_eq!(encode(&pose, format, source, 19, 20).unwrap(), expected);
            assert_eq!(expected.len() % 4, 0);
        }
    }
}

#[test]
fn values_without_a_finite_float_are_refused() {
    for bad in [f64::NAN, f64::NEG_INFINITY, 1e39, -3.5e38] {
        let pose = PoseSnapshot { euler_deg: [0., bad, 0.].map(number), ..snapshot() };
        assert!(!(bad as f32).is_finite());
        assert_eq!(
            encode(&pose, OscFormat::Euler, "s", 1, 0).unwrap_err().message(),
            "invalid argument: OSC value is not a finite float32"
        );
        assert!(encode(&pose, OscFormat::Quaternion, "s", 1, 0).is_ok());
    }
    assert_eq!(
        encode(&snapshot(), OscFormat::Euler, "s", 1 << 63, 0).unwrap_err().message(),
        "invalid argument: OSC integer exceeds int64 range"
    );
}

#[test]
fn narrowing_rounds_as_the_processor_does() {
    let mut patterns: Vec<u64> = vec![
        0,
        1,
        0x8000_0000_0000_0000,
        f64::from(f32::MAX).to_bits(),
        f64::from(f32::MAX).to_bits() + (1 << 28) - 1,
        f64::from(f32::MAX).to_bits() + (1 << 28),
        f64::from(f32::MIN_POSITIVE).to_bits(),
        f64::from(f32::MIN_POSITIVE).to_bits() - 1,
        (1e-45f64 / 2.0).to_bits(),
        f64::from(f32::from_bits(1)).to_bits() - (1 << 52),
        f64::from(f32::from_bits(1)).to_bits() - (1 << 52) + 1,
        f64::MAX.to_bits(),
        f64::MIN_POSITIVE.to_bits(),
    ];
    let mut seed = 0x9e37_79b9_7f4a_7c15u64;
    for i in 0..200_000u64 {
        seed = seed.wrapping_mul(6364136223846793005).wrapping_add(1442695040888963407);
        let exponent = 860 + seed.rotate_left(9) % 300;
        let fraction = seed.rotate_left(31) & 0xf_ffff_ffff_ffff;
        let tie = if i % 3 == 0 { fraction & !0x1fff_ffff | 0x1000_0000 } else { fraction };
        patterns.push((seed & (1 << 63)) | (exponent << 52) | tie);
    }
    for bits in patterns {
        let narrow = f64::from_bits(bits) as f32;
        let expected = narrow.is_finite().then(|| narrow.to_bits());
        assert_eq!(Number { bits }.to_single(), expected, "{bits:#x}");
    }
}

#[test]
fn text_messages_are_bounded() {
    let bytes = encode_text(INFO_ADDRESS, "{\"schema\":3}").unwrap();
    let message = decode(&bytes);
    assert_eq!(message.addr, "/posebridge/info");
    assert_eq!(message.args, vec![OscType::String("{\"schema\":3}".into())]);
    let longest = "x".repeat(8192 - 20 - 4 - 1);
    assert_eq!(encode_text(INFO_ADDRESS, &longest).unwrap().len(), 8192);
    let refused = encode_text(INFO_ADDRESS, &format!("{longest}x")).unwrap_err();
    assert_eq!(refused.message(), "protocol error: OSC datagram exceeds 8192 bytes");
}

fn sender(rate: u32) -> Sender {
    Sender::new(&OscConfig {
        target: Endpoint::V4 { octets: [127, 0, 0, 1], port: 9000 },
        max_rate_hz: rate,
        format: OscFormat::Euler,
    })
    .unwrap()
}

fn send_if_due(sender: &mut Sender, pose: &PoseSnapshot, now: u64) -> Option<OscMessage> {
    let packet = sender.packet_if_due(pose, "test", 0, now).unwrap()?;
    let result = SendResult::Bytes(packet.len());
    assert!(sender.delivered(pose, packet.len(), result, now).unwrap());
    Some(decode(&packet))
}

const START: u64 = 5_000_000_000;

#[test]
fn timer_jitter_does_not_halve_200_hz_output() {
    let mut sender = sender(200);
    let mut pose = snapshot();
    // Slightly late wakeups followed by less-late ones used to skip entire ticks.
    for index in 0..1000u64 {
        let jitter_us = [0, 800, 500, 400][index as usize % 4];
        let now = START + (index * 5000 + jitter_us) * 1000;
        pose.sequence = index + 1;
        assert!(send_if_due(&mut sender, &pose, now).is_some(), "sample {index}");
        assert!(sender.deadline().is_none());
    }
}

#[test]
fn pending_slot_sends_latest_once_and_idle_earns_no_burst_credit() {
    let ms = 1_000_000u64;
    let mut sender = sender(100);
    let mut pose = snapshot();
    assert!(send_if_due(&mut sender, &pose, START).is_some());
    for sequence in 2..=10u64 {
        pose.sequence = sequence;
        pose.euler_deg[0] = number(sequence as f64);
        assert!(send_if_due(&mut sender, &pose, START + sequence * 100_000).is_none());
    }
    assert_eq!(sender.deadline(), Some(u128::from(START + 10 * ms)));
    let sent = send_if_due(&mut sender, &pose, START + 11 * ms).unwrap();
    assert_eq!(sent.args[13], OscType::Float(10.));
    assert_eq!(sent.args[5], OscType::Long(2));
    assert_eq!(sender.coalesced_samples(), 8);
    assert!(send_if_due(&mut sender, &pose, START + 1000 * ms).is_none());
    assert!(sender.deadline().is_none());

    pose.sequence += 1;
    assert!(send_if_due(&mut sender, &pose, START + 1000 * ms).is_some());
    pose.sequence += 1;
    assert!(send_if_due(&mut sender, &pose, START + 1001 * ms).is_none());
    assert_eq!(sender.deadline(), Some(u128::from(START + 1010 * ms)));
}

#[test]
fn stale_pending_pose_is_discarded_and_new_session_can_resume() {
    let ms = 1_000_000u64;
    let mut sender = sender(1);
    let mut pose = snapshot();
    assert!(send_if_due(&mut sender, &pose, START).is_some());
    pose.sequence += 1;
    assert!(send_if_due(&mut sender, &pose, START + 5 * ms).is_none());
    pose.fresh = false;
    assert!(send_if_due(&mut sender, &pose, START + 1000 * ms).is_none());
    assert!(sender.deadline().is_none());
    pose.session_id += 1;
    pose.sequence = 1;
    pose.fresh = true;
    assert!(send_if_due(&mut sender, &pose, START + 2000 * ms).is_some());
}

#[test]
fn no_more_poses_leave_than_the_rate_allows() {
    let mut sender = sender(50);
    let mut pose = snapshot();
    let mut sent = 0u64;
    let mut now = START;
    // Samples every 3 ms for ten seconds, with a pause in between.
    for step in 0..3333u64 {
        now += if step == 1000 { 700_000_000 } else { 3_000_000 };
        pose.sequence = step + 1;
        sent += u64::from(send_if_due(&mut sender, &pose, now).is_some());
        assert!(sent <= (now - START) / 20_000_000 + 1);
    }
    assert!(sent > 480);
    assert_eq!(sender.tx_sequence, sent);
}

#[test]
fn failed_sends_are_retried_later_or_reported() {
    let mut sender = sender(100);
    let pose = snapshot();
    let n = sender.packet_if_due(&pose, "t", 0, START).unwrap().unwrap().len();
    assert!(!sender.delivered(&pose, n, SendResult::Blocked, START).unwrap());
    assert_eq!(sender.send_errors(), 1);
    assert_eq!(sender.deadline(), Some(u128::from(START + 10_000_000)));
    assert!(sender.packet_if_due(&pose, "t", 0, START + 9_999_999).unwrap().is_none());
    let again = START + 10_000_000;
    assert!(sender.packet_if_due(&pose, "t", 0, again).unwrap().is_some());
    let partial = sender.delivered(&pose, n, SendResult::Bytes(n - 1), again).unwrap_err();
    assert_eq!(partial.message(), "I/O error: partial UDP datagram send");
    let failed = sender.delivered(&pose, n, SendResult::Failed(Error::Busy), again);
    assert!(matches!(failed, Err(Error::Busy)));
    assert_eq!(sender.tx_sequence, 0);
    sender.clear_pending();
    assert!(sender.deadline().is_none());
}

#[test]
fn senders_keep_to_this_machine() {
    let config = |octets, port, rate| OscConfig {
        target: Endpoint::V4 { octets, port },
        max_rate_hz: rate,
        format: OscFormat::Euler,
    };
    assert!(Sender::new(&config([127, 9, 9, 9], 1, 200)).is_ok());
    assert!(Sender::new(&config([127, 0, 0, 1], 1, 201)).is_err());
    assert_eq!(
        Sender::new(&config([10, 0, 0, 1], 1, 200)).unwrap_err().message(),
        "invalid argument: OSC target must be loopback with a nonzero port"
    );
    assert_eq!(period(1), 1_000_000_000);
    assert_eq!(period(3), 333_333_333);
    assert_eq!(period(7), 142_857_143);
    assert_eq!(period(200), 5_000_000);
    for rate in 1..=200u32 {
        let exact = std::time::Duration::from_secs_f64(1.0 / f64::from(rate));
        assert_eq!(u128::from(period(rate)), exact.as_nanos());
    }
}

#[test]
fn telemetry_repeats_and_follows_changes() {
    let second = 1_000_000_000u64;
    let state = ConnectionState::Active;
    let mut t = Telemetry::new();
    assert!(t.info_due(1, 1, 0) && t.status_due(state, false, 0));
    assert_eq!(t.next_info_sequence(), 1);
    assert!(t.info_tried(1, 1, 8, SendResult::Bytes(8), 0).unwrap());
    assert!(t.status_tried(state, 8, SendResult::Bytes(8), 0).unwrap());
    assert_eq!((t.next_info_sequence(), t.next_status_sequence()), (2, 2));
    assert!(!t.info_due(1, 1, 5 * second - 1) && t.info_due(1, 1, 5 * second));
    assert!(t.info_due(1, 2, 1) && t.info_due(2, 1, 1));
    assert!(!t.status_due(state, false, second - 1) && t.status_due(state, false, second));
    assert!(t.status_due(ConnectionState::Stale, false, 1) && t.status_due(state, true, 1));
    assert!(!t.status_tried(state, 8, SendResult::Blocked, second).unwrap());
    assert_eq!(t.send_errors(), 1);
    assert_eq!(t.next_status_sequence(), 2);
    assert!(t.status_tried(state, 8, SendResult::Bytes(3), second).is_err());
    assert!(t.info_tried(1, 1, 8, SendResult::Failed(Error::Busy), second).is_err());
}

#[test]
fn blocked_attempts_take_their_slots_too() {
    let mut sender = sender(50);
    let mut pose = snapshot();
    let (mut sent, mut blocked) = (0u64, 0u64);
    let mut now = START;
    for step in 0..2000u64 {
        now += 3_000_000;
        pose.sequence = step + 1;
        let Some(packet) = sender.packet_if_due(&pose, "t", 0, now).unwrap() else { continue };
        let n = packet.len();
        if step % 3 == 0 {
            assert!(!sender.delivered(&pose, n, SendResult::Blocked, now).unwrap());
            assert_eq!(sender.deadline(), Some(u128::from(now + 20_000_000)));
            blocked += 1;
        } else {
            assert!(sender.delivered(&pose, n, SendResult::Bytes(n), now).unwrap());
            sent += 1;
        }
        // Each attempt but the last has taken a period since the first.
        assert!(now - (START + 3_000_000) >= (sent + blocked - 1) * 20_000_000);
    }
    assert!(sent > 50 && blocked > 50);
    assert_eq!(sender.tx_sequence, sent);
    assert_eq!(sender.send_errors(), blocked);
}
