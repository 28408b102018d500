use roborock_s5max::groups::SensorGroupData;
use roborock_s5max::groups::SensorValue;
use roborock_s5max::lds::packet_checksum;
use roborock_s5max::lds::LdsDecoder;
use roborock_s5max::lds::LdsPacket;
use roborock_s5max::lds::LdsSample;
use roborock_s5max::lds::INDEX_MAX;
use roborock_s5max::lds::INDEX_MIN;
use roborock_s5max::lds::PACKET_LENGTH;
use roborock_s5max::lds_reader::publish_revolution;
use roborock_s5max::lds_reader::revolution_publishable;
use roborock_s5max::lds_reader::speed_feedback_rpm_x100;
use roborock_s5max::lds_reader::zero_feedback_due;
use roborock_s5max::lds_reader::LdsEvent;
use roborock_s5max::lds_reader::LdsPhase;
use roborock_s5max::lds_reader::LdsRequest;
use roborock_s5max::lds_reader::LdsRun;
use roborock_s5max::lds_reader::COLD_START_FEEDBACK_GRACE;
use roborock_s5max::revolution::LdsRevolutionAssembler;

const CAPTURED: [u8; PACKET_LENGTH] = [
    0xfa, 0xbb, 0xc2, 0x4a, 0x7f, 0x0f, 0x78, 0x00, 0x64, 0x0f, 0x8e, 0x01, 0x27, 0x0f, 0x6d, 0x02,
    0xf4, 0x0e, 0xf7, 0x02, 0x45, 0x40,
];

#[test]
fn parses_captured_packet_shape() {
    let raw = CAPTURED;
    let packet = LdsPacket::parse(&raw).unwrap();
    assert_eq!(packet.index, 0xbb);
    assert_eq!(packet.start_angle_degrees(), 108);
    assert_eq!(packet.speed_raw, 0x4ac2);
    assert_eq!(f32::from(packet.speed_raw) / 64.0, 299.03125);
    assert_eq!(packet.samples[0].distance_raw, 0x0f7f);
    assert_eq!(packet.samples[0].distance_mm(), 0x0f7f);
    assert_eq!(packet.samples[0].signal_strength, 0x0078);
    assert_eq!(packet.checksum, 0x4045);
    assert!(packet.checksum_valid(&raw));
}

#[test]
fn identifies_no_return_sample() {
    let raw = [
        0xfa, 0xb9, 0xc2, 0x4a, 0x20, 0x80, 0, 0, 0x20, 0x80, 0, 0, 0x20, 0x80, 0, 0, 0x20, 0x80,
        0, 0, 0x67, 0x4f,
    ];
    let packet = LdsPacket::parse(&raw).unwrap();
    assert!(packet.samples.iter().all(|sample| sample.invalid()));
    assert_eq!(packet.samples[0].distance_mm(), 0x20);
    assert!(packet.checksum_valid(&raw));
}

#[test]
fn resynchronizes_across_chunks() {
    let raw = CAPTURED;
    let mut decoder = LdsDecoder::new();
    assert!(decoder.push(&raw[..7]).is_empty());
    let packets = decoder.push(&raw[7..]);
    assert_eq!(packets.len(), 1);
    assert_eq!(packets[0].index, 0xbb);
}

#[test]
fn rejects_a_corrupt_packet_while_resynchronizing() {
    let mut raw = CAPTURED;
    raw[4] ^= 1;
    let mut decoder = LdsDecoder::new();
    assert!(decoder.push(&raw).is_empty());
    assert!(decoder.discarded() > 0);
}

fn synthetic_packet(index: u8, speed_raw: u16, invalid: bool) -> LdsPacket {
    let distance_raw = if invalid { 0x8000 } else { 1_000 };
    LdsPacket {
        index,
        speed_raw,
        samples: [LdsSample {
            distance_raw,
            signal_strength: 10,
        }; 4],
        checksum: 0,
    }
}

#[test]
fn reconstructs_a_complete_revolution() {
    let mut assembler = LdsRevolutionAssembler::new();
    for index in INDEX_MIN..=INDEX_MAX {
        assert!(assembler.push(synthetic_packet(index, 19_200, false)).is_none());
    }
    let scan = assembler.push(synthetic_packet(INDEX_MIN, 19_264, true)).unwrap();
    assert!(scan.complete());
    assert_eq!(scan.packet_count, 90);
    assert_eq!(scan.missing_packets(), 0);
    assert_eq!(scan.observed_sample_count(), 360);
    assert_eq!(scan.valid_sample_count(), 360);
    assert_eq!(scan.invalid_sample_count(), 0);
    assert_eq!(scan.speed_raw_sum as f32 / scan.packet_count as f32 / 64.0, 300.0);

    let partial = assembler.finish().unwrap();
    assert_eq!(partial.packet_count, 1);
    assert_eq!(partial.invalid_sample_count(), 4);
}

#[test]
fn reports_partial_revolutions_and_duplicates() {
    let mut assembler = LdsRevolutionAssembler::new();
    assert!(assembler.push(synthetic_packet(0xb0, 19_000, false)).is_none());
    assert!(assembler.push(synthetic_packet(0xb0, 19_000, false)).is_none());
    assert!(assembler.push(synthetic_packet(0xb2, 19_100, true)).is_none());
    let scan = assembler.push(synthetic_packet(INDEX_MIN, 19_200, false)).unwrap();
    assert!(!scan.complete());
    assert_eq!(scan.packet_count, 2);
    assert_eq!(scan.duplicate_packets, 1);
    assert_eq!(scan.missing_packets(), 88);
    assert_eq!(scan.observed_sample_count(), 8);
    assert_eq!(scan.valid_sample_count(), 4);
    assert_eq!(scan.invalid_sample_count(), 4);
}

#[test]
fn applies_the_measured_clockwise_to_body_transform() {
    let mut decoder = LdsDecoder::new();
    let packet = decoder.push(&CAPTURED).pop().unwrap();
    let mut assembler = LdsRevolutionAssembler::new();
    assert!(assembler.push(packet).is_none());

    let revolution = assembler.finish().unwrap();
    let mut data = SensorGroupData::new("lidar");
    publish_revolution(&mut data, &revolution, 7);
    let Some(SensorValue::PointCloud2D(points)) = data.values.get("scan") else {
        panic!("scan has unexpected type");
    };
    let forward_radians = 261.2_f32.to_radians();
    let bearing = forward_radians - f32::from(points[0].raw_angle).to_radians();
    let distance = f32::from(points[0].distance_mm) / 1000.0;
    let expected = (261.2_f32 - (packet.index - INDEX_MIN) as f32 * 4.0).to_radians();
    assert!((bearing - expected).abs() < 1e-5);
    assert!((distance - 3.967).abs() < 1e-6);
    assert_eq!(points.len(), 4);
    assert_eq!(points[0].quality, 0x78);
    assert_eq!(points[1].quality, 0xff);
    assert_eq!(data.last_update, Some(7));
    assert_eq!(data.values.get("invalid_samples"), Some(&SensorValue::U16(0)));
}

#[test]
fn converts_packet_q10_6_speed_to_kernel_feedback() {
    assert_eq!(speed_feedback_rpm_x100(0), 0);
    assert_eq!(speed_feedback_rpm_x100(300 * 64), 30_000);
    assert_eq!(speed_feedback_rpm_x100(0x4ac2), 29_903);
}

#[test]
fn accepts_only_sufficiently_complete_revolutions() {
    assert!(!revolution_publishable(74));
    assert!(revolution_publishable(75));
    assert!(revolution_publishable(90));
}

#[test]
fn cold_rotor_gets_a_bounded_feedback_grace_period() {
    let now: u64 = 1_000_000_000;
    let last_feedback = now - 100_000_000;
    assert!(!zero_feedback_due(true, false, Some(now), last_feedback, now));
    assert!(zero_feedback_due(true, true, Some(now), last_feedback, now));
    let after_grace = now + COLD_START_FEEDBACK_GRACE;
    assert!(zero_feedback_due(true, false, Some(now), last_feedback, after_grace));
    assert!(!zero_feedback_due(false, true, Some(now), last_feedback, after_grace));
}

#[test]
fn lds_bytes_are_packets_noise_or_pending() {
    let mut wire = vec![0x00, 0xfa, 0x11];
    wire.extend(CAPTURED);
    wire.push(0xfa);
    for cut in 0..wire.len() {
        let mut decoder = LdsDecoder::new();
        let mut packets = decoder.push(&wire[..cut]);
        packets.extend(decoder.push(&wire[cut..]));
        assert_eq!(packets.len(), 1);
        assert_eq!(packets[0], LdsPacket::parse(&CAPTURED).unwrap());
        assert_eq!(decoder.discarded(), 3);
    }
}

#[test]
fn checksum_of_the_captured_packet() {
    assert_eq!(packet_checksum(&CAPTURED), 0x4045);
    let mut other = CAPTURED;
    other[7] ^= 0x10;
    assert_ne!(packet_checksum(&other), 0x4045);
}

#[test]
fn other_packet_shapes_are_refused() {
    let mut raw = CAPTURED;
    raw[0] = 0xfb;
    assert!(LdsPacket::parse(&raw).is_none());
    raw[0] = 0xfa;
    raw[1] = 0x9f;
    assert!(LdsPacket::parse(&raw).is_none());
    raw[1] = 0xfa;
    assert!(LdsPacket::parse(&raw).is_none());
    raw[1] = 0xf9;
    assert_eq!(LdsPacket::parse(&raw).unwrap().start_angle_degrees(), 356);
}

fn feed(request: LdsRequest) -> i32 {
    match request {
        LdsRequest::Feed(speed) => speed,
        other => panic!("expected feedback, got {other:?}"),
    }
}

#[test]
fn the_worker_tells_the_motor_each_measured_speed() {
    let mut group = SensorGroupData::new("lidar");
    let (mut run, first) = LdsRun::begin(0);
    assert!(matches!(first, LdsRequest::Look));
    let request = run.step(&mut group, LdsEvent::Looked { shutdown: false, running: true }, 10);
    assert!(matches!(request, LdsRequest::Poll));
    assert!(matches!(run.step(&mut group, LdsEvent::Polled(Ok(true)), 11), LdsRequest::Read));
    assert!(run.has_room(CAPTURED.len()));
    let request = run.step(&mut group, LdsEvent::Received(Ok(CAPTURED.to_vec())), 12);
    assert!(matches!(request, LdsRequest::Continue));
    assert_eq!(feed(run.step(&mut group, LdsEvent::Proceed, 13)), 29_903);
    assert!(matches!(run.step(&mut group, LdsEvent::Fed(Ok(())), 14), LdsRequest::Continue));
    assert_eq!(run.worker.last_feedback, 14);
    assert!(matches!(run.step(&mut group, LdsEvent::Proceed, 15), LdsRequest::Look));
    // A quiet line is fed zero once the interval is over.
    run.step(&mut group, LdsEvent::Looked { shutdown: false, running: true }, 60_000_000);
    assert_eq!(feed(run.step(&mut group, LdsEvent::Polled(Ok(false)), 60_000_001)), 0);
    assert!(matches!(run.step(&mut group, LdsEvent::Fed(Ok(())), 61_000_000), LdsRequest::Look));
    let end = run.step(&mut group, LdsEvent::Looked { shutdown: true, running: true }, 62_000_000);
    assert!(matches!(end, LdsRequest::Finish(Ok(()))));
    assert_eq!(run.phase, LdsPhase::Closed);
}

fn wire_packet(index: u8) -> Vec<u8> {
    let mut raw = CAPTURED;
    raw[1] = index;
    let checksum = packet_checksum(&raw).to_le_bytes();
    raw[20] = checksum[0];
    raw[21] = checksum[1];
    raw.to_vec()
}

fn scan_after(packets: u8) -> bool {
    let mut group = SensorGroupData::new("lidar");
    let (mut run, _) = LdsRun::begin(0);
    let mut bytes = Vec::new();
    for index in INDEX_MIN..INDEX_MIN + packets {
        bytes.extend(wire_packet(index));
    }
    bytes.extend(wire_packet(INDEX_MIN));
    run.step(&mut group, LdsEvent::Looked { shutdown: false, running: false }, 1);
    run.step(&mut group, LdsEvent::Polled(Ok(true)), 2);
    run.step(&mut group, LdsEvent::Received(Ok(bytes)), 3);
    while run.phase == LdsPhase::PacketNext {
        assert!(run.has_room(0));
        run.step(&mut group, LdsEvent::Proceed, 4);
    }
    assert_eq!(group.last_update.is_some(), group.values.contains_key("scan"));
    group.values.contains_key("scan")
}

#[test]
fn only_scans_with_75_packets_are_published() {
    assert!(!scan_after(74));
    assert!(scan_after(75));
    assert!(scan_after(90));
}
