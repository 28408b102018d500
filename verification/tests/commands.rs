use roborock_s5max::commands::acknowledgement_frame;
use roborock_s5max::commands::charger_command_frame;
use roborock_s5max::commands::command_frame;
use roborock_s5max::commands::current_errors_query_frame;
use roborock_s5max::commands::device_info_query_frame;
use roborock_s5max::commands::fan_command_frame;
use roborock_s5max::commands::heartbeat_frame;
use roborock_s5max::commands::main_brush_command_frame;
use roborock_s5max::commands::mcu_version_query_frame;
use roborock_s5max::commands::next_tx_sequence;
use roborock_s5max::commands::sensor_sync_query_frame;
use roborock_s5max::commands::side_brush_command_frame;
use roborock_s5max::commands::subsystem_state_frame;
use roborock_s5max::commands::system_mode_command_frame;
use roborock_s5max::commands::water_pump_command_frame;
use roborock_s5max::commands::wheel_command_frame;
use roborock_s5max::commands::FAN_SUBSYSTEM;
use roborock_s5max::commands::MAIN_BRUSH_SUBSYSTEM;
use roborock_s5max::commands::OPERATIONAL_SUBSYSTEMS;
use roborock_s5max::commands::SIDE_BRUSH_SUBSYSTEM;
use roborock_s5max::commands::WHEEL_ODOMETRY_SUBSYSTEM;
use roborock_s5max::crc::crc8;
use roborock_s5max::decoder::FrameDecoder;
use roborock_s5max::frame::encode_binary_frame;
use roborock_s5max::ieee::is_finite;
use roborock_s5max::ieee::is_zero;
use roborock_s5max::ieee::magnitude;

#[test]
fn sequence_skips_reserved_zero() {
    assert_eq!(next_tx_sequence(0x7e), 0x7f);
    assert_eq!(next_tx_sequence(0xff), 0x01);
}

#[test]
fn encodes_captured_queries() {
    assert_eq!(
        mcu_version_query_frame(0x7f).unwrap(),
        [0xaa, 0x06, 0x01, 0xd0, 0x02, 0x00, 0x7f, 0x80, 0x00, 0xd8]
    );
    assert_eq!(
        sensor_sync_query_frame(0x13).unwrap(),
        [0xaa, 0x06, 0x01, 0xd0, 0x02, 0x01, 0x13, 0x82, 0x00, 0xd8]
    );
}

#[test]
fn encodes_captured_ack_and_heartbeat() {
    assert_eq!(
        acknowledgement_frame(0x15, 0xd1).unwrap(),
        [0xaa, 0x07, 0x01, 0xd0, 0x02, 0x00, 0x15, 0xd1, 0x01, 0xd1, 0x03]
    );
    assert_eq!(
        heartbeat_frame(0x6a).unwrap(),
        [
            0xaa, 0x0a, 0x01, 0xd0, 0x02, 0x00, 0x6a, 0xd3, 0x04, 0x00, 0x00, 0x00, 0x00, 0x47,
        ]
    );
}

#[test]
fn encodes_captured_actuator_frames() {
    assert_eq!(
        wheel_command_frame(0xe5, 0.0f32.to_bits(), 0.0f32.to_bits(), true).unwrap(),
        [
            0xaa, 0x12, 0x01, 0xd0, 0x02, 0x00, 0xe5, 0xc0, 0x0c, 0x00, 0x00, 0x00, 0x00, 0x00,
            0x00, 0x00, 0x00, 0x01, 0x00, 0x00, 0x00, 0x0c,
        ]
    );
    assert_eq!(
        fan_command_frame(0xe6, 0).unwrap(),
        [0xaa, 0x08, 0x01, 0xd0, 0x02, 0x01, 0xe6, 0xc1, 0x02, 0x00, 0x00, 0x7d]
    );
    assert_eq!(
        main_brush_command_frame(0x39, 0, true).unwrap(),
        [0xaa, 0x08, 0x01, 0xd0, 0x02, 0x01, 0x39, 0xc3, 0x02, 0x00, 0x01, 0x15]
    );
    assert_eq!(
        side_brush_command_frame(0x3b, 0, true).unwrap(),
        [0xaa, 0x08, 0x01, 0xd0, 0x02, 0x01, 0x3b, 0xc4, 0x02, 0x00, 0x01, 0x10]
    );
}

#[test]
fn rejects_invalid_envelopes_and_wheel_values() {
    assert!(fan_command_frame(0, 0).is_err());
    assert!(wheel_command_frame(1, f32::NAN.to_bits(), 0.0f32.to_bits(), true).is_err());
    assert!(wheel_command_frame(1, 0.0f32.to_bits(), f32::INFINITY.to_bits(), true).is_err());
    assert!(command_frame(1, 0x80, false, &[0; 256]).is_err());
}

#[test]
fn encodes_zero_water_pump_stop() {
    let frame = water_pump_command_frame(0x24, 0, 0).unwrap();
    assert_eq!(&frame[3..11], &[0xd0, 0x02, 0x00, 0x24, 0xbf, 0x02, 0x00, 0x00]);
}

#[test]
fn encodes_captured_charger_transitions() {
    let disabled = charger_command_frame(0x20, false).unwrap();
    let enabled = charger_command_frame(0x21, true).unwrap();
    assert_eq!(&disabled[3..10], &[0xd0, 0x02, 0x01, 0x20, 0xb7, 0x01, 0x00]);
    assert_eq!(&enabled[3..10], &[0xd0, 0x02, 0x01, 0x21, 0xb7, 0x01, 0x01]);
}

#[test]
fn encodes_captured_normal_system_mode_transition() {
    let frame = system_mode_command_frame(0x20, 0).unwrap();
    assert_eq!(
        &frame[3..17],
        &[0xd0, 0x02, 0x00, 0x20, 0xb0, 0x08, b's', b'y', b's', b'_', b'm', b'd', 0, 0]
    );
}

#[test]
fn encodes_captured_motor_subsystem_enables() {
    assert_eq!(
        subsystem_state_frame(0x98, FAN_SUBSYSTEM, true).unwrap(),
        [
            0xaa, 0x0a, 0x01, 0xd0, 0x02, 0x01, 0x98, 0xb1, 0x04, 0x01, 0x02, 0x00, 0x00, 0x57,
        ]
    );
    assert_eq!(
        &subsystem_state_frame(0x96, MAIN_BRUSH_SUBSYSTEM, true).unwrap()[9..13],
        &[0x81, 0x00, 0x00, 0x00]
    );
    assert_eq!(
        &subsystem_state_frame(0x97, SIDE_BRUSH_SUBSYSTEM, true).unwrap()[9..13],
        &[0x01, 0x01, 0x00, 0x00]
    );
    assert_eq!(
        subsystem_state_frame(0x9a, WHEEL_ODOMETRY_SUBSYSTEM, true).unwrap(),
        [
            0xaa, 0x0a, 0x01, 0xd0, 0x02, 0x01, 0x9a, 0xb1, 0x04, 0x01, 0x04, 0x00, 0x00, 0xfc,
        ]
    );
    assert!(subsystem_state_frame(1, 0, true).is_err());
    assert!(subsystem_state_frame(1, 0x300, true).is_err());
}

#[test]
fn escapes_reserved_payload_bytes() {
    assert_eq!(
        encode_binary_frame(&[0xa9, 0xaa]).unwrap(),
        [0xaa, 0x02, 0x03, 0xa9, 0x00, 0xa9, 0x01, 0x8d]
    );
}

#[test]
fn rejects_payloads_larger_than_the_wire_length_field() {
    assert!(encode_binary_frame(&[0; 256]).is_err());
}

#[test]
fn sequence_comes_round_after_255_steps() {
    for start in 1..=255u8 {
        let mut sequence = start;
        for _ in 0..255 {
            sequence = next_tx_sequence(sequence);
            assert_ne!(sequence, 0);
        }
        assert_eq!(sequence, start);
    }
    assert_eq!(next_tx_sequence(0), 1);
}

#[test]
fn a_command_holds_at_most_249_bytes() {
    assert!(command_frame(1, 0x80, false, &[0; 249]).is_ok());
    assert!(command_frame(1, 0x80, false, &[0; 250]).is_err());
    assert_eq!(
        device_info_query_frame(0).unwrap_err(),
        current_errors_query_frame(0).unwrap_err()
    );
}

#[test]
fn commands_read_back_from_the_wire() {
    for sequence in [0x01u8, 0xa9, 0xaa, 0xff] {
        let frame = command_frame(sequence, 0xc1, true, &[0xaa, 0xa9, 0x00]).unwrap();
        let decoded = FrameDecoder::new().push(&frame);
        assert_eq!(decoded.len(), 1);
        assert!(decoded[0].crc_valid);
        assert!(decoded[0].escape_overhead_valid());
        assert_eq!(
            decoded[0].payload,
            [0xd0, 0x02, 0x01, sequence, 0xc1, 0x03, 0xaa, 0xa9, 0x00]
        );
    }
}

#[test]
fn every_short_payload_survives_the_wire() {
    for first in 0..=255u8 {
        for second in [0x00u8, 0x01, 0xa8, 0xa9, 0xaa, 0xab] {
            let payload = [first, 0x05, second, first];
            let mut wire = vec![0x13, 0x37];
            wire.extend(encode_binary_frame(&payload).unwrap());
            let frames = FrameDecoder::new().push(&wire);
            assert_eq!(frames.len(), 1);
            assert_eq!(frames[0].payload, payload);
            assert_eq!(frames[0].crc, crc8(&payload, 0));
            assert_eq!(frames[0].crc_valid, !frames[0].is_log);
        }
    }
}

#[test]
fn the_stock_transition_names_fourteen_subsystems() {
    assert_eq!(OPERATIONAL_SUBSYSTEMS.len(), 14);
    for selector in OPERATIONAL_SUBSYSTEMS {
        let on = subsystem_state_frame(0x11, selector, true).unwrap();
        let off = subsystem_state_frame(0x11, selector, false).unwrap();
        assert_eq!(on[9] - off[9], 1);
    }
}

#[test]
fn bit_patterns_tell_numbers_apart() {
    for value in [0.0f32, -0.0, 1.5, -1.5, f32::MAX, f32::MIN_POSITIVE] {
        assert!(is_finite(value.to_bits()));
        assert_eq!(is_zero(value.to_bits()), value == 0.0);
        assert_eq!(magnitude(value.to_bits()), value.abs().to_bits());
    }
    for value in [f32::NAN, f32::INFINITY, f32::NEG_INFINITY] {
        assert!(!is_finite(value.to_bits()));
        assert!(!is_zero(value.to_bits()));
    }
}
