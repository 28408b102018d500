use roborock_s5max::crc::crc8;
use roborock_s5max::decoder::FrameDecoder;
use roborock_s5max::logs::BmsDiagnostic;
use roborock_s5max::logs::DockState;
use roborock_s5max::logs::SensorSummary;
use roborock_s5max::logs::WarningCounters;
use roborock_s5max::logs::WheelPidDiagnostic;
use roborock_s5max::packet::BRUSH_REPORT_MESSAGE;
use roborock_s5max::packet::FAN_REPORT_LENGTH;
use roborock_s5max::packet::FAN_REPORT_MESSAGE;
use roborock_s5max::packet::Frame;
use roborock_s5max::packet::LOG_SUBTYPE_DEBUG;
use roborock_s5max::packet::REPORT_FOOTER_MESSAGE;
use roborock_s5max::packet::STATE_BASE_LENGTH;
use roborock_s5max::packet::WHEEL_REPORT_MESSAGE;
use roborock_s5max::reports::BatteryReport;
use roborock_s5max::reports::CalibrationReport;
use roborock_s5max::reports::DockIrCodeMask;
use roborock_s5max::reports::GyroEchoReport;
use roborock_s5max::reports::MotorReport;
use roborock_s5max::reports::ReportFooter;
use roborock_s5max::reports::SystemMode;
use roborock_s5max::reports::SystemModeReport;
use roborock_s5max::reports::WallSensorReport;

const IDLE_REPORT: &str = "aa46020740d753733e9f305cbf91601f4158a08bbad00c8cba56260236a5d217bd57f3e5bca901d8bf3e000d6d3f811d0700885d07000100000000000000a820e40200000000d00200d69b";

fn bytes(hex: &str) -> Vec<u8> {
    (0..hex.len())
        .step_by(2)
        .map(|i| u8::from_str_radix(&hex[i..i + 2], 16).unwrap())
        .collect()
}

#[test]
fn decodes_split_idle_report() {
    let input = bytes(IDLE_REPORT);
    let mut decoder = FrameDecoder::new();
    assert!(decoder.push(&input[..17]).is_empty());
    let frames = decoder.push(&input[17..]);
    assert_eq!(frames.len(), 1);
    assert_eq!(frames[0].raw.len(), 75);
    assert_eq!(frames[0].payload.len(), 70);
    assert_eq!(
        (
            frames[0].escape_overhead,
            frames[0].message,
            frames[0].command
        ),
        (2, 7, 0x40)
    );
    assert!(frames[0].escape_overhead_valid());
    assert!(frames[0].crc_valid);
}

#[test]
fn crc_matches_captured_report() {
    let input = bytes(IDLE_REPORT);
    let mut decoder = FrameDecoder::new();
    let frame = decoder.push(&input).pop().unwrap();
    assert_eq!(crc8(&frame.payload, 0), frame.crc);
    assert!(frame.crc_valid);
}

#[test]
fn recovers_after_a_corrupt_frame() {
    let valid = bytes(IDLE_REPORT);
    let mut corrupt = valid.clone();
    let last = corrupt.len() - 1;
    corrupt[last] ^= 1;
    corrupt.extend_from_slice(&valid);

    let frames = FrameDecoder::new().push(&corrupt);
    assert_eq!(frames.len(), 2);
    assert!(!frames[0].crc_valid);
    assert!(frames[1].crc_valid);
    assert_eq!(frames[1].raw, valid);
}

#[test]
fn classifies_bms_log_separately() {
    let input = bytes(
        "aa3100f981626d733a6364304420303832342d3420363930372d343634322d39362031363339302d3734302d34332d34320d0a5eaa",
    );
    let mut decoder = FrameDecoder::new();
    let frame = decoder.push(&input).pop().unwrap();
    assert!(frame.is_log);
    assert!(!frame.crc_valid);
    assert!(!frame.is_state_report());
}

#[test]
fn classifies_debug_subtype_as_text_log() {
    let input = bytes(
        "aa2400f9807069645f736574706172616d3a31382e30302c313333302e30302c312e30300d0a5eaa",
    );
    let mut decoder = FrameDecoder::new();
    let frame = decoder.push(&input).pop().unwrap();
    assert!(frame.is_log);
    assert_eq!(frame.log_subtype(), Some(LOG_SUBTYPE_DEBUG));
    assert_eq!(
        frame.log_text(),
        Some(&b"pid_setparam:18.00,1330.00,1.00\r\n"[..])
    );
}

#[test]
fn decodes_dock_state_log() {
    let input = bytes("aa1500f981446f636b5374613a332c4348415247450d0a5eaa");
    let mut decoder = FrameDecoder::new();
    let frame = decoder.push(&input).pop().unwrap();
    assert_eq!(frame.dock_state(), Some(DockState::Charge));
}

#[test]
fn decodes_warning_counters() {
    let input = bytes("aa1b00f981576865656c5761726e53756d3a382c302c302c302c300d0a5eaa");
    let mut decoder = FrameDecoder::new();
    let frame = decoder.push(&input).pop().unwrap();
    assert_eq!(
        frame.warning_counters(),
        Some(WarningCounters {
            wheel: Some([8, 0, 0, 0, 0]),
            brush: None,
        })
    );
}

#[test]
fn decodes_bms_voltage_and_mode() {
    let voltage = bytes(
        "aa2500f981626d733a7265707420525054205661647074286f6e29203d2033363138316d56210a5eaa",
    );
    let mut decoder = FrameDecoder::new();
    let frame = decoder.push(&voltage).pop().unwrap();
    assert_eq!(
        frame.bms_diagnostic(),
        Some(BmsDiagnostic::AdapterVoltageMv(36_181))
    );

    let mode = bytes("aa1800f981626d733a7374616d206d6f64655b322d3e335d0d0a5eaa");
    let frame = decoder.push(&mode).pop().unwrap();
    assert_eq!(
        frame.bms_diagnostic(),
        Some(BmsDiagnostic::ModeTransition { from: 2, to: 3 })
    );

    let battery =
        bytes("aa2300f981626d733a7265707420736f633d39392c563d31363336392c493d2d3132350d0a5eaa");
    let frame = decoder.push(&battery).pop().unwrap();
    assert_eq!(
        frame.bms_diagnostic(),
        Some(BmsDiagnostic::BatteryStatus {
            soc_percent: 99,
            voltage_mv: 16_369,
            current_ma: -125,
        })
    );
}

#[test]
fn decodes_wheel_pid_and_sensor_summary_logs() {
    let wheel = Frame {
        raw: Vec::new(),
        payload: b"\xf9\x81[PID_wheeloc,L,7765,R,6055,cnt,3,\x5e".to_vec(),
        escape_overhead: 0,
        message: 0xf9,
        command: 0x81,
        crc: 0,
        crc_valid: false,
        is_log: true,
    };
    assert_eq!(
        wheel.wheel_pid_diagnostic(),
        Some(WheelPidDiagnostic {
            left: 7765,
            right: 6055,
            count: 3,
        })
    );

    let sensors = Frame {
        raw: Vec::new(),
        payload: b"\xf9\x81Force:0 Drop:0 Bmpr:256 Dock:0 Clf:0\x5e".to_vec(),
        escape_overhead: 0,
        message: 0xf9,
        command: 0x81,
        crc: 0,
        crc_valid: false,
        is_log: true,
    };
    assert_eq!(
        sensors.sensor_summary(),
        Some(SensorSummary {
            force: 0,
            drop: 0,
            bumper: 256,
            dock: 0,
            cliff: 0,
        })
    );
}

#[test]
fn preserves_raw_wheel_report() {
    let frame = Frame {
        raw: Vec::new(),
        payload: vec![0x51, 0x08, 1, 2, 3, 4, 5, 6, 7, 8],
        escape_overhead: 1,
        message: 0x51,
        command: 0x08,
        crc: 0,
        crc_valid: true,
        is_log: false,
    };
    assert!(frame.is_wheel_report());
    assert_eq!(
        frame.wheel_report().unwrap().bytes,
        [1, 2, 3, 4, 5, 6, 7, 8]
    );
    let wheel = frame.wheel_report().unwrap();
    assert_eq!(wheel.left_current_ma(), 0x0201);
    assert_eq!(wheel.right_current_ma(), 0x0403);
    assert_eq!(wheel.left_drive_level(), 5);
    assert_eq!(wheel.right_drive_level(), 6);
    assert_eq!(wheel.left_fault(), 7);
    assert_eq!(wheel.right_fault(), 8);

    let mut state_payload = vec![0x07, 0x40];
    state_payload.resize(STATE_BASE_LENGTH, 0);
    state_payload.extend_from_slice(&[0x51, 0x08, 8, 7, 6, 5, 4, 3, 2, 1]);
    state_payload.extend_from_slice(&[0x52, 0x06, 0xff, 0xff, 0x34, 0x12, 0, 75]);
    state_payload.extend_from_slice(&[0xd0, 0x02, 0, 9]);
    let state = Frame {
        payload: state_payload,
        message: 0x07,
        command: 0x40,
        ..frame
    };
    assert_eq!(
        state.embedded_wheel_report().unwrap().bytes,
        [8, 7, 6, 5, 4, 3, 2, 1]
    );
    assert_eq!(
        state.embedded_report(FAN_REPORT_MESSAGE, FAN_REPORT_LENGTH),
        None
    );
    assert_eq!(
        state.embedded_motor_report(BRUSH_REPORT_MESSAGE),
        Some(MotorReport {
            sentinel: 0xffff,
            current_ma: 0x1234,
            fault: 0,
            speed: 75,
        })
    );
    assert_eq!(
        state.report_footer(),
        Some(ReportFooter {
            reports_pending: false,
            sequence: 9,
        })
    );
    let reports = state.embedded_reports().collect();
    assert_eq!(reports.len(), 3);
    assert_eq!(reports[0].message, WHEEL_REPORT_MESSAGE);
    assert_eq!(reports[1].message, BRUSH_REPORT_MESSAGE);
    assert_eq!(reports[2].message, REPORT_FOOTER_MESSAGE);
}

#[test]
fn decodes_confirmed_fields_from_a_moving_capture() {
    let input = bytes(
        "aa5c010740989d853d755710bf326c22416889f43bfd6b943cf8b18bbc865f753cf07d95bcf88ca2bded1e7fbfc4000000f0000000c3cfe14000000000e06e130200000000510888007400433f00005206ffff6501004b42026d00d0020015b4",
    );
    let mut decoder = FrameDecoder::new();
    let frame = decoder.push(&input).pop().unwrap();
    assert!(frame.crc_valid);
    assert!(frame.escape_overhead_valid());

    let state = frame.state_report().unwrap();
    assert_eq!(state.left_odometry_ticks, 196);
    assert_eq!(state.right_odometry_ticks, 240);
    assert_eq!(state.forward_motion, 0x40e1_cfc3);
    assert_eq!(state.reserved, 0);
    assert_eq!(state.mcu_timestamp_ms, 34_828_000);

    let wheel = frame.embedded_wheel_report().unwrap();
    assert_eq!(wheel.left_current_ma(), 136);
    assert_eq!(wheel.right_current_ma(), 116);
    assert_eq!(wheel.left_drive_level(), 67);
    assert_eq!(wheel.right_drive_level(), 63);
    assert_eq!((wheel.left_fault(), wheel.right_fault()), (0, 0));

    let brush = frame
        .embedded_motor_report(BRUSH_REPORT_MESSAGE)
        .unwrap();
    assert_eq!(brush.sentinel, 0xffff);
    assert_eq!(brush.current_ma, 357);
    assert_eq!(brush.fault, 0);
    assert_eq!(brush.speed, 75);
    assert_eq!(
        frame.wall_sensor_report(),
        Some(WallSensorReport { raw_adc: 109 })
    );
    assert_eq!(
        frame.report_footer(),
        Some(ReportFooter {
            reports_pending: false,
            sequence: 0x15,
        })
    );
}

#[test]
fn decodes_battery_report_from_captured_bms_values() {
    let input = bytes("aa1001080a06407300610000000000d002012776");
    let mut decoder = FrameDecoder::new();
    let frame = decoder.push(&input).pop().unwrap();
    assert!(frame.crc_valid);
    assert_eq!(
        frame.battery_report(),
        Some(BatteryReport {
            voltage_mv: 16_390,
            current_ma: 115,
            state_of_charge_percent: 97,
            reserved: [0; 5],
        })
    );
}

#[test]
fn decodes_dock_ir_receiver_masks_from_clocked_capture() {
    let input = bytes(
        "aa62010740bff0f33e6ce4ffbe83071b416889f43b0f5b07bdd8ba2fbfcd649fbcaedd803c484274bf0fbe983ec77c0400470505007de5c73e000000007437920300000000510817000300190400005206ffffb001004a42021b00130418001000d00200d077",
    );
    let mut decoder = FrameDecoder::new();
    let frame = decoder.push(&input).pop().unwrap();
    assert!(frame.crc_valid);
    let report = frame.dock_ir_report().unwrap();
    assert_eq!(report.left_receiver, DockIrCodeMask(0x18));
    assert_eq!(report.right_receiver, DockIrCodeMask(0x10));
    assert_eq!((report.reserved_byte_1, report.reserved_byte_3), (0, 0));
    assert!(report.left_receiver.code_88());
    assert!(report.left_receiver.majority_pattern());
    assert!(!report.left_receiver.beacon_left());
    assert!(!report.left_receiver.beacon_right());
}

#[test]
fn decodes_gyro_echo_token_and_escaped_token() {
    let mut decoder = FrameDecoder::new();
    let frame = decoder
        .push(&bytes("aa0701d1016ad002001603"))
        .pop()
        .unwrap();
    assert_eq!(
        frame.gyro_echo_report(),
        Some(GyroEchoReport { token: 0x6a })
    );

    let frame = decoder
        .push(&bytes("aa0702d101a900d002005a8a"))
        .pop()
        .unwrap();
    assert!(frame.crc_valid);
    assert_eq!(
        frame.gyro_echo_report(),
        Some(GyroEchoReport { token: 0xa9 })
    );
}

#[test]
fn decodes_static_analysis_reports_without_guessing_opaque_fields() {
    let mut payload = Vec::new();
    payload.extend_from_slice(&[0x02, 8, b's', b'y', b's', b'_', b'm', b'd', 0, 0x08]);
    payload.extend_from_slice(&[0x04, 4, 0x07, 0, 0, 0]);
    payload.extend_from_slice(&[0x0b, 8, 1, 2, 3, 4, 0x78, 0x56, 0x34, 0x12]);
    payload.extend_from_slice(&[
        0x0d, 16, 3, 1, 2, 3, 4, 5, 6, 7, 8, 9, 10, 11, 12, 13, 14, 15,
    ]);
    payload.extend_from_slice(&[0x0f, 2, 0x34, 0x12]);
    payload.extend_from_slice(&[0x16, 2, 52, 0xaa]);
    payload.extend_from_slice(&[0xd2, 8, 1, 2, 3, 4, 5, 6, 7, 8]);

    let mut calibration = vec![0xd5, 28];
    calibration.extend_from_slice(&[1, 0, 2, 0, 3, 0, 4, 0]);
    calibration.extend_from_slice(&[5, 6, 7, 8]);
    calibration.extend_from_slice(&1.5_f32.to_le_bytes());
    calibration.extend_from_slice(&(-1_i32).to_le_bytes());
    calibration.extend_from_slice(&2_i32.to_le_bytes());
    calibration.extend_from_slice(&(-3_i32).to_le_bytes());
    payload.extend_from_slice(&calibration);

    payload.extend_from_slice(&[0xf1, 16, 1, 0, 0, 0, 2, 0, 0, 0, 3, 0, 0, 0, 0, 0, 0, 0]);
    payload.extend_from_slice(&[0xf6, 4, b'o', b'k', 0, 0]);

    let frame = Frame {
        raw: Vec::new(),
        message: 0x02,
        command: 8,
        payload,
        escape_overhead: 1,
        crc: 0,
        crc_valid: true,
        is_log: false,
    };

    assert_eq!(
        frame.system_mode_report(),
        Some(SystemModeReport {
            mode: SystemMode::EnergyEfficiency,
        })
    );
    let error = frame.internal_error_report().unwrap();
    assert!(error.test_info_invalid());
    assert!(error.gyro_probe_failed());
    assert!(error.bms_communication_failed());
    assert_eq!(error.compatibility_bits(), 0);
    assert_eq!(frame.black_box_report().unwrap().value, 0x1234_5678);
    assert_eq!(frame.device_info_report().unwrap().record_type(), 3);
    assert_eq!(frame.dock_voltage_report().unwrap().millivolts, 0x1234);
    assert_eq!(
        frame
            .battery_capacity_report()
            .unwrap()
            .stock_scaled_value(),
        5200
    );
    assert_eq!(
        frame.mcu_time_report().unwrap().timestamp,
        0x0807_0605_0403_0201
    );
    assert_eq!(
        frame.calibration_report(),
        Some(CalibrationReport {
            cliff_thresholds: [1, 2, 3, 4],
            wall_sensor_one_point: [5, 6, 7, 8],
            bmi160_sensitivity: 1.5_f32.to_bits(),
            bmi160_accel_offsets: [-1, 2, -3],
        })
    );
    assert_eq!(frame.mcu_identity_report().unwrap().chip_signature, 3);
    assert_eq!(frame.status_string_report(), Some(&b"ok"[..]));
}

fn log_frame(text: &[u8]) -> Frame {
    let mut payload = vec![0xf9, 0x81];
    payload.extend_from_slice(text);
    payload.push(0x5e);
    Frame {
        raw: Vec::new(),
        payload,
        escape_overhead: 0,
        message: 0xf9,
        command: 0x81,
        crc: 0,
        crc_valid: false,
        is_log: true,
    }
}

#[test]
fn reads_every_kind_of_log() {
    assert_eq!(log_frame(b"DockSta:1,CONNECT\r\n").dock_state(), Some(DockState::Connect));
    assert_eq!(log_frame(b"DockSta:2,SUPPLY\r\n").dock_state(), Some(DockState::Supply));
    assert_eq!(log_frame(b"DockSta:4,DISCHARGE").dock_state(), Some(DockState::Discharge));
    assert_eq!(log_frame(b"DockSta:5,OTHER").dock_state(), None);
    assert_eq!(
        log_frame(b"BrushWarnSum:1,2,3\r\n").warning_counters(),
        Some(WarningCounters {
            wheel: None,
            brush: Some([1, 2, 3]),
        })
    );
    assert_eq!(log_frame(b"BrushWarnSum:1,2\r\n").warning_counters(), None);
    assert_eq!(log_frame(b"WheelWarnSum:1,2,3,4,5,6\r\n").warning_counters(), None);
    assert_eq!(
        log_frame(b"bms:chkt, bat temp: 31c\r\n").bms_diagnostic(),
        Some(BmsDiagnostic::BatteryTemperatureC(31))
    );
    assert_eq!(log_frame(b"bms:stam mode[2-3]\r\n").bms_diagnostic(), None);
    assert_eq!(log_frame(b"[PID_wheeloc,L,7765,R,x,cnt,3,").wheel_pid_diagnostic(), None);
    assert_eq!(log_frame(b"Force:0 Drop:-1 Bmpr:0 Dock:0 Clf:0").sensor_summary(), None);
}

#[test]
fn frames_decode_alike_in_pieces() {
    let input = bytes(IDLE_REPORT);
    let mut wire = vec![0x55, 0x00];
    wire.extend(&input);
    wire.extend(&input[..20]);
    wire.extend(&input);
    let mut whole = FrameDecoder::new();
    let expected = whole.push(&wire);
    assert!(!expected.is_empty());
    for cut in 0..=wire.len() {
        let mut decoder = FrameDecoder::new();
        let mut frames = decoder.push(&wire[..cut]);
        frames.extend(decoder.push(&wire[cut..]));
        assert_eq!(frames, expected);
    }
}

#[test]
fn report_lists_stop_at_a_cut_report() {
    let frame = Frame {
        raw: Vec::new(),
        payload: vec![0x20, 2, 1, 0, 0x24, 2, 7],
        escape_overhead: 0,
        message: 0x20,
        command: 2,
        crc: 0,
        crc_valid: true,
        is_log: false,
    };
    assert_eq!(frame.reports().collect().len(), 1);
    assert_eq!(frame.embedded_report(0x20, 2), Some(&[1u8, 0][..]));
    assert_eq!(frame.embedded_report(0x20, 3), None);
    assert!(frame.report(0x24).is_none());
    assert_eq!(frame.log_text(), None);
    assert_eq!(frame.log_subtype(), None);
}

#[test]
fn unknown_reports_stay_available() {
    let reports: [(u8, &[u8]); 4] = [(0x54, &[1, 2, 3]), (0x99, &[]), (0x20, &[7]), (0x99, &[0xaa])];
    let mut payload = Vec::new();
    for (message, data) in reports {
        payload.push(message);
        payload.push(data.len() as u8);
        payload.extend_from_slice(data);
    }
    let frame = Frame {
        raw: Vec::new(),
        payload,
        escape_overhead: 1,
        message: 0x54,
        command: 3,
        crc: 0,
        crc_valid: true,
        is_log: false,
    };
    let found: Vec<(u8, &[u8])> =
        frame.reports().collect().iter().map(|report| (report.message, report.data)).collect();
    assert_eq!(found, reports);
    assert_eq!(frame.report(0x99).unwrap().data, &[] as &[u8]);
    assert_eq!(frame.embedded_report(0x99, 1), Some(&[0xaa_u8][..]));
}

#[test]
fn the_checksum_notices_one_changed_byte() {
    let whole = [0x07u8, 0x40, 0x00, 0xa9, 0xff];
    let crc = crc8(&whole, 0);
    for at in 0..whole.len() {
        for flip in 1..=255u8 {
            let mut changed = whole;
            changed[at] ^= flip;
            assert_ne!(crc8(&changed, 0), crc);
        }
    }
    assert_eq!(crc8(&whole[2..], crc8(&whole[..2], 0)), crc);
    let mut with_crc = whole.to_vec();
    with_crc.push(crc);
    assert_eq!(crc8(&with_crc, 0), 0);
}
