use roborock_s5max::decoder::FrameDecoder;
use roborock_s5max::groups::NamedValues;
use roborock_s5max::groups::SensorGroupData;
use roborock_s5max::groups::SensorValue;
use roborock_s5max::packet::Frame;
use roborock_s5max::reports::SystemMode;
use roborock_s5max::sensors::little_u16;
use roborock_s5max::sensors::SensorGroups;

fn report_frame(payload: Vec<u8>) -> Frame {
    Frame {
        raw: Vec::new(),
        payload,
        escape_overhead: 0,
        message: 0x0b,
        command: 0x08,
        crc: 0,
        crc_valid: true,
        is_log: false,
    }
}

fn bool_value(value: Option<&SensorValue>) -> bool {
    let Some(SensorValue::Bool(value)) = value else {
        panic!("expected boolean sensor value");
    };
    *value
}

fn f32_value(value: Option<&SensorValue>) -> f32 {
    match value {
        Some(SensorValue::F32(bits)) => f32::from_bits(*bits),
        Some(SensorValue::Thousandths(number)) => f32::from(*number) / 1000.0,
        _ => panic!("expected a number"),
    }
}

fn new_groups() -> SensorGroups {
    SensorGroups::create(0.798f32.to_bits(), 0.229f32.to_bits(), 261.2f32.to_bits(), 1)
}

#[test]
fn publishes_calibration_metadata() {
    let groups = new_groups();
    let data = &groups.device_version;
    assert!((f32_value(data.values.get("wheel_mm_per_tick")) - 0.798).abs() < f32::EPSILON);
    assert!((f32_value(data.values.get("wheel_track_m")) - 0.229).abs() < f32::EPSILON);
    assert!((f32_value(data.values.get("lds_forward_angle_deg")) - 261.2).abs() < f32::EPSILON);
}

#[test]
fn maps_stock_attachment_presence_bits_without_inventing_mop_detection() {
    let mut groups = new_groups();
    groups.process_mcu_frame(
        &report_frame(vec![
            0x24, 0x02, 0x00, 0x00, // dustbin present: bit 0 clear
            0x26, 0x02, 0x00, 0x00, // water box present: bit 1 clear
        ]),
        2,
    );
    {
        let data = &groups.attachments;
        assert!(bool_value(data.values.get("dustbin_attached")));
        assert!(bool_value(data.values.get("water_box_attached")));
        assert!(!bool_value(data.values.get("mop_detection_supported")));
        assert!(!data.values.contains_key("mop_attached"));
    }

    groups.process_mcu_frame(
        &report_frame(vec![
            0x24, 0x02, 0x01, 0x00, // dustbin absent: bit 0 set
            0x26, 0x02, 0x02, 0x00, // water box absent: bit 1 set
        ]),
        3,
    );
    let data = &groups.attachments;
    assert!(!bool_value(data.values.get("dustbin_attached")));
    assert!(!bool_value(data.values.get("water_box_attached")));
}

#[test]
fn labels_bms_current_as_unsigned_magnitude() {
    let input = (0.."aa1001080a06407300610000000000d002012776".len())
        .step_by(2)
        .map(|index| {
            u8::from_str_radix(
                &"aa1001080a06407300610000000000d002012776"[index..index + 2],
                16,
            )
            .unwrap()
        })
        .collect::<Vec<_>>();
    let frame = FrameDecoder::new().push(&input).pop().unwrap();
    let mut groups = new_groups();
    groups.process_mcu_frame(&frame, 2);
    let data = &groups.power_status;
    assert!((f32_value(data.values.get("battery_current_magnitude_a")) - 0.115).abs() < f32::EPSILON);
    assert!(!data.values.contains_key("battery_current_a"));
}

#[test]
fn untouched_groups_stay_untouched() {
    let mut groups = new_groups();
    groups.process_mcu_frame(&report_frame(vec![0x20, 2, 1, 0]), 9);
    assert_eq!(groups.dock_state(), 1);
    assert!(bool_value(groups.power_status.values.get("is_charging")));
    assert_eq!(groups.power_status.last_update, Some(9));
    assert_eq!(groups.motor_status.last_update, None);
    assert_eq!(groups.errors.last_update, None);
    assert_eq!(groups.dock_ir.last_update, None);
    groups.process_mcu_frame(&report_frame(vec![0x20, 2, 0, 0]), 10);
    assert_eq!(groups.dock_state(), 0);
    assert!(!bool_value(groups.power_status.values.get("dock_connected")));
}

#[test]
fn version_texts_are_read_only_where_they_are_text() {
    let mut groups = new_groups();
    let mut payload = vec![0x01, 8];
    payload.extend("v1.2 \u{e9}\0".as_bytes());
    groups.process_mcu_frame(&report_frame(payload), 4);
    assert_eq!(
        groups.device_version.values.get("mcu_version"),
        Some(&SensorValue::Text("v1.2 \u{e9}".to_string()))
    );
    assert_eq!(groups.device_version.last_update, Some(4));

    let mut other = new_groups();
    other.process_mcu_frame(&report_frame(vec![0x01, 2, 0xff, 0xfe]), 4);
    assert_eq!(other.device_version.values.get("mcu_version"), None);
    assert_eq!(other.device_version.last_update, Some(1));
}

#[test]
fn named_values_keep_one_value_for_each_name() {
    let mut values = NamedValues::new();
    values.set("a", SensorValue::U8(1));
    values.set("b", SensorValue::U8(2));
    values.set("a", SensorValue::U8(3));
    assert_eq!(values.get("a"), Some(&SensorValue::U8(3)));
    assert_eq!(values.get("b"), Some(&SensorValue::U8(2)));
    assert_eq!(values.get("c"), None);
    assert_eq!(values.names().len(), 2);
    assert_eq!(values.copy(), values);
    let mut group = SensorGroupData::new("group");
    group.set("x", SensorValue::Bytes(vec![1, 2]));
    group.touch(5);
    assert_eq!(group.snapshot(), group);
}

#[test]
fn two_bytes_make_a_number() {
    assert_eq!(little_u16(&[0x34, 0x12]), Some(0x1234));
    assert_eq!(little_u16(&[0x34]), None);
}

#[test]
fn system_modes_have_names() {
    assert_eq!(SystemMode::from_wire(8), SystemMode::EnergyEfficiency);
    assert_eq!(SystemMode::from_wire(8).describe(), "EnergyEfficiency");
    assert_eq!(SystemMode::from_wire(0xee).describe(), "Unknown(238)");
}

#[test]
fn new_groups_have_no_update_time() {
    let groups = new_groups();
    for group in [
        &groups.sensor_status,
        &groups.power_status,
        &groups.attachments,
        &groups.motor_status,
        &groups.errors,
        &groups.dock_ir,
        &groups.lidar,
    ] {
        assert_eq!(group.last_update, None);
        assert!(group.values.names().is_empty());
    }
    assert_eq!(groups.device_version.last_update, Some(1));
}
