//! From S5 Max wire reports to sensor groups.

use crate::bytes;
use crate::bytes::find_byte;
use crate::bytes::read_u16;
use crate::groups::SensorGroupData;
use crate::groups::SensorValue;
use crate::groups::SensorValueView;
use crate::packet;
use crate::packet::Frame;
use crate::packet::FrameView;
use crate::packet::BRUSH_REPORT_MESSAGE;
use crate::packet::FAN_REPORT_MESSAGE;
use crate::packet::SWEEP_REPORT_MESSAGE;
use crate::reports;
use crate::reports::MotorReport;
use crate::reports::StateReport;
use crate::reports::SystemMode;
use crate::reports::WheelReport;
use crate::text;
use crate::text::decimal_text;
use crate::text::join3;
use vstd::prelude::*;
use vstd::utf8::*;

verus! {

pub const KEY_REPORT: u8 = 0x06;

pub const PUMP_ERROR_REPORT: u8 = 0x18;

pub const DOCK_REPORT: u8 = 0x20;

pub const BUMPER_REPORT: u8 = 0x21;

pub const DROP_REPORT: u8 = 0x22;

pub const CLIFF_REPORT: u8 = 0x23;

pub const DUSTBIN_REPORT: u8 = 0x24;

pub const LDS_COVER_REPORT: u8 = 0x25;

pub const WATER_BOX_REPORT: u8 = 0x26;

pub const MCU_VERSION_REPORT: u8 = 0x01;

/// The 16-bit number that starts the data of the first report about `message`.
pub open spec fn number_reported(f: FrameView, message: u8) -> Option<u16> {
    match packet::first_report(f.reports(), message) {
        Some(r) => if r.data.len() >= 2 {
            Some(reports::field(r.data, 0, 2) as u16)
        } else {
            None
        },
        None => None,
    }
}

/// `values` with `name` set to a 16-bit number, where there is one.
pub open spec fn with_number(
    values: Map<Seq<char>, SensorValueView>,
    name: Seq<char>,
    number: Option<u16>,
) -> Map<Seq<char>, SensorValueView> {
    match number {
        Some(n) => values.insert(name, SensorValueView::U16(n)),
        None => values,
    }
}

/// The discrete sensors of the status group.
pub open spec fn with_discrete(
    values: Map<Seq<char>, SensorValueView>,
    f: FrameView,
) -> Map<Seq<char>, SensorValueView> {
    let v1 = with_number(values, "buttons_raw"@, number_reported(f, KEY_REPORT));
    let v2 = with_number(v1, "bumper_raw"@, number_reported(f, BUMPER_REPORT));
    let v3 = with_number(v2, "drop_raw"@, number_reported(f, DROP_REPORT));
    let v4 = with_number(v3, "cliff_raw"@, number_reported(f, CLIFF_REPORT));
    with_number(v4, "lds_cover_bumper_raw"@, number_reported(f, LDS_COVER_REPORT))
}

/// The frame reports one of the discrete sensors.
pub open spec fn reports_discrete(f: FrameView) -> bool {
    ||| number_reported(f, KEY_REPORT) is Some
    ||| number_reported(f, BUMPER_REPORT) is Some
    ||| number_reported(f, DROP_REPORT) is Some
    ||| number_reported(f, CLIFF_REPORT) is Some
    ||| number_reported(f, LDS_COVER_REPORT) is Some
}

/// The attachments. Bit 0 of the dustbin word and bit 1 of the water-box word are
/// clear while the part is present; there is no mop sensor.
pub open spec fn with_attachments(
    values: Map<Seq<char>, SensorValueView>,
    f: FrameView,
) -> Map<Seq<char>, SensorValueView> {
    let v1 = match number_reported(f, DUSTBIN_REPORT) {
        Some(n) => values.insert("dustbin_raw"@, SensorValueView::U16(n)).insert(
            "dustbin_attached"@,
            SensorValueView::Bool(n % 2 == 0),
        ),
        None => values,
    };
    match number_reported(f, WATER_BOX_REPORT) {
        Some(n) => v1.insert("water_box_raw"@, SensorValueView::U16(n)).insert(
            "water_box_attached"@,
            SensorValueView::Bool(n / 2 % 2 == 0),
        ).insert("water_box_presence_bit"@, SensorValueView::U8((n / 2 % 2) as u8)).insert(
            "mop_detection_supported"@,
            SensorValueView::Bool(false),
        ),
        None => v1,
    }
}

/// The frame reports an attachment.
pub open spec fn reports_attachments(f: FrameView) -> bool {
    number_reported(f, DUSTBIN_REPORT) is Some || number_reported(f, WATER_BOX_REPORT) is Some
}

/// The data of a battery report.
pub open spec fn battery_data(f: FrameView) -> Option<Seq<u8>> {
    f.report_data(packet::BATTERY_REPORT_MESSAGE, packet::BATTERY_REPORT_LENGTH)
}

/// The data of a dock-voltage report.
pub open spec fn dock_voltage_data(f: FrameView) -> Option<Seq<u8>> {
    f.report_data(packet::DOCK_VOLTAGE_REPORT_MESSAGE, packet::DOCK_VOLTAGE_REPORT_LENGTH)
}

/// The data of a battery-capacity report.
pub open spec fn capacity_data(f: FrameView) -> Option<Seq<u8>> {
    f.report_data(packet::BATTERY_CAPACITY_REPORT_MESSAGE, packet::BATTERY_CAPACITY_REPORT_LENGTH)
}

/// Battery and dock. The current is a magnitude without a sign.
pub open spec fn with_power(
    values: Map<Seq<char>, SensorValueView>,
    f: FrameView,
) -> Map<Seq<char>, SensorValueView> {
    let v1 = match battery_data(f) {
        Some(d) => values.insert(
            "battery_voltage_v"@,
            SensorValueView::Thousandths(reports::field(d, 0, 2) as u16),
        ).insert(
            "battery_current_magnitude_a"@,
            SensorValueView::Thousandths(reports::field(d, 2, 4) as u16),
        ).insert("battery_level_percent"@, SensorValueView::U8(d[4])),
        None => values,
    };
    let v2 = match number_reported(f, DOCK_REPORT) {
        Some(n) => v1.insert("dock_state_raw"@, SensorValueView::U16(n)).insert(
            "dock_connected"@,
            SensorValueView::Bool(n != 0),
        ).insert("is_charging"@, SensorValueView::Bool(n == 1)),
        None => v1,
    };
    let v3 = match dock_voltage_data(f) {
        Some(d) => v2.insert(
            "dock_voltage_v"@,
            SensorValueView::Thousandths(reports::field(d, 0, 2) as u16),
        ),
        None => v2,
    };
    match capacity_data(f) {
        Some(d) => v3.insert("battery_capacity_mah"@, SensorValueView::U16((d[0] * 100) as u16)),
        None => v3,
    }
}

/// The frame reports on battery or dock.
pub open spec fn reports_power(f: FrameView) -> bool {
    ||| battery_data(f) is Some
    ||| number_reported(f, DOCK_REPORT) is Some
    ||| dock_voltage_data(f) is Some
    ||| capacity_data(f) is Some
}

/// The eight bytes of the wheel report: the frame itself is one, or holds one.
pub open spec fn wheel_data(f: FrameView) -> Option<Seq<u8>> {
    if f.message == packet::WHEEL_REPORT_MESSAGE && f.command == packet::WHEEL_REPORT_LENGTH
        && f.payload.len() >= 10 {
        Some(f.payload.subrange(2, 10))
    } else {
        f.report_data(packet::WHEEL_REPORT_MESSAGE, packet::WHEEL_REPORT_LENGTH)
    }
}

/// The data of a motor report.
pub open spec fn motor_data(f: FrameView, message: u8) -> Option<Seq<u8>> {
    match reports::motor_report_length(message) {
        Some(length) => f.report_data(message, length),
        None => None,
    }
}

/// The three values of one cleaning motor, named after it.
pub open spec fn with_motor(
    values: Map<Seq<char>, SensorValueView>,
    current_name: Seq<char>,
    speed_name: Seq<char>,
    fault_name: Seq<char>,
    data: Option<Seq<u8>>,
) -> Map<Seq<char>, SensorValueView> {
    match data {
        Some(d) => values.insert(
            current_name,
            SensorValueView::U16(reports::field(d, 2, 4) as u16),
        ).insert(speed_name, SensorValueView::U8(d[5])).insert(
            fault_name,
            SensorValueView::U8(d[4]),
        ),
        None => values,
    }
}

/// Wheels and cleaning motors.
pub open spec fn with_motors(
    values: Map<Seq<char>, SensorValueView>,
    f: FrameView,
) -> Map<Seq<char>, SensorValueView> {
    let v1 = match wheel_data(f) {
        Some(d) => values.insert(
            "wheel_left_current_ma"@,
            SensorValueView::U16(reports::field(d, 0, 2) as u16),
        ).insert(
            "wheel_right_current_ma"@,
            SensorValueView::U16(reports::field(d, 2, 4) as u16),
        ).insert(
            "wheel_left_drive_level"@,
            SensorValueView::I8(bytes::signed8(d[4] as int) as i8),
        ).insert(
            "wheel_right_drive_level"@,
            SensorValueView::I8(bytes::signed8(d[5] as int) as i8),
        ).insert("wheel_left_fault"@, SensorValueView::U8(d[6])).insert(
            "wheel_right_fault"@,
            SensorValueView::U8(d[7]),
        ),
        None => values,
    };
    let v2 = with_motor(
        v1,
        "fan_current_ma"@,
        "fan_speed_raw"@,
        "fan_fault"@,
        motor_data(f, FAN_REPORT_MESSAGE),
    );
    let v3 = with_motor(
        v2,
        "main_brush_current_ma"@,
        "main_brush_speed_raw"@,
        "main_brush_fault"@,
        motor_data(f, BRUSH_REPORT_MESSAGE),
    );
    with_motor(
        v3,
        "side_brush_current_ma"@,
        "side_brush_speed_raw"@,
        "side_brush_fault"@,
        motor_data(f, SWEEP_REPORT_MESSAGE),
    )
}

/// The frame reports on a motor.
pub open spec fn reports_motors(f: FrameView) -> bool {
    ||| wheel_data(f) is Some
    ||| motor_data(f, FAN_REPORT_MESSAGE) is Some
    ||| motor_data(f, BRUSH_REPORT_MESSAGE) is Some
    ||| motor_data(f, SWEEP_REPORT_MESSAGE) is Some
}

/// The internal error word.
pub open spec fn internal_error_word(f: FrameView) -> Option<u32> {
    match f.report_data(
        packet::INTERNAL_ERROR_REPORT_MESSAGE,
        packet::INTERNAL_ERROR_REPORT_LENGTH,
    ) {
        Some(d) => Some(reports::field(d, 0, 4) as u32),
        None => None,
    }
}

/// Internal errors and water-pump faults.
pub open spec fn with_errors(
    values: Map<Seq<char>, SensorValueView>,
    f: FrameView,
) -> Map<Seq<char>, SensorValueView> {
    let v1 = match internal_error_word(f) {
        Some(raw) => values.insert("internal_raw"@, SensorValueView::U32(raw)).insert(
            "test_info_invalid"@,
            SensorValueView::Bool(reports::bit(raw as int, 0)),
        ).insert("gyro_probe_failed"@, SensorValueView::Bool(reports::bit(raw as int, 1))).insert(
            "bms_communication_failed"@,
            SensorValueView::Bool(reports::bit(raw as int, 2)),
        ),
        None => values,
    };
    match packet::first_report(f.reports(), PUMP_ERROR_REPORT) {
        Some(r) => v1.insert("water_pump_error_raw"@, SensorValueView::Bytes(r.data)),
        None => v1,
    }
}

/// The frame reports errors.
pub open spec fn reports_errors(f: FrameView) -> bool {
    internal_error_word(f) is Some || packet::first_report(f.reports(), PUMP_ERROR_REPORT) is Some
}

/// The data of a dock-IR report.
pub open spec fn dock_ir_data(f: FrameView) -> Option<Seq<u8>> {
    f.report_data(packet::DOCK_IR_REPORT_MESSAGE, packet::DOCK_IR_REPORT_LENGTH)
}

/// The beacon classes that the two dock receivers see.
pub open spec fn with_dock_ir(values: Map<Seq<char>, SensorValueView>, d: Seq<u8>) -> Map<
    Seq<char>,
    SensorValueView,
> {
    let left = d[0] as int;
    let right = d[2] as int;
    values.insert("left_mask"@, SensorValueView::U8(d[0])).insert(
        "right_mask"@,
        SensorValueView::U8(d[2]),
    ).insert("left_far_left"@, SensorValueView::Bool(reports::bit(left, 0))).insert(
        "left_far_right"@,
        SensorValueView::Bool(reports::bit(left, 1)),
    ).insert("left_close_left"@, SensorValueView::Bool(reports::bit(left, 2))).insert(
        "left_close_right"@,
        SensorValueView::Bool(reports::bit(left, 3)),
    ).insert("left_common"@, SensorValueView::Bool(reports::bit(left, 4))).insert(
        "right_far_left"@,
        SensorValueView::Bool(reports::bit(right, 0)),
    ).insert("right_far_right"@, SensorValueView::Bool(reports::bit(right, 1))).insert(
        "right_close_left"@,
        SensorValueView::Bool(reports::bit(right, 2)),
    ).insert("right_close_right"@, SensorValueView::Bool(reports::bit(right, 3))).insert(
        "right_common"@,
        SensorValueView::Bool(reports::bit(right, 4)),
    )
}

/// The bytes of a text field, up to its NUL where it has one.
pub open spec fn up_to_nul(d: Seq<u8>) -> Seq<u8> {
    match bytes::first_byte(d, 0) {
        Some(nul) => d.take(nul),
        None => d,
    }
}

/// The MCU version text, where the report holds valid UTF-8.
pub open spec fn version_text(f: FrameView) -> Option<Seq<char>> {
    match packet::first_report(f.reports(), MCU_VERSION_REPORT) {
        Some(r) => if valid_utf8(up_to_nul(r.data)) {
            Some(decode_utf8(up_to_nul(r.data)))
        } else {
            None
        },
        None => None,
    }
}

/// The mode byte of a system-mode report.
pub open spec fn mode_byte(f: FrameView) -> Option<u8> {
    match f.report_data(packet::SYSTEM_MODE_REPORT_MESSAGE, packet::SYSTEM_MODE_REPORT_LENGTH) {
        Some(d) => if d.take(7) == reports::system_mode_tag() {
            Some(d[7])
        } else {
            None
        },
        None => None,
    }
}

/// The name of the mode that a byte stands for.
pub open spec fn mode_text(value: u8) -> Seq<char> {
    if value == 0x00 {
        "Normal"@
    } else if value == 0x01 {
        "Idle"@
    } else if value == 0x02 {
        "Factory"@
    } else if value == 0x03 {
        "ManualBuiltInTest"@
    } else if value == 0x04 {
        "AutomaticBuiltInTest"@
    } else if value == 0x05 {
        "MobilityTest"@
    } else if value == 0x06 {
        "Shutdown"@
    } else if value == 0x07 {
        "ReservedRejected"@
    } else if value == 0x08 {
        "EnergyEfficiency"@
    } else if value == 0x09 {
        "RetreadingFactory"@
    } else if value == 0x20 {
        "StartKeyOnlyBoot"@
    } else if value == 0x21 {
        "WatchdogResetNoDock"@
    } else if value == 0x22 {
        "PinResetNoDock"@
    } else if value == 0x23 {
        "SoftwareResetNoDock"@
    } else if value == 0x40 {
        "DockOnlyBoot"@
    } else if value == 0x41 {
        "WatchdogResetDocked"@
    } else if value == 0x42 {
        "PinResetDocked"@
    } else if value == 0x43 {
        "SoftwareResetDocked"@
    } else if value == 0x44 {
        "ApPowerOnAfterCommunicationFailure"@
    } else {
        "Unknown("@ + text::decimal(value as nat) + ")"@
    }
}

/// Version and mode.
pub open spec fn with_version(
    values: Map<Seq<char>, SensorValueView>,
    f: FrameView,
) -> Map<Seq<char>, SensorValueView> {
    let v1 = match version_text(f) {
        Some(t) => values.insert("mcu_version"@, SensorValueView::Text(t)),
        None => values,
    };
    match mode_byte(f) {
        Some(value) => v1.insert("system_mode"@, SensorValueView::Text(mode_text(value))),
        None => v1,
    }
}

/// The frame reports version or mode.
pub open spec fn reports_version(f: FrameView) -> bool {
    version_text(f) is Some || mode_byte(f) is Some
}

/// The frame is a whole periodic state report.
pub open spec fn reports_state(f: FrameView) -> bool {
    f.is_state() && f.payload.len() >= packet::STATE_BASE_LENGTH
}

/// Three values of the payload, as bit patterns.
pub open spec fn triple(p: Seq<u8>, at: int) -> Seq<u32> {
    Seq::new(3, |i: int| reports::field(p, at + 4 * i, at + 4 + 4 * i) as u32)
}

/// Motion, orientation and odometry of the payload of a periodic state report.
pub open spec fn with_state(values: Map<Seq<char>, SensorValueView>, p: Seq<u8>) -> Map<
    Seq<char>,
    SensorValueView,
> {
    let left = reports::signed_field(p, 42) as i32;
    let right = reports::signed_field(p, 46) as i32;
    values.insert("acceleration"@, SensorValueView::Vector3(triple(p, 2))).insert(
        "angular_velocity"@,
        SensorValueView::Vector3(triple(p, 14)),
    ).insert("orientation_x"@, SensorValueView::F32(reports::field(p, 26, 30) as u32)).insert(
        "orientation_y"@,
        SensorValueView::F32(reports::field(p, 30, 34) as u32),
    ).insert("orientation_z"@, SensorValueView::F32(reports::field(p, 34, 38) as u32)).insert(
        "orientation_w"@,
        SensorValueView::F32(reports::field(p, 38, 42) as u32),
    ).insert("wheel_left_ticks"@, SensorValueView::I32(left)).insert(
        "wheel_right_ticks"@,
        SensorValueView::I32(right),
    ).insert("wheel_left_m"@, SensorValueView::WheelTicks(left)).insert(
        "wheel_right_m"@,
        SensorValueView::WheelTicks(right),
    ).insert(
        "forward_motion_raw"@,
        SensorValueView::F32(reports::field(p, 50, 54) as u32),
    ).insert("mcu_timestamp_ms"@, SensorValueView::U64(reports::field(p, 58, 66) as u64))
}

/// Reads the 16-bit number that starts `bytes`.
pub fn little_u16(bytes: &[u8]) -> (number: Option<u16>)
    ensures
        number == (if bytes@.len() >= 2 {
            Some(reports::field(bytes@, 0, 2) as u16)
        } else {
            None
        }),
{
    if bytes.len() < 2 {
        return None;
    }
    Some(read_u16(bytes, 0))
}

/// The text that `bytes` hold, where they are valid UTF-8.
///
/// Calls `std::str::from_utf8`, which accepts exactly the valid UTF-8 strings and
/// hands back the text that they encode.
#[verifier::external_body]
fn utf8_text(bytes: &[u8]) -> (text: Option<String>)
    ensures
        match text {
            Some(t) => valid_utf8(bytes@) && t@ == decode_utf8(bytes@),
            None => !valid_utf8(bytes@),
        },
{
    match std::str::from_utf8(bytes) {
        Ok(text) => Some(text.to_string()),
        Err(_) => None,
    }
}

impl SystemMode {
    /// The name of the mode; of an unknown one, the byte too.
    pub fn describe(self) -> (name: String)
        ensures
            self matches SystemMode::Unknown(value) ==> name@ == "Unknown("@ + text::decimal(
                value as nat,
            ) + ")"@,
            self !is Unknown ==> name@ == mode_text(self.wire()),
            self is Normal ==> name@ == "Normal"@,
            self is Idle ==> name@ == "Idle"@,
            self is Factory ==> name@ == "Factory"@,
            self is ManualBuiltInTest ==> name@ == "ManualBuiltInTest"@,
            self is AutomaticBuiltInTest ==> name@ == "AutomaticBuiltInTest"@,
            self is MobilityTest ==> name@ == "MobilityTest"@,
            self is Shutdown ==> name@ == "Shutdown"@,
            self is ReservedRejected ==> name@ == "ReservedRejected"@,
            self is EnergyEfficiency ==> name@ == "EnergyEfficiency"@,
            self is RetreadingFactory ==> name@ == "RetreadingFactory"@,
            self is StartKeyOnlyBoot ==> name@ == "StartKeyOnlyBoot"@,
            self is WatchdogResetNoDock ==> name@ == "WatchdogResetNoDock"@,
            self is PinResetNoDock ==> name@ == "PinResetNoDock"@,
            self is SoftwareResetNoDock ==> name@ == "SoftwareResetNoDock"@,
            self is DockOnlyBoot ==> name@ == "DockOnlyBoot"@,
            self is WatchdogResetDocked ==> name@ == "WatchdogResetDocked"@,
            self is PinResetDocked ==> name@ == "PinResetDocked"@,
            self is SoftwareResetDocked ==> name@ == "SoftwareResetDocked"@,
            self is ApPowerOnAfterCommunicationFailure ==> name@ == "ApPowerOnAfterCommunicationFailure"@,
    {
        match self {
            SystemMode::Normal => "Normal".to_string(),
            SystemMode::Idle => "Idle".to_string(),
            SystemMode::Factory => "Factory".to_string(),
            SystemMode::ManualBuiltInTest => "ManualBuiltInTest".to_string(),
            SystemMode::AutomaticBuiltInTest => "AutomaticBuiltInTest".to_string(),
            SystemMode::MobilityTest => "MobilityTest".to_string(),
            SystemMode::Shutdown => "Shutdown".to_string(),
            SystemMode::ReservedRejected => "ReservedRejected".to_string(),
            SystemMode::EnergyEfficiency => "EnergyEfficiency".to_string(),
            SystemMode::RetreadingFactory => "RetreadingFactory".to_string(),
            SystemMode::StartKeyOnlyBoot => "StartKeyOnlyBoot".to_string(),
            SystemMode::WatchdogResetNoDock => "WatchdogResetNoDock".to_string(),
            SystemMode::PinResetNoDock => "PinResetNoDock".to_string(),
            SystemMode::SoftwareResetNoDock => "SoftwareResetNoDock".to_string(),
            SystemMode::DockOnlyBoot => "DockOnlyBoot".to_string(),
            SystemMode::WatchdogResetDocked => "WatchdogResetDocked".to_string(),
            SystemMode::PinResetDocked => "PinResetDocked".to_string(),
            SystemMode::SoftwareResetDocked => "SoftwareResetDocked".to_string(),
            SystemMode::ApPowerOnAfterCommunicationFailure =>
                "ApPowerOnAfterCommunicationFailure".to_string(),
            SystemMode::Unknown(value) => {
                let number = decimal_text(value as u64);
                join3("Unknown(", number.as_str(), ")")
            },
        }
    }
}

/// All sensor groups that MCU reports feed, and the lidar group.
#[derive(Debug)]
pub struct SensorGroups {
    pub sensor_status: SensorGroupData,
    pub power_status: SensorGroupData,
    pub attachments: SensorGroupData,
    pub motor_status: SensorGroupData,
    pub errors: SensorGroupData,
    pub dock_ir: SensorGroupData,
    pub device_version: SensorGroupData,
    pub lidar: SensorGroupData,
    /// The last reported dock state; 65535 before the first report.
    pub dock_state: u16,
}

/// `after` is `before` with other values, touched at `now`.
pub open spec fn updated(
    before: SensorGroupData,
    after: SensorGroupData,
    values: Map<Seq<char>, SensorValueView>,
    now: u64,
) -> bool {
    after.name == before.name && after.values@ == values && after.last_update == Some(now)
}

/// A group after a frame that may report on it.
pub open spec fn updated_if(
    reported: bool,
    before: SensorGroupData,
    after: SensorGroupData,
    values: Map<Seq<char>, SensorValueView>,
    now: u64,
) -> bool {
    if reported {
        updated(before, after, values, now)
    } else {
        after == before
    }
}

/// Sets `name` where there is a number.
fn set_number(group: &mut SensorGroupData, name: &str, number: Option<u16>)
    ensures
        final(group).values@ == with_number(old(group).values@, name@, number),
        final(group).name == old(group).name,
        final(group).last_update == old(group).last_update,
{
    match number {
        Some(n) => group.set(name, SensorValue::U16(n)),
        None => {},
    }
}

/// Sets the three values of one cleaning motor.
fn set_motor(
    group: &mut SensorGroupData,
    current_name: &str,
    speed_name: &str,
    fault_name: &str,
    report: Option<MotorReport>,
    Ghost(data): Ghost<Option<Seq<u8>>>,
)
    requires
        match data {
            Some(d) => report matches Some(r) && r.reads(d),
            None => report is None,
        },
    ensures
        final(group).values@ == with_motor(
            old(group).values@,
            current_name@,
            speed_name@,
            fault_name@,
            data,
        ),
        final(group).name == old(group).name,
        final(group).last_update == old(group).last_update,
{
    match report {
        Some(report) => {
            group.set(current_name, SensorValue::U16(report.current_ma));
            group.set(speed_name, SensorValue::U8(report.speed));
            group.set(fault_name, SensorValue::U8(report.fault));
        },
        None => {},
    }
}

impl SensorGroups {
    /// Empty groups, but for the geometry of the device, published at `now`.
    pub open spec fn created(
        self,
        wheel_mm_per_tick: u32,
        wheel_track_m: u32,
        lds_forward_angle_deg: u32,
        now: u64,
    ) -> bool {
        &&& self.sensor_status.name@ == "sensor_status"@
        &&& self.sensor_status.values@ == Map::<Seq<char>, SensorValueView>::empty()
        &&& self.sensor_status.last_update is None
        &&& self.power_status.name@ == "power_status"@
        &&& self.power_status.values@ == Map::<Seq<char>, SensorValueView>::empty()
        &&& self.power_status.last_update is None
        &&& self.attachments.name@ == "attachments"@
        &&& self.attachments.values@ == Map::<Seq<char>, SensorValueView>::empty()
        &&& self.attachments.last_update is None
        &&& self.motor_status.name@ == "motor_status"@
        &&& self.motor_status.values@ == Map::<Seq<char>, SensorValueView>::empty()
        &&& self.motor_status.last_update is None
        &&& self.errors.name@ == "errors"@
        &&& self.errors.values@ == Map::<Seq<char>, SensorValueView>::empty()
        &&& self.errors.last_update is None
        &&& self.dock_ir.name@ == "dock_ir"@
        &&& self.dock_ir.values@ == Map::<Seq<char>, SensorValueView>::empty()
        &&& self.dock_ir.last_update is None
        &&& self.lidar.name@ == "lidar"@
        &&& self.lidar.values@ == Map::<Seq<char>, SensorValueView>::empty()
        &&& self.lidar.last_update is None
        &&& self.device_version.name@ == "device_version"@
        &&& self.device_version.values@ == Map::<Seq<char>, SensorValueView>::empty().insert(
                "wheel_mm_per_tick"@,
                SensorValueView::F32(wheel_mm_per_tick),
            ).insert("wheel_track_m"@, SensorValueView::F32(wheel_track_m)).insert(
                "lds_forward_angle_deg"@,
                SensorValueView::F32(lds_forward_angle_deg),
            )
        &&& self.device_version.last_update == Some(now)
        &&& self.dock_state == u16::MAX
    }

    /// Empty groups, but for the geometry of the device, which is published with
    /// its version. The three values are IEEE-754 bit patterns.
    pub fn create(
        wheel_mm_per_tick: u32,
        wheel_track_m: u32,
        lds_forward_angle_deg: u32,
        now: u64,
    ) -> (groups: Self)
        ensures
            groups.created(wheel_mm_per_tick, wheel_track_m, lds_forward_angle_deg, now),
    {
        let mut device_version = SensorGroupData::new("device_version");
        device_version.set("wheel_mm_per_tick", SensorValue::F32(wheel_mm_per_tick));
        device_version.set("wheel_track_m", SensorValue::F32(wheel_track_m));
        device_version.set("lds_forward_angle_deg", SensorValue::F32(lds_forward_angle_deg));
        device_version.touch(now);
        SensorGroups {
            sensor_status: SensorGroupData::new("sensor_status"),
            power_status: SensorGroupData::new("power_status"),
            attachments: SensorGroupData::new("attachments"),
            motor_status: SensorGroupData::new("motor_status"),
            errors: SensorGroupData::new("errors"),
            dock_ir: SensorGroupData::new("dock_ir"),
            device_version,
            lidar: SensorGroupData::new("lidar"),
            dock_state: 65535,
        }
    }

    /// The last reported dock state.
    pub fn dock_state(&self) -> (state: u16)
        ensures
            state == self.dock_state,
    {
        self.dock_state
    }

    /// Publishes everything that a frame reports. Of a periodic state report the
    /// status group as it is right then is returned, for streaming.
    pub fn process_mcu_frame(&mut self, frame: &Frame, now: u64) -> (snapshot: Option<
        SensorGroupData,
    >)
        ensures
            final(self).after_frame(*old(self), frame@, now),
            if reports_state(frame@) {
                snapshot matches Some(s) && s.name@ == old(self).sensor_status.name@ && s.values@
                    == with_state(old(self).sensor_status.values@, frame@.payload) && s.last_update
                    == Some(now)
            } else {
                snapshot is None
            },
    {
        let snapshot: Option<SensorGroupData> = match frame.state_report() {
            Some(state) => {
                let group = &mut self.sensor_status;
                assert(state.imu.acceleration@ =~= triple(frame@.payload, 2));
                assert(state.imu.angular_rate@ =~= triple(frame@.payload, 14));
                group.set("acceleration", SensorValue::Vector3(state.imu.acceleration));
                group.set("angular_velocity", SensorValue::Vector3(state.imu.angular_rate));
                group.set("orientation_x", SensorValue::F32(state.imu.quaternion[0]));
                group.set("orientation_y", SensorValue::F32(state.imu.quaternion[1]));
                group.set("orientation_z", SensorValue::F32(state.imu.quaternion[2]));
                group.set("orientation_w", SensorValue::F32(state.imu.quaternion[3]));
                group.set("wheel_left_ticks", SensorValue::I32(state.left_odometry_ticks));
                group.set("wheel_right_ticks", SensorValue::I32(state.right_odometry_ticks));
                group.set("wheel_left_m", SensorValue::WheelTicks(state.left_odometry_ticks));
                group.set("wheel_right_m", SensorValue::WheelTicks(state.right_odometry_ticks));
                group.set("forward_motion_raw", SensorValue::F32(state.forward_motion));
                group.set("mcu_timestamp_ms", SensorValue::U64(state.mcu_timestamp_ms));
                group.touch(now);
                Some(group.snapshot())
            },
            None => None,
        };
        self.process_discrete_sensors(frame, now);
        self.process_power(frame, now);
        self.process_motors(frame, now);
        self.process_errors(frame, now);
        self.process_dock_ir(frame, now);
        self.process_version(frame, now);
        snapshot
    }

    /// The status group after a frame: state report first, discrete sensors then.
    pub open spec fn status_after(
        before: Map<Seq<char>, SensorValueView>,
        f: FrameView,
    ) -> Map<Seq<char>, SensorValueView> {
        with_discrete(
            if reports_state(f) {
                with_state(before, f.payload)
            } else {
                before
            },
            f,
        )
    }

    /// `self` is `before` after the frame `f`.
    pub open spec fn after_frame(self, before: SensorGroups, f: FrameView, now: u64) -> bool {
        &&& updated_if(
            reports_state(f) || reports_discrete(f),
            before.sensor_status,
            self.sensor_status,
            SensorGroups::status_after(before.sensor_status.values@, f),
            now,
        )
        &&& updated_if(
            reports_attachments(f),
            before.attachments,
            self.attachments,
            with_attachments(before.attachments.values@, f),
            now,
        )
        &&& updated_if(
            reports_power(f),
            before.power_status,
            self.power_status,
            with_power(before.power_status.values@, f),
            now,
        )
        &&& updated_if(
            reports_motors(f),
            before.motor_status,
            self.motor_status,
            with_motors(before.motor_status.values@, f),
            now,
        )
        &&& updated_if(
            reports_errors(f),
            before.errors,
            self.errors,
            with_errors(before.errors.values@, f),
            now,
        )
        &&& updated_if(
            dock_ir_data(f) is Some,
            before.dock_ir,
            self.dock_ir,
            with_dock_ir(before.dock_ir.values@, dock_ir_data(f)->0),
            now,
        )
        &&& updated_if(
            reports_version(f),
            before.device_version,
            self.device_version,
            with_version(before.device_version.values@, f),
            now,
        )
        &&& self.lidar == before.lidar
        &&& self.dock_state == (match number_reported(f, DOCK_REPORT) {
            Some(n) => n,
            None => before.dock_state,
        })
    }

    fn process_discrete_sensors(&mut self, frame: &Frame, now: u64)
        ensures
            *final(self) == (SensorGroups {
                sensor_status: final(self).sensor_status,
                attachments: final(self).attachments,
                ..*old(self)
            }),
            updated_if(
                reports_discrete(frame@),
                old(self).sensor_status,
                final(self).sensor_status,
                with_discrete(old(self).sensor_status.values@, frame@),
                now,
            ),
            updated_if(
                reports_attachments(frame@),
                old(self).attachments,
                final(self).attachments,
                with_attachments(old(self).attachments.values@, frame@),
                now,
            ),
    {
        let key = reported_number(frame, KEY_REPORT);
        let bumper = reported_number(frame, BUMPER_REPORT);
        let drop = reported_number(frame, DROP_REPORT);
        let cliff = reported_number(frame, CLIFF_REPORT);
        let cover = reported_number(frame, LDS_COVER_REPORT);
        if key.is_some() || bumper.is_some() || drop.is_some() || cliff.is_some()
            || cover.is_some() {
            let group = &mut self.sensor_status;
            set_number(group, "buttons_raw", key);
            set_number(group, "bumper_raw", bumper);
            set_number(group, "drop_raw", drop);
            set_number(group, "cliff_raw", cliff);
            set_number(group, "lds_cover_bumper_raw", cover);
            group.touch(now);
        }
        let dustbin = reported_number(frame, DUSTBIN_REPORT);
        let water_box = reported_number(frame, WATER_BOX_REPORT);
        if dustbin.is_some() || water_box.is_some() {
            let group = &mut self.attachments;
            if let Some(value) = dustbin {
                group.set("dustbin_raw", SensorValue::U16(value));
                group.set("dustbin_attached", SensorValue::Bool(value % 2 == 0));
            }
            if let Some(value) = water_box {
                group.set("water_box_raw", SensorValue::U16(value));
                group.set("water_box_attached", SensorValue::Bool(value / 2 % 2 == 0));
                group.set("water_box_presence_bit", SensorValue::U8((value / 2 % 2) as u8));
                // The S5 Max stock handler uses only bit 1 for the water box. It
                // has no independent electronic mop-cloth sensor.
                group.set("mop_detection_supported", SensorValue::Bool(false));
            }
            group.touch(now);
        }
    }

    fn process_power(&mut self, frame: &Frame, now: u64)
        ensures
            *final(self) == (SensorGroups {
                power_status: final(self).power_status,
                dock_state: match number_reported(frame@, DOCK_REPORT) {
                    Some(n) => n,
                    None => old(self).dock_state,
                },
                ..*old(self)
            }),
            updated_if(
                reports_power(frame@),
                old(self).power_status,
                final(self).power_status,
                with_power(old(self).power_status.values@, frame@),
                now,
            ),
    {
        let battery = frame.battery_report();
        let dock = reported_number(frame, DOCK_REPORT);
        let dock_voltage = frame.dock_voltage_report();
        let capacity = frame.battery_capacity_report();
        if battery.is_none() && dock.is_none() && dock_voltage.is_none() && capacity.is_none() {
            return ;
        }
        if let Some(value) = dock {
            self.dock_state = value;
        }
        let group = &mut self.power_status;
        if let Some(battery) = battery {
            group.set("battery_voltage_v", SensorValue::Thousandths(battery.voltage_mv));
            group.set("battery_current_magnitude_a", SensorValue::Thousandths(battery.current_ma));
            group.set("battery_level_percent", SensorValue::U8(battery.state_of_charge_percent));
        }
        if let Some(value) = dock {
            group.set("dock_state_raw", SensorValue::U16(value));
            group.set("dock_connected", SensorValue::Bool(value != 0));
            group.set("is_charging", SensorValue::Bool(value == 1));
        }
        if let Some(report) = dock_voltage {
            group.set("dock_voltage_v", SensorValue::Thousandths(report.millivolts));
        }
        if let Some(report) = capacity {
            group.set("battery_capacity_mah", SensorValue::U16(report.stock_scaled_value()));
        }
        group.touch(now);
    }

    fn process_motors(&mut self, frame: &Frame, now: u64)
        ensures
            *final(self) == (SensorGroups { motor_status: final(self).motor_status, ..*old(self) }),
            updated_if(
                reports_motors(frame@),
                old(self).motor_status,
                final(self).motor_status,
                with_motors(old(self).motor_status.values@, frame@),
                now,
            ),
    {
        let wheel: Option<WheelReport> = match frame.wheel_report() {
            Some(report) => Some(report),
            None => frame.embedded_wheel_report(),
        };
        let fan = frame.embedded_motor_report(FAN_REPORT_MESSAGE);
        let main_brush = frame.embedded_motor_report(BRUSH_REPORT_MESSAGE);
        let side_brush = frame.embedded_motor_report(SWEEP_REPORT_MESSAGE);
        if wheel.is_none() && fan.is_none() && main_brush.is_none() && side_brush.is_none() {
            return ;
        }
        let group = &mut self.motor_status;
        if let Some(wheel) = wheel {
            group.set("wheel_left_current_ma", SensorValue::U16(wheel.left_current_ma()));
            group.set("wheel_right_current_ma", SensorValue::U16(wheel.right_current_ma()));
            group.set("wheel_left_drive_level", SensorValue::I8(wheel.left_drive_level()));
            group.set("wheel_right_drive_level", SensorValue::I8(wheel.right_drive_level()));
            group.set("wheel_left_fault", SensorValue::U8(wheel.left_fault()));
            group.set("wheel_right_fault", SensorValue::U8(wheel.right_fault()));
        }
        set_motor(
            group,
            "fan_current_ma",
            "fan_speed_raw",
            "fan_fault",
            fan,
            Ghost(motor_data(frame@, FAN_REPORT_MESSAGE)),
        );
        set_motor(
            group,
            "main_brush_current_ma",
            "main_brush_speed_raw",
            "main_brush_fault",
            main_brush,
            Ghost(motor_data(frame@, BRUSH_REPORT_MESSAGE)),
        );
        set_motor(
            group,
            "side_brush_current_ma",
            "side_brush_speed_raw",
            "side_brush_fault",
            side_brush,
            Ghost(motor_data(frame@, SWEEP_REPORT_MESSAGE)),
        );
        group.touch(now);
    }

    fn process_errors(&mut self, frame: &Frame, now: u64)
        ensures
            *final(self) == (SensorGroups { errors: final(self).errors, ..*old(self) }),
            updated_if(
                reports_errors(frame@),
                old(self).errors,
                final(self).errors,
                with_errors(old(self).errors.values@, frame@),
                now,
            ),
    {
        let internal = frame.internal_error_report();
        let pump = frame.report(PUMP_ERROR_REPORT);
        if internal.is_none() && pump.is_none() {
            return ;
        }
        let group = &mut self.errors;
        if let Some(report) = internal {
            group.set("internal_raw", SensorValue::U32(report.raw));
            group.set("test_info_invalid", SensorValue::Bool(report.test_info_invalid()));
            group.set("gyro_probe_failed", SensorValue::Bool(report.gyro_probe_failed()));
            group.set(
                "bms_communication_failed",
                SensorValue::Bool(report.bms_communication_failed()),
            );
        }
        if let Some(report) = pump {
            let data: &[u8] = report.data;
            let copy = bytes::copy_range(data, 0, data.len());
            assert(copy@ =~= data@);
            group.set("water_pump_error_raw", SensorValue::Bytes(copy));
        }
        group.touch(now);
    }

    fn process_dock_ir(&mut self, frame: &Frame, now: u64)
        ensures
            *final(self) == (SensorGroups { dock_ir: final(self).dock_ir, ..*old(self) }),
            updated_if(
                dock_ir_data(frame@) is Some,
                old(self).dock_ir,
                final(self).dock_ir,
                with_dock_ir(old(self).dock_ir.values@, dock_ir_data(frame@)->0),
                now,
            ),
    {
        let report = match frame.dock_ir_report() {
            Some(report) => report,
            None => {
                return ;
            },
        };
        let left = report.left_receiver;
        let right = report.right_receiver;
        let group = &mut self.dock_ir;
        group.set("left_mask", SensorValue::U8(left.0));
        group.set("right_mask", SensorValue::U8(right.0));
        group.set("left_far_left", SensorValue::Bool(left.beacon_left()));
        group.set("left_far_right", SensorValue::Bool(left.beacon_right()));
        group.set("left_close_left", SensorValue::Bool(left.code_84()));
        group.set("left_close_right", SensorValue::Bool(left.code_88()));
        group.set("left_common", SensorValue::Bool(left.majority_pattern()));
        group.set("right_far_left", SensorValue::Bool(right.beacon_left()));
        group.set("right_far_right", SensorValue::Bool(right.beacon_right()));
        group.set("right_close_left", SensorValue::Bool(right.code_84()));
        group.set("right_close_right", SensorValue::Bool(right.code_88()));
        group.set("right_common", SensorValue::Bool(right.majority_pattern()));
        group.touch(now);
    }

    fn process_version(&mut self, frame: &Frame, now: u64)
        ensures
            *final(self) == (SensorGroups {
                device_version: final(self).device_version,
                ..*old(self)
            }),
            updated_if(
                reports_version(frame@),
                old(self).device_version,
                final(self).device_version,
                with_version(old(self).device_version.values@, frame@),
                now,
            ),
    {
        let version: Option<String> = match frame.report(MCU_VERSION_REPORT) {
            Some(report) => {
                let data: &[u8] = report.data;
                let end: usize = match find_byte(data, 0) {
                    Some(nul) => nul,
                    None => data.len(),
                };
                let body: &[u8] = &data[0..end];
                assert(body@ =~= up_to_nul(data@));
                utf8_text(body)
            },
            None => None,
        };
        let mode = frame.system_mode_report();
        if version.is_none() && mode.is_none() {
            return ;
        }
        let group = &mut self.device_version;
        if let Some(version) = version {
            group.set("mcu_version", SensorValue::Text(version));
        }
        if let Some(mode) = mode {
            group.set("system_mode", SensorValue::Text(mode.mode.describe()));
        }
        group.touch(now);
    }
}

/// The 16-bit number that starts the data of the first report about `message`.
fn reported_number(frame: &Frame, message: u8) -> (number: Option<u16>)
    ensures
        number == number_reported(frame@, message),
{
    match frame.report(message) {
        Some(report) => little_u16(report.data),
        None => None,
    }
}

/// Two groups of values agree on every name that is not listed.
pub open spec fn agree_elsewhere(
    a: Map<Seq<char>, SensorValueView>,
    b: Map<Seq<char>, SensorValueView>,
    listed: Set<Seq<char>>,
) -> bool {
    forall|name: Seq<char>|
        !listed.contains(name) ==> (#[trigger] a.contains_key(name) == b.contains_key(name)
            && a[name] == b[name])
}

/// `values` holds what a periodic state report says, each value under its own name.
pub open spec fn shows_state(
    values: Map<Seq<char>, SensorValueView>,
    report: StateReport,
) -> bool {
    &&& values.contains_pair("wheel_left_ticks"@, SensorValueView::I32(report.left_odometry_ticks))
    &&& values.contains_pair("wheel_right_ticks"@, SensorValueView::I32(report.right_odometry_ticks))
    &&& values.contains_pair("wheel_left_m"@, SensorValueView::WheelTicks(report.left_odometry_ticks))
    &&& values.contains_pair(
        "wheel_right_m"@,
        SensorValueView::WheelTicks(report.right_odometry_ticks),
    )
    &&& values.contains_pair(
        "acceleration"@,
        SensorValueView::Vector3(report.imu.acceleration@),
    )
    &&& values.contains_pair(
        "angular_velocity"@,
        SensorValueView::Vector3(report.imu.angular_rate@),
    )
    &&& values.contains_pair("orientation_x"@, SensorValueView::F32(report.imu.quaternion@[0]))
    &&& values.contains_pair("orientation_y"@, SensorValueView::F32(report.imu.quaternion@[1]))
    &&& values.contains_pair("orientation_z"@, SensorValueView::F32(report.imu.quaternion@[2]))
    &&& values.contains_pair("orientation_w"@, SensorValueView::F32(report.imu.quaternion@[3]))
    &&& values.contains_pair("forward_motion_raw"@, SensorValueView::F32(report.forward_motion))
    &&& values.contains_pair("mcu_timestamp_ms"@, SensorValueView::U64(report.mcu_timestamp_ms))
}

/// A periodic state report sets every value of its own in the status group under its
/// own name, and nothing else.
pub proof fn state_values_have_their_names(
    before: Map<Seq<char>, SensorValueView>,
    p: Seq<u8>,
    report: StateReport,
)
    requires
        p.len() >= 66,
        report.reads(p),
    ensures
        shows_state(with_state(before, p), report),
        agree_elsewhere(
            with_state(before, p),
            before,
            set!["acceleration"@, "angular_velocity"@, "orientation_x"@, "orientation_y"@, "orientation_z"@, "orientation_w"@, "wheel_left_ticks"@, "wheel_right_ticks"@, "wheel_left_m"@, "wheel_right_m"@, "forward_motion_raw"@, "mcu_timestamp_ms"@],
        ),
{
    reveal_strlit("acceleration");
    reveal_strlit("angular_velocity");
    reveal_strlit("orientation_x");
    reveal_strlit("orientation_y");
    reveal_strlit("orientation_z");
    reveal_strlit("orientation_w");
    reveal_strlit("wheel_left_ticks");
    reveal_strlit("wheel_right_ticks");
    reveal_strlit("wheel_left_m");
    reveal_strlit("wheel_right_m");
    reveal_strlit("forward_motion_raw");
    reveal_strlit("mcu_timestamp_ms");
    assert("acceleration"@.len() == 12);
    assert("angular_velocity"@.len() == 16);
    assert("orientation_x"@.len() == 13);
    assert("orientation_y"@.len() == 13);
    assert("orientation_z"@.len() == 13);
    assert("orientation_w"@.len() == 13);
    assert("wheel_left_ticks"@.len() == 16);
    assert("wheel_right_ticks"@.len() == 17);
    assert("wheel_left_m"@.len() == 12);
    assert("wheel_right_m"@.len() == 13);
    assert("forward_motion_raw"@.len() == 18);
    assert("mcu_timestamp_ms"@.len() == 16);
    assert("acceleration"@[0] == 'a');
    assert("angular_velocity"@[0] == 'a');
    assert("orientation_x"@[0] == 'o');
    assert("orientation_x"@[12] == 'x');
    assert("orientation_y"@[0] == 'o');
    assert("orientation_y"@[12] == 'y');
    assert("orientation_z"@[0] == 'o');
    assert("orientation_z"@[12] == 'z');
    assert("orientation_w"@[0] == 'o');
    assert("orientation_w"@[12] == 'w');
    assert("wheel_left_ticks"@[0] == 'w');
    assert("wheel_left_m"@[0] == 'w');
    assert("wheel_right_m"@[0] == 'w');
    assert("mcu_timestamp_ms"@[0] == 'm');
    assert(triple(p, 2) =~= report.imu.acceleration@);
    assert(triple(p, 14) =~= report.imu.angular_rate@);
    assert(report.imu.quaternion@[0] == reports::field(p, 26, 30));
    assert(report.imu.quaternion@[1] == reports::field(p, 30, 34));
    assert(report.imu.quaternion@[2] == reports::field(p, 34, 38));
    assert(report.imu.quaternion@[3] == reports::field(p, 38, 42));
}

/// Whatever frame holds a periodic state report, the status group shows that report
/// after it: each wheel's count and way under that wheel's own name, and so on. So does
/// the group that is streamed.
pub proof fn state_report_is_published(
    before: SensorGroups,
    after: SensorGroups,
    f: FrameView,
    now: u64,
    report: StateReport,
)
    requires
        after.after_frame(before, f, now),
        !f.is_log,
        f.message == 0x07,
        f.command == 0x40,
        f.payload.len() >= 66,
        report.reads(f.payload),
    ensures
        shows_state(after.sensor_status.values@, report),
        shows_state(with_state(before.sensor_status.values@, f.payload), report),
        after.sensor_status.last_update == Some(now),
        after.sensor_status.name == before.sensor_status.name,
{
    let shown = with_state(before.sensor_status.values@, f.payload);
    state_values_have_their_names(before.sensor_status.values@, f.payload, report);
    discrete_values_have_their_names(shown, f);
    reveal_strlit("acceleration");
    reveal_strlit("angular_velocity");
    reveal_strlit("orientation_x");
    reveal_strlit("orientation_y");
    reveal_strlit("orientation_z");
    reveal_strlit("orientation_w");
    reveal_strlit("wheel_left_ticks");
    reveal_strlit("wheel_right_ticks");
    reveal_strlit("wheel_left_m");
    reveal_strlit("wheel_right_m");
    reveal_strlit("forward_motion_raw");
    reveal_strlit("mcu_timestamp_ms");
    reveal_strlit("buttons_raw");
    reveal_strlit("bumper_raw");
    reveal_strlit("drop_raw");
    reveal_strlit("cliff_raw");
    reveal_strlit("lds_cover_bumper_raw");
    assert("acceleration"@.len() == 12);
    assert("angular_velocity"@.len() == 16);
    assert("orientation_x"@.len() == 13);
    assert("orientation_y"@.len() == 13);
    assert("orientation_z"@.len() == 13);
    assert("orientation_w"@.len() == 13);
    assert("wheel_left_ticks"@.len() == 16);
    assert("wheel_right_ticks"@.len() == 17);
    assert("wheel_left_m"@.len() == 12);
    assert("wheel_right_m"@.len() == 13);
    assert("forward_motion_raw"@.len() == 18);
    assert("mcu_timestamp_ms"@.len() == 16);
    assert("buttons_raw"@.len() == 11);
    assert("bumper_raw"@.len() == 10);
    assert("drop_raw"@.len() == 8);
    assert("cliff_raw"@.len() == 9);
    assert("lds_cover_bumper_raw"@.len() == 20);
    assert("acceleration"@[0] == 'a');
    assert("angular_velocity"@[0] == 'a');
    assert("orientation_x"@[0] == 'o');
    assert("orientation_x"@[12] == 'x');
    assert("orientation_y"@[0] == 'o');
    assert("orientation_y"@[12] == 'y');
    assert("orientation_z"@[0] == 'o');
    assert("orientation_z"@[12] == 'z');
    assert("orientation_w"@[0] == 'o');
    assert("orientation_w"@[12] == 'w');
    assert("wheel_left_ticks"@[0] == 'w');
    assert("wheel_left_m"@[0] == 'w');
    assert("wheel_right_m"@[0] == 'w');
    assert("mcu_timestamp_ms"@[0] == 'm');
}

/// `name` in `after` is the number that starts the first report of the frame about
/// `message`, least significant byte first; without such a report it is as before.
pub open spec fn shows_number(
    before: Map<Seq<char>, SensorValueView>,
    after: Map<Seq<char>, SensorValueView>,
    name: Seq<char>,
    f: FrameView,
    message: u8,
) -> bool {
    match packet::first_report(f.reports(), message) {
        Some(r) => if r.data.len() >= 2 {
            after.contains_key(name) && (after[name] matches SensorValueView::U16(n) && n
                == r.data[0] + 256 * r.data[1])
        } else {
            after.contains_key(name) == before.contains_key(name) && after[name] == before[name]
        },
        None => after.contains_key(name) == before.contains_key(name) && after[name]
            == before[name],
    }
}

proof fn number_weighs_two_bytes(f: FrameView, message: u8)
    ensures
        match packet::first_report(f.reports(), message) {
            Some(r) => if r.data.len() >= 2 {
                number_reported(f, message) matches Some(n) && n == r.data[0] + 256 * r.data[1]
            } else {
                number_reported(f, message) is None
            },
            None => number_reported(f, message) is None,
        },
{
    match packet::first_report(f.reports(), message) {
        Some(r) => {
            reports::fields_weigh_their_bytes(r.data, 0);
        },
        None => {},
    }
}

/// Each discrete sensor is published from its own report: the buttons from `06`, the
/// bumper from `21`, drop from `22`, cliff from `23`, and the turret cover from `25`.
pub proof fn discrete_values_have_their_names(
    before: Map<Seq<char>, SensorValueView>,
    f: FrameView,
)
    ensures
        shows_number(before, with_discrete(before, f), "buttons_raw"@, f, 0x06),
        shows_number(before, with_discrete(before, f), "bumper_raw"@, f, 0x21),
        shows_number(before, with_discrete(before, f), "drop_raw"@, f, 0x22),
        shows_number(before, with_discrete(before, f), "cliff_raw"@, f, 0x23),
        shows_number(before, with_discrete(before, f), "lds_cover_bumper_raw"@, f, 0x25),
        agree_elsewhere(
            with_discrete(before, f),
            before,
            set!["buttons_raw"@, "bumper_raw"@, "drop_raw"@, "cliff_raw"@, "lds_cover_bumper_raw"@],
        ),
{
    reveal_strlit("buttons_raw");
    reveal_strlit("bumper_raw");
    reveal_strlit("drop_raw");
    reveal_strlit("cliff_raw");
    reveal_strlit("lds_cover_bumper_raw");
    assert("buttons_raw"@.len() == 11);
    assert("bumper_raw"@.len() == 10);
    assert("drop_raw"@.len() == 8);
    assert("cliff_raw"@.len() == 9);
    assert("lds_cover_bumper_raw"@.len() == 20);
    number_weighs_two_bytes(f, 0x06);
    number_weighs_two_bytes(f, 0x21);
    number_weighs_two_bytes(f, 0x22);
    number_weighs_two_bytes(f, 0x23);
    number_weighs_two_bytes(f, 0x25);
}

/// Attachments: the dustbin from report `24`, in place while bit 0 is clear; the water
/// box from report `26`, in place while bit 1 is clear. A mop is never detected.
pub proof fn attachments_have_their_names(
    before: Map<Seq<char>, SensorValueView>,
    f: FrameView,
)
    ensures
        shows_number(before, with_attachments(before, f), "dustbin_raw"@, f, 0x24),
        shows_number(before, with_attachments(before, f), "water_box_raw"@, f, 0x26),
        packet::first_report(f.reports(), 0x24) matches Some(r) ==> (r.data.len() >= 2
            ==> with_attachments(before, f).contains_pair(
            "dustbin_attached"@,
            SensorValueView::Bool(r.data[0] % 2 == 0),
        )),
        packet::first_report(f.reports(), 0x26) matches Some(r) ==> (r.data.len() >= 2 ==> {
            let bit = r.data[0] as int / 2 % 2;
            &&& with_attachments(before, f).contains_pair(
                "water_box_attached"@,
                SensorValueView::Bool(bit == 0),
            )
            &&& with_attachments(before, f).contains_pair(
                "water_box_presence_bit"@,
                SensorValueView::U8(bit as u8),
            )
            &&& with_attachments(before, f).contains_pair(
                "mop_detection_supported"@,
                SensorValueView::Bool(false),
            )
        }),
        agree_elsewhere(
            with_attachments(before, f),
            before,
            set!["dustbin_raw"@, "dustbin_attached"@, "water_box_raw"@, "water_box_attached"@, "water_box_presence_bit"@, "mop_detection_supported"@],
        ),
{
    reveal_strlit("dustbin_raw");
    reveal_strlit("dustbin_attached");
    reveal_strlit("water_box_raw");
    reveal_strlit("water_box_attached");
    reveal_strlit("water_box_presence_bit");
    reveal_strlit("mop_detection_supported");
    assert("dustbin_raw"@.len() == 11);
    assert("dustbin_attached"@.len() == 16);
    assert("water_box_raw"@.len() == 13);
    assert("water_box_attached"@.len() == 18);
    assert("water_box_presence_bit"@.len() == 22);
    assert("mop_detection_supported"@.len() == 23);
    number_weighs_two_bytes(f, 0x24);
    number_weighs_two_bytes(f, 0x26);
}

/// Battery and dock: voltage, current and charge from report `08`, the dock state from
/// `20` (charging is one, not connected is zero), the dock voltage from `0f`, and the
/// capacity, in hundreds, from `16`.
pub proof fn power_values_have_their_names(before: Map<Seq<char>, SensorValueView>, f: FrameView)
    ensures
        f.report_data(0x08, 10) matches Some(d) ==> {
            let after = with_power(before, f);
            &&& after.contains_key("battery_voltage_v"@)
            &&& after["battery_voltage_v"@] matches SensorValueView::Thousandths(n) && n == d[0] + 256
                * d[1]
            &&& after.contains_key("battery_current_magnitude_a"@)
            &&& after["battery_current_magnitude_a"@] matches SensorValueView::Thousandths(n) && n
                == d[2] + 256 * d[3]
            &&& after.contains_pair("battery_level_percent"@, SensorValueView::U8(d[4]))
        },
        shows_number(before, with_power(before, f), "dock_state_raw"@, f, 0x20),
        packet::first_report(f.reports(), 0x20) matches Some(r) ==> (r.data.len() >= 2 ==> {
            let state = r.data[0] + 256 * r.data[1];
            &&& with_power(before, f).contains_pair(
                "dock_connected"@,
                SensorValueView::Bool(state != 0),
            )
            &&& with_power(before, f).contains_pair(
                "is_charging"@,
                SensorValueView::Bool(state == 1),
            )
        }),
        f.report_data(0x0f, 2) matches Some(d) ==> with_power(before, f).contains_key(
            "dock_voltage_v"@,
        ) && (with_power(before, f)["dock_voltage_v"@] matches SensorValueView::Thousandths(n) && n
            == d[0] + 256 * d[1]),
        f.report_data(0x16, 2) matches Some(d) ==> with_power(before, f).contains_key(
            "battery_capacity_mah"@,
        ) && (with_power(before, f)["battery_capacity_mah"@] matches SensorValueView::U16(n) && n
            == 100 * d[0]),
        agree_elsewhere(
            with_power(before, f),
            before,
            set!["battery_voltage_v"@, "battery_current_magnitude_a"@, "battery_level_percent"@, "dock_state_raw"@, "dock_connected"@, "is_charging"@, "dock_voltage_v"@, "battery_capacity_mah"@],
        ),
{
    reveal_strlit("battery_voltage_v");
    reveal_strlit("battery_current_magnitude_a");
    reveal_strlit("battery_level_percent");
    reveal_strlit("dock_state_raw");
    reveal_strlit("dock_connected");
    reveal_strlit("is_charging");
    reveal_strlit("dock_voltage_v");
    reveal_strlit("battery_capacity_mah");
    assert("battery_voltage_v"@.len() == 17);
    assert("battery_current_magnitude_a"@.len() == 27);
    assert("battery_level_percent"@.len() == 21);
    assert("dock_state_raw"@.len() == 14);
    assert("dock_connected"@.len() == 14);
    assert("is_charging"@.len() == 11);
    assert("dock_voltage_v"@.len() == 14);
    assert("battery_capacity_mah"@.len() == 20);
    assert("dock_state_raw"@[5] == 's');
    assert("dock_connected"@[5] == 'c');
    assert("dock_voltage_v"@[5] == 'v');
    number_weighs_two_bytes(f, 0x20);
    packet::sized_report_meaning(f.reports(), 0x08, 10);
    packet::sized_report_meaning(f.reports(), 0x0f, 2);
    if let Some(d) = f.report_data(0x08, 10) {
        reports::fields_weigh_their_bytes(d, 0);
        reports::fields_weigh_their_bytes(d, 2);
    }
    if let Some(d) = f.report_data(0x0f, 2) {
        reports::fields_weigh_their_bytes(d, 0);
    }
}

/// The three values of a cleaning motor are those of the six bytes `data`: current at 2,
/// fault at 4, speed at 5.
pub open spec fn shows_motor(
    values: Map<Seq<char>, SensorValueView>,
    current_name: Seq<char>,
    speed_name: Seq<char>,
    fault_name: Seq<char>,
    data: Seq<u8>,
) -> bool {
    &&& values.contains_key(current_name)
    &&& values[current_name] matches SensorValueView::U16(n) && n == data[2] + 256 * data[3]
    &&& values.contains_pair(speed_name, SensorValueView::U8(data[5]))
    &&& values.contains_pair(fault_name, SensorValueView::U8(data[4]))
}

/// Motors: the wheels from report `51`, left before right; the fan from `50`, the main
/// brush from `52`, the side brush from `53`. A wheel report that is a frame of its own
/// goes before one that is appended.
pub proof fn motor_values_have_their_names(before: Map<Seq<char>, SensorValueView>, f: FrameView)
    ensures
        (if f.message == 0x51 && f.command == 8 && f.payload.len() >= 10 {
            Some(f.payload.subrange(2, 10))
        } else {
            f.report_data(0x51, 8)
        }) matches Some(d) ==> {
            let after = with_motors(before, f);
            &&& after.contains_key("wheel_left_current_ma"@)
            &&& after["wheel_left_current_ma"@] matches SensorValueView::U16(n) && n == d[0] + 256
                * d[1]
            &&& after.contains_key("wheel_right_current_ma"@)
            &&& after["wheel_right_current_ma"@] matches SensorValueView::U16(n) && n == d[2] + 256
                * d[3]
            &&& after.contains_key("wheel_left_drive_level"@)
            &&& after["wheel_left_drive_level"@] matches SensorValueView::I8(n) && n == (if d[4]
                < 128 {
                d[4] as int
            } else {
                d[4] - 256
            })
            &&& after.contains_key("wheel_right_drive_level"@)
            &&& after["wheel_right_drive_level"@] matches SensorValueView::I8(n) && n == (if d[5]
                < 128 {
                d[5] as int
            } else {
                d[5] - 256
            })
            &&& after.contains_pair("wheel_left_fault"@, SensorValueView::U8(d[6]))
            &&& after.contains_pair("wheel_right_fault"@, SensorValueView::U8(d[7]))
        },
        f.report_data(0x50, 6) matches Some(d) ==> shows_motor(
            with_motors(before, f),
            "fan_current_ma"@,
            "fan_speed_raw"@,
            "fan_fault"@,
            d,
        ),
        f.report_data(0x52, 6) matches Some(d) ==> shows_motor(
            with_motors(before, f),
            "main_brush_current_ma"@,
            "main_brush_speed_raw"@,
            "main_brush_fault"@,
            d,
        ),
        f.report_data(0x53, 6) matches Some(d) ==> shows_motor(
            with_motors(before, f),
            "side_brush_current_ma"@,
            "side_brush_speed_raw"@,
            "side_brush_fault"@,
            d,
        ),
        agree_elsewhere(
            with_motors(before, f),
            before,
            set!["wheel_left_current_ma"@, "wheel_right_current_ma"@, "wheel_left_drive_level"@, "wheel_right_drive_level"@, "wheel_left_fault"@, "wheel_right_fault"@, "fan_current_ma"@, "fan_speed_raw"@, "fan_fault"@, "main_brush_current_ma"@, "main_brush_speed_raw"@, "main_brush_fault"@, "side_brush_current_ma"@, "side_brush_speed_raw"@, "side_brush_fault"@],
        ),
{
    reveal_strlit("wheel_left_current_ma");
    reveal_strlit("wheel_right_current_ma");
    reveal_strlit("wheel_left_drive_level");
    reveal_strlit("wheel_right_drive_level");
    reveal_strlit("wheel_left_fault");
    reveal_strlit("wheel_right_fault");
    reveal_strlit("fan_current_ma");
    reveal_strlit("fan_speed_raw");
    reveal_strlit("fan_fault");
    reveal_strlit("main_brush_current_ma");
    reveal_strlit("main_brush_speed_raw");
    reveal_strlit("main_brush_fault");
    reveal_strlit("side_brush_current_ma");
    reveal_strlit("side_brush_speed_raw");
    reveal_strlit("side_brush_fault");
    assert("wheel_left_current_ma"@.len() == 21);
    assert("wheel_right_current_ma"@.len() == 22);
    assert("wheel_left_drive_level"@.len() == 22);
    assert("wheel_right_drive_level"@.len() == 23);
    assert("wheel_left_fault"@.len() == 16);
    assert("wheel_right_fault"@.len() == 17);
    assert("fan_current_ma"@.len() == 14);
    assert("fan_speed_raw"@.len() == 13);
    assert("fan_fault"@.len() == 9);
    assert("main_brush_current_ma"@.len() == 21);
    assert("main_brush_speed_raw"@.len() == 20);
    assert("main_brush_fault"@.len() == 16);
    assert("side_brush_current_ma"@.len() == 21);
    assert("side_brush_speed_raw"@.len() == 20);
    assert("side_brush_fault"@.len() == 16);
    assert("wheel_left_current_ma"@[0] == 'w');
    assert("wheel_right_current_ma"@[6] == 'r');
    assert("wheel_left_drive_level"@[6] == 'l');
    assert("wheel_left_fault"@[0] == 'w');
    assert("main_brush_current_ma"@[0] == 'm');
    assert("main_brush_speed_raw"@[0] == 'm');
    assert("main_brush_fault"@[0] == 'm');
    assert("side_brush_current_ma"@[0] == 's');
    assert("side_brush_speed_raw"@[0] == 's');
    assert("side_brush_fault"@[0] == 's');
    packet::sized_report_meaning(f.reports(), 0x50, 6);
    packet::sized_report_meaning(f.reports(), 0x51, 8);
    packet::sized_report_meaning(f.reports(), 0x52, 6);
    packet::sized_report_meaning(f.reports(), 0x53, 6);
    if let Some(d) = wheel_data(f) {
        reports::fields_weigh_their_bytes(d, 0);
        reports::fields_weigh_their_bytes(d, 2);
    }
    if let Some(d) = f.report_data(0x50, 6) {
        reports::fields_weigh_their_bytes(d, 2);
    }
    if let Some(d) = f.report_data(0x52, 6) {
        reports::fields_weigh_their_bytes(d, 2);
    }
    if let Some(d) = f.report_data(0x53, 6) {
        reports::fields_weigh_their_bytes(d, 2);
    }
}

/// Errors: the internal word from report `04`, with its three lowest bits; the bytes of
/// the pump report `18` as they are.
pub proof fn error_values_have_their_names(before: Map<Seq<char>, SensorValueView>, f: FrameView)
    ensures
        f.report_data(0x04, 4) matches Some(d) ==> {
            let after = with_errors(before, f);
            &&& after.contains_key("internal_raw"@)
            &&& after["internal_raw"@] matches SensorValueView::U32(n) && n == bytes::quad(d, 0)
            &&& after.contains_pair(
                "test_info_invalid"@,
                SensorValueView::Bool(d[0] as int % 2 == 1),
            )
            &&& after.contains_pair(
                "gyro_probe_failed"@,
                SensorValueView::Bool(d[0] as int / 2 % 2 == 1),
            )
            &&& after.contains_pair(
                "bms_communication_failed"@,
                SensorValueView::Bool(d[0] as int / 4 % 2 == 1),
            )
        },
        packet::first_report(f.reports(), 0x18) matches Some(r) ==> with_errors(
            before,
            f,
        ).contains_pair("water_pump_error_raw"@, SensorValueView::Bytes(r.data)),
        agree_elsewhere(
            with_errors(before, f),
            before,
            set!["internal_raw"@, "test_info_invalid"@, "gyro_probe_failed"@, "bms_communication_failed"@, "water_pump_error_raw"@],
        ),
{
    reveal_strlit("internal_raw");
    reveal_strlit("test_info_invalid");
    reveal_strlit("gyro_probe_failed");
    reveal_strlit("bms_communication_failed");
    reveal_strlit("water_pump_error_raw");
    assert("internal_raw"@.len() == 12);
    assert("test_info_invalid"@.len() == 17);
    assert("gyro_probe_failed"@.len() == 17);
    assert("bms_communication_failed"@.len() == 24);
    assert("water_pump_error_raw"@.len() == 20);
    assert("test_info_invalid"@[0] == 't');
    assert("gyro_probe_failed"@[0] == 'g');
    packet::sized_report_meaning(f.reports(), 0x04, 4);
    if let Some(d) = f.report_data(0x04, 4) {
        reports::fields_weigh_their_bytes(d, 0);
        reports::bits_have_their_weights(bytes::quad(d, 0));
    }
}

/// The dock receivers: the left one from byte 0, the right one from byte 2; far left,
/// far right, close left, close right and common are bits 0 to 4.
pub proof fn dock_ir_values_have_their_names(before: Map<Seq<char>, SensorValueView>, d: Seq<u8>)
    requires
        d.len() == 4,
    ensures
        with_dock_ir(before, d).contains_pair("left_mask"@, SensorValueView::U8(d[0])),
        with_dock_ir(before, d).contains_pair("right_mask"@, SensorValueView::U8(d[2])),
        with_dock_ir(before, d).contains_pair(
            "left_far_left"@,
            SensorValueView::Bool(d[0] as int % 2 == 1),
        ),
        with_dock_ir(before, d).contains_pair(
            "left_far_right"@,
            SensorValueView::Bool(d[0] as int / 2 % 2 == 1),
        ),
        with_dock_ir(before, d).contains_pair(
            "left_close_left"@,
            SensorValueView::Bool(d[0] as int / 4 % 2 == 1),
        ),
        with_dock_ir(before, d).contains_pair(
            "left_close_right"@,
            SensorValueView::Bool(d[0] as int / 8 % 2 == 1),
        ),
        with_dock_ir(before, d).contains_pair(
            "left_common"@,
            SensorValueView::Bool(d[0] as int / 16 % 2 == 1),
        ),
        with_dock_ir(before, d).contains_pair(
            "right_far_left"@,
            SensorValueView::Bool(d[2] as int % 2 == 1),
        ),
        with_dock_ir(before, d).contains_pair(
            "right_far_right"@,
            SensorValueView::Bool(d[2] as int / 2 % 2 == 1),
        ),
        with_dock_ir(before, d).contains_pair(
            "right_close_left"@,
            SensorValueView::Bool(d[2] as int / 4 % 2 == 1),
        ),
        with_dock_ir(before, d).contains_pair(
            "right_close_right"@,
            SensorValueView::Bool(d[2] as int / 8 % 2 == 1),
        ),
        with_dock_ir(before, d).contains_pair(
            "right_common"@,
            SensorValueView::Bool(d[2] as int / 16 % 2 == 1),
        ),
        agree_elsewhere(
            with_dock_ir(before, d),
            before,
            set!["left_mask"@, "right_mask"@, "left_far_left"@, "left_far_right"@, "left_close_left"@, "left_close_right"@, "left_common"@, "right_far_left"@, "right_far_right"@, "right_close_left"@, "right_close_right"@, "right_common"@],
        ),
{
    reveal_strlit("left_mask");
    reveal_strlit("right_mask");
    reveal_strlit("left_far_left");
    reveal_strlit("left_far_right");
    reveal_strlit("left_close_left");
    reveal_strlit("left_close_right");
    reveal_strlit("left_common");
    reveal_strlit("right_far_left");
    reveal_strlit("right_far_right");
    reveal_strlit("right_close_left");
    reveal_strlit("right_close_right");
    reveal_strlit("right_common");
    assert("left_mask"@.len() == 9);
    assert("right_mask"@.len() == 10);
    assert("left_far_left"@.len() == 13);
    assert("left_far_right"@.len() == 14);
    assert("left_close_left"@.len() == 15);
    assert("left_close_right"@.len() == 16);
    assert("left_common"@.len() == 11);
    assert("right_far_left"@.len() == 14);
    assert("right_far_right"@.len() == 15);
    assert("right_close_left"@.len() == 16);
    assert("right_close_right"@.len() == 17);
    assert("right_common"@.len() == 12);
    assert("left_far_right"@[0] == 'l');
    assert("left_close_left"@[0] == 'l');
    assert("left_close_right"@[0] == 'l');
    assert("right_far_left"@[0] == 'r');
    assert("right_far_right"@[0] == 'r');
    assert("right_close_left"@[0] == 'r');
    reports::bits_have_their_weights(d[0] as int);
    reports::bits_have_their_weights(d[2] as int);
}

/// Each group is fed from its own reports: one that the frame has no report for stays as
/// it is, and one that it has a report for is stamped with the time.
pub proof fn frames_feed_their_groups(
    before: SensorGroups,
    after: SensorGroups,
    f: FrameView,
    now: u64,
)
    requires
        after.after_frame(before, f, now),
    ensures
        after.lidar == before.lidar,
        f.report_data(0x08, 10) is Some || f.report_data(0x0f, 2) is Some || f.report_data(0x16, 2)
            is Some ==> after.power_status.last_update == Some(now) && after.power_status.values@
            == with_power(before.power_status.values@, f),
        f.report_data(0x50, 6) is Some || f.report_data(0x51, 8) is Some || f.report_data(0x52, 6)
            is Some || f.report_data(0x53, 6) is Some ==> after.motor_status.last_update == Some(now)
            && after.motor_status.values@ == with_motors(before.motor_status.values@, f),
        f.report_data(0x04, 4) is Some || packet::first_report(f.reports(), 0x18) is Some
            ==> after.errors.last_update == Some(now) && after.errors.values@ == with_errors(
            before.errors.values@,
            f,
        ),
        f.report_data(0x13, 4) matches Some(d) ==> after.dock_ir.last_update == Some(now)
            && after.dock_ir.values@ == with_dock_ir(before.dock_ir.values@, d),
        f.report_data(0x13, 4) is None ==> after.dock_ir == before.dock_ir,
        packet::first_report(f.reports(), 0x24) matches Some(r) ==> (r.data.len() >= 2
            ==> after.attachments.last_update == Some(now) && after.attachments.values@
            == with_attachments(before.attachments.values@, f)),
        packet::first_report(f.reports(), 0x26) matches Some(r) ==> (r.data.len() >= 2
            ==> after.attachments.last_update == Some(now) && after.attachments.values@
            == with_attachments(before.attachments.values@, f)),
        packet::first_report(f.reports(), 0x20) matches Some(r) ==> (r.data.len() >= 2 ==> {
            &&& after.dock_state == r.data[0] + 256 * r.data[1]
            &&& after.power_status.last_update == Some(now)
            &&& after.power_status.values@ == with_power(before.power_status.values@, f)
        }),
        packet::first_report(f.reports(), 0x20) is None ==> after.dock_state == before.dock_state,
        f.reports().len() == 0 && f.message != 0x51 ==> after.power_status == before.power_status
            && after.motor_status == before.motor_status && after.errors == before.errors
            && after.attachments == before.attachments && after.device_version
            == before.device_version,
{
    number_weighs_two_bytes(f, 0x20);
    number_weighs_two_bytes(f, 0x24);
    number_weighs_two_bytes(f, 0x26);
    packet::sized_report_meaning(f.reports(), 0x13, 4);
}

/// Version and mode: the text of report `01` up to its NUL, where it is valid UTF-8, and
/// the name of the mode byte that follows the tag `sys_md` in report `02`.
pub proof fn version_values_have_their_names(before: Map<Seq<char>, SensorValueView>, f: FrameView)
    ensures
        packet::first_report(f.reports(), 0x01) matches Some(r) ==> forall|nul: int|
            #![trigger r.data.take(nul)]
            0 <= nul < r.data.len() && r.data[nul] == 0 && (forall|j: int|
                0 <= j < nul ==> r.data[j] != 0) && valid_utf8(r.data.take(nul)) ==> with_version(
                before,
                f,
            ).contains_pair(
                "mcu_version"@,
                SensorValueView::Text(decode_utf8(r.data.take(nul))),
            ),
        f.report_data(0x02, 8) matches Some(d) ==> (d.take(7) == seq![
            0x73u8,
            0x79,
            0x73,
            0x5f,
            0x6d,
            0x64,
            0,
        ] ==> with_version(before, f).contains_pair(
            "system_mode"@,
            SensorValueView::Text(mode_text(d[7])),
        )),
        agree_elsewhere(with_version(before, f), before, set!["mcu_version"@, "system_mode"@]),
{
    reveal_strlit("mcu_version");
    reveal_strlit("system_mode");
    assert("mcu_version"@.len() == 11);
    assert("system_mode"@.len() == 11);
    assert("mcu_version"@[0] == 'm');
    assert("system_mode"@[0] == 's');
    assert(reports::system_mode_tag() =~= seq![0x73u8, 0x79, 0x73, 0x5f, 0x6d, 0x64, 0]);
    if let Some(r) = packet::first_report(f.reports(), 0x01) {
        assert forall|nul: int|
            #![trigger r.data.take(nul)]
            0 <= nul < r.data.len() && r.data[nul] == 0 && (forall|j: int|
                0 <= j < nul ==> r.data[j] != 0) && valid_utf8(r.data.take(nul)) implies with_version(
            before,
            f,
        ).contains_pair("mcu_version"@, SensorValueView::Text(decode_utf8(r.data.take(nul)))) by {
            bytes::first_byte_at(r.data, 0, nul);
        }
    }
}

/// The geometry of the device is published from the start, each number under its own
/// name; every other group is empty and was never updated, and no dock state is known.
pub proof fn geometry_is_published(
    groups: SensorGroups,
    wheel_mm_per_tick: u32,
    wheel_track_m: u32,
    lds_forward_angle_deg: u32,
    now: u64,
)
    requires
        groups.created(wheel_mm_per_tick, wheel_track_m, lds_forward_angle_deg, now),
    ensures
        groups.device_version.values@.contains_pair(
            "wheel_mm_per_tick"@,
            SensorValueView::F32(wheel_mm_per_tick),
        ),
        groups.device_version.values@.contains_pair(
            "wheel_track_m"@,
            SensorValueView::F32(wheel_track_m),
        ),
        groups.device_version.values@.contains_pair(
            "lds_forward_angle_deg"@,
            SensorValueView::F32(lds_forward_angle_deg),
        ),
        groups.device_version.last_update == Some(now),
        groups.dock_state == 65535,
        forall|name: Seq<char>|
            #![trigger groups.sensor_status.values@.contains_key(name)]
            !groups.sensor_status.values@.contains_key(name)
                && !groups.power_status.values@.contains_key(name)
                && !groups.attachments.values@.contains_key(name)
                && !groups.motor_status.values@.contains_key(name)
                && !groups.errors.values@.contains_key(name) && !groups.dock_ir.values@.contains_key(
                name,
            ) && !groups.lidar.values@.contains_key(name),
{
    reveal_strlit("wheel_mm_per_tick");
    reveal_strlit("wheel_track_m");
    reveal_strlit("lds_forward_angle_deg");
    assert("wheel_mm_per_tick"@.len() == 17);
    assert("wheel_track_m"@.len() == 13);
    assert("lds_forward_angle_deg"@.len() == 21);
}

} // verus!
