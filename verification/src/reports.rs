//! The reports of a binary MCU frame, decoded field by field.
//!
//! Floating-point fields are kept as their IEEE-754 bit patterns.

use crate::bytes;
use crate::bytes::find_byte;
use crate::bytes::read_i32;
use crate::bytes::read_u16;
use crate::bytes::read_u32;
use crate::bytes::read_u64;
use crate::bytes::same_bytes;
use crate::bytes::signed_byte;
use crate::packet;
use crate::packet::BATTERY_CAPACITY_REPORT_LENGTH;
use crate::packet::BATTERY_CAPACITY_REPORT_MESSAGE;
use crate::packet::BATTERY_REPORT_LENGTH;
use crate::packet::BATTERY_REPORT_MESSAGE;
use crate::packet::BLACK_BOX_REPORT_LENGTH;
use crate::packet::BLACK_BOX_REPORT_MESSAGE;
use crate::packet::BRUSH_REPORT_LENGTH;
use crate::packet::BRUSH_REPORT_MESSAGE;
use crate::packet::CALIBRATION_REPORT_LENGTH;
use crate::packet::CALIBRATION_REPORT_MESSAGE;
use crate::packet::DEVICE_INFO_REPORT_LENGTH;
use crate::packet::DEVICE_INFO_REPORT_MESSAGE;
use crate::packet::DOCK_IR_REPORT_LENGTH;
use crate::packet::DOCK_IR_REPORT_MESSAGE;
use crate::packet::DOCK_VOLTAGE_REPORT_LENGTH;
use crate::packet::DOCK_VOLTAGE_REPORT_MESSAGE;
use crate::packet::FAN_REPORT_LENGTH;
use crate::packet::FAN_REPORT_MESSAGE;
use crate::packet::Frame;
use crate::packet::GYRO_ECHO_REPORT_LENGTH;
use crate::packet::GYRO_ECHO_REPORT_MESSAGE;
use crate::packet::INTERNAL_ERROR_REPORT_LENGTH;
use crate::packet::INTERNAL_ERROR_REPORT_MESSAGE;
use crate::packet::MCU_IDENTITY_REPORT_LENGTH;
use crate::packet::MCU_IDENTITY_REPORT_MESSAGE;
use crate::packet::MCU_TIME_REPORT_LENGTH;
use crate::packet::MCU_TIME_REPORT_MESSAGE;
use crate::packet::REPORT_FOOTER_LENGTH;
use crate::packet::REPORT_FOOTER_MESSAGE;
use crate::packet::STATE_BASE_LENGTH;
use crate::packet::STATUS_STRING_REPORT_MESSAGE;
use crate::packet::SWEEP_REPORT_LENGTH;
use crate::packet::SWEEP_REPORT_MESSAGE;
use crate::packet::SYSTEM_MODE_REPORT_LENGTH;
use crate::packet::SYSTEM_MODE_REPORT_MESSAGE;
use crate::packet::WALL_SENSOR_REPORT_LENGTH;
use crate::packet::WALL_SENSOR_REPORT_MESSAGE;
use crate::packet::WHEEL_REPORT_LENGTH;
use crate::packet::WHEEL_REPORT_MESSAGE;
use vstd::prelude::*;

verus! {

/// The unsigned little-endian number in `d` from `from` up to `to`.
pub open spec fn field(d: Seq<u8>, from: int, to: int) -> int {
    bytes::le_value(d.subrange(from, to)) as int
}

/// The signed 32-bit number in `d` at `from`.
pub open spec fn signed_field(d: Seq<u8>, from: int) -> int {
    bytes::signed32(field(d, from, from + 4))
}

/// Bit `n` of `raw`, counted from the low end.
pub open spec fn bit(raw: int, n: nat) -> bool
    decreases n,
{
    if n == 0 {
        raw % 2 == 1
    } else {
        bit(raw / 2, (n - 1) as nat)
    }
}

/// A field is the sum of its bytes, each weighed 256 times the one before it; a signed
/// field takes its top half as negative.
pub proof fn fields_weigh_their_bytes(d: Seq<u8>, at: int)
    requires
        0 <= at,
    ensures
        at + 2 <= d.len() ==> field(d, at, at + 2) == d[at] + 256 * d[at + 1],
        at + 4 <= d.len() ==> field(d, at, at + 4) == bytes::quad(d, at),
        at + 4 <= d.len() ==> signed_field(d, at) == (if d[at + 3] < 128 {
            bytes::quad(d, at)
        } else {
            bytes::quad(d, at) - 0x1_0000_0000
        }),
        at + 8 <= d.len() ==> field(d, at, at + 8) == bytes::quad(d, at) + 0x1_0000_0000
            * bytes::quad(d, at + 4),
{
    if at + 2 <= d.len() {
        bytes::le_value_2(d, at);
    }
    if at + 4 <= d.len() {
        bytes::le_value_4(d, at);
    }
    if at + 8 <= d.len() {
        bytes::le_value_4(d, at + 4);
        bytes::le_value_8(d, at);
    }
}

/// The five lowest bits by their weights.
pub proof fn bits_have_their_weights(raw: int)
    requires
        0 <= raw,
    ensures
        bit(raw, 0) == (raw % 2 == 1),
        bit(raw, 1) == (raw / 2 % 2 == 1),
        bit(raw, 2) == (raw / 4 % 2 == 1),
        bit(raw, 3) == (raw / 8 % 2 == 1),
        bit(raw, 4) == (raw / 16 % 2 == 1),
{
    reveal_with_fuel(bit, 5);
}

/// Acceleration, angular rate and orientation, as IEEE-754 bit patterns.
#[derive(Debug, Clone, Copy, PartialEq, Eq)]
pub struct ImuState {
    /// Three little-endian IEEE-754 values at payload offsets 2..14.
    pub acceleration: [u32; 3],
    /// Three little-endian IEEE-754 values at payload offsets 14..26.
    pub angular_rate: [u32; 3],
    /// Four little-endian IEEE-754 values at payload offsets 26..42.
    pub quaternion: [u32; 4],
}

impl ImuState {
    /// The values that the payload `p` holds.
    pub open spec fn reads(self, p: Seq<u8>) -> bool {
        &&& forall|i: int|
            0 <= i < 3 ==> #[trigger] self.acceleration@[i] == field(p, 2 + 4 * i, 6 + 4 * i)
        &&& forall|i: int|
            0 <= i < 3 ==> #[trigger] self.angular_rate@[i] == field(p, 14 + 4 * i, 18 + 4 * i)
        &&& forall|i: int|
            0 <= i < 4 ==> #[trigger] self.quaternion@[i] == field(p, 26 + 4 * i, 30 + 4 * i)
    }
}

#[derive(Debug, Clone, Copy, PartialEq, Eq)]
pub struct StateReport {
    pub imu: ImuState,
    /// Signed cumulative encoder counters at payload offsets 42 and 46.
    pub left_odometry_ticks: i32,
    pub right_odometry_ticks: i32,
    /// Filtered controller-domain forward-motion estimate at offset 50, as an
    /// IEEE-754 bit pattern. It closely tracks mean encoder ticks per 20 ms, but
    /// no physical-unit scale is assigned yet.
    pub forward_motion: u32,
    /// Payload offset 54; zero in every available capture.
    pub reserved: u32,
    /// Monotonic MCU time in milliseconds at payload offset 58.
    pub mcu_timestamp_ms: u64,
}

impl StateReport {
    pub open spec fn reads(self, p: Seq<u8>) -> bool {
        &&& self.imu.reads(p)
        &&& self.left_odometry_ticks == signed_field(p, 42)
        &&& self.right_odometry_ticks == signed_field(p, 46)
        &&& self.forward_motion == field(p, 50, 54)
        &&& self.reserved == field(p, 54, 58)
        &&& self.mcu_timestamp_ms == field(p, 58, 66)
    }

    /// Where each value of a periodic state report stands in its payload, least
    /// significant byte first: acceleration from 2 on, angular rate from 14, the
    /// quaternion from 26, the left odometer at 42, the right one at 46, the motion
    /// estimate at 50 and the time at 58.
    pub proof fn layout(self, p: Seq<u8>)
        requires
            p.len() >= 66,
            self.reads(p),
        ensures
            self.imu.acceleration@[0] == bytes::quad(p, 2),
            self.imu.acceleration@[1] == bytes::quad(p, 6),
            self.imu.acceleration@[2] == bytes::quad(p, 10),
            self.imu.angular_rate@[0] == bytes::quad(p, 14),
            self.imu.angular_rate@[1] == bytes::quad(p, 18),
            self.imu.angular_rate@[2] == bytes::quad(p, 22),
            self.imu.quaternion@[0] == bytes::quad(p, 26),
            self.imu.quaternion@[1] == bytes::quad(p, 30),
            self.imu.quaternion@[2] == bytes::quad(p, 34),
            self.imu.quaternion@[3] == bytes::quad(p, 38),
            p[45] < 128 ==> self.left_odometry_ticks == bytes::quad(p, 42),
            p[45] >= 128 ==> self.left_odometry_ticks == bytes::quad(p, 42) - 0x1_0000_0000,
            p[49] < 128 ==> self.right_odometry_ticks == bytes::quad(p, 46),
            p[49] >= 128 ==> self.right_odometry_ticks == bytes::quad(p, 46) - 0x1_0000_0000,
            self.forward_motion == bytes::quad(p, 50),
            self.reserved == bytes::quad(p, 54),
            self.mcu_timestamp_ms == bytes::quad(p, 58) + 0x1_0000_0000 * bytes::quad(p, 62),
    {
        fields_weigh_their_bytes(p, 2);
        fields_weigh_their_bytes(p, 6);
        fields_weigh_their_bytes(p, 10);
        fields_weigh_their_bytes(p, 14);
        fields_weigh_their_bytes(p, 18);
        fields_weigh_their_bytes(p, 22);
        fields_weigh_their_bytes(p, 26);
        fields_weigh_their_bytes(p, 30);
        fields_weigh_their_bytes(p, 34);
        fields_weigh_their_bytes(p, 38);
        fields_weigh_their_bytes(p, 42);
        fields_weigh_their_bytes(p, 46);
        fields_weigh_their_bytes(p, 50);
        fields_weigh_their_bytes(p, 54);
        fields_weigh_their_bytes(p, 58);
    }
}

/// Eight-byte wheel report emitted by the stock MCU firmware.
///
/// The producer function converts two wheel-current ADC channels to mA, reads and
/// signs the active forward/reverse PWM compare level, then appends fault-state
/// bytes. Encoder velocity is reported through separate counters.
#[derive(Debug, Clone, Copy, PartialEq, Eq)]
pub struct WheelReport {
    pub bytes: [u8; 8],
}

impl WheelReport {
    pub fn left_current_ma(self) -> (current: u16)
        ensures
            current == field(self.bytes@, 0, 2),
            current == self.bytes@[0] + 256 * self.bytes@[1],
    {
        proof {
            fields_weigh_their_bytes(self.bytes@, 0);
        }
        read_u16(&self.bytes, 0)
    }

    pub fn right_current_ma(self) -> (current: u16)
        ensures
            current == field(self.bytes@, 2, 4),
            current == self.bytes@[2] + 256 * self.bytes@[3],
    {
        proof {
            fields_weigh_their_bytes(self.bytes@, 2);
        }
        read_u16(&self.bytes, 2)
    }

    /// Signed wheel drive level reconstructed from the active timer compare. This
    /// is actuator demand, not measured encoder velocity.
    pub fn left_drive_level(self) -> (level: i8)
        ensures
            level == bytes::signed8(self.bytes@[4] as int),
    {
        signed_byte(self.bytes[4])
    }

    pub fn right_drive_level(self) -> (level: i8)
        ensures
            level == bytes::signed8(self.bytes@[5] as int),
    {
        signed_byte(self.bytes[5])
    }

    /// Another name of [`Self::left_drive_level`]; the field is drive demand, not
    /// wheel speed.
    pub fn left_speed(self) -> (level: i8)
        ensures
            level == bytes::signed8(self.bytes@[4] as int),
    {
        self.left_drive_level()
    }

    /// Another name of [`Self::right_drive_level`]; the field is drive demand, not
    /// wheel speed.
    pub fn right_speed(self) -> (level: i8)
        ensures
            level == bytes::signed8(self.bytes@[5] as int),
    {
        self.right_drive_level()
    }

    /// Fault/result code. Zero is normal in available captures.
    pub fn left_fault(self) -> (fault: u8)
        ensures
            fault == self.bytes@[6],
    {
        self.bytes[6]
    }

    pub fn right_fault(self) -> (fault: u8)
        ensures
            fault == self.bytes@[7],
    {
        self.bytes[7]
    }
}

/// Shared six-byte report layout used by fan, main brush, and side brush.
#[derive(Debug, Clone, Copy, PartialEq, Eq)]
pub struct MotorReport {
    pub sentinel: u16,
    pub current_ma: u16,
    pub fault: u8,
    pub speed: u8,
}

impl MotorReport {
    pub open spec fn reads(self, d: Seq<u8>) -> bool {
        &&& self.sentinel == field(d, 0, 2)
        &&& self.current_ma == field(d, 2, 4)
        &&& self.fault == d[4]
        &&& self.speed == d[5]
    }

    /// Two bytes of sentinel, two of current, then fault and speed.
    pub proof fn layout(self, d: Seq<u8>)
        requires
            d.len() >= 6,
            self.reads(d),
        ensures
            self.sentinel == d[0] + 256 * d[1],
            self.current_ma == d[2] + 256 * d[3],
            self.fault == d[4],
            self.speed == d[5],
    {
        fields_weigh_their_bytes(d, 0);
        fields_weigh_their_bytes(d, 2);
    }

    /// Reads the first six bytes, if there are as many.
    pub fn parse(bytes: &[u8]) -> (report: Option<Self>)
        ensures
            if bytes@.len() >= 6 {
                report matches Some(r) && r.reads(bytes@)
            } else {
                report is None
            },
    {
        if bytes.len() < 6 {
            return None;
        }
        Some(
            MotorReport {
                sentinel: read_u16(bytes, 0),
                current_ma: read_u16(bytes, 2),
                fault: bytes[4],
                speed: bytes[5],
            },
        )
    }
}

/// Ten-byte BMS summary copied into report `0x08` by the stock firmware.
#[derive(Debug, Clone, Copy, PartialEq, Eq)]
pub struct BatteryReport {
    pub voltage_mv: u16,
    /// Current magnitude reported by the BMS. Direction is represented by
    /// charging state elsewhere in the stock protocol.
    pub current_ma: u16,
    pub state_of_charge_percent: u8,
    pub reserved: [u8; 5],
}

impl BatteryReport {
    pub open spec fn reads(self, d: Seq<u8>) -> bool {
        &&& self.voltage_mv == field(d, 0, 2)
        &&& self.current_ma == field(d, 2, 4)
        &&& self.state_of_charge_percent == d[4]
        &&& self.reserved@ == d.subrange(5, 10)
    }

    /// Two bytes of voltage, two of current, then the charge; five more are kept.
    pub proof fn layout(self, d: Seq<u8>)
        requires
            d.len() == 10,
            self.reads(d),
        ensures
            self.voltage_mv == d[0] + 256 * d[1],
            self.current_ma == d[2] + 256 * d[3],
            self.state_of_charge_percent == d[4],
            forall|i: int| 0 <= i < 5 ==> #[trigger] self.reserved@[i] == d[5 + i],
    {
        fields_weigh_their_bytes(d, 0);
        fields_weigh_their_bytes(d, 2);
    }
}

#[derive(Debug, Clone, Copy, PartialEq, Eq)]
pub struct WallSensorReport {
    /// Raw ADC-domain proximity value; no calibrated distance scale is known.
    pub raw_adc: u16,
}

/// One-byte token copied from an application-processor command and returned as
/// report `0xd1`.
///
/// Firmware does not derive this byte from an IMU register, despite `0xd1` also
/// being the BMI160 chip ID.
#[derive(Debug, Clone, Copy, PartialEq, Eq)]
pub struct GyroEchoReport {
    pub token: u8,
}

#[derive(Debug, Clone, Copy, PartialEq, Eq)]
pub enum SystemMode {
    Normal,
    Idle,
    Factory,
    ManualBuiltInTest,
    AutomaticBuiltInTest,
    MobilityTest,
    Shutdown,
    ReservedRejected,
    EnergyEfficiency,
    RetreadingFactory,
    StartKeyOnlyBoot,
    WatchdogResetNoDock,
    PinResetNoDock,
    SoftwareResetNoDock,
    DockOnlyBoot,
    WatchdogResetDocked,
    PinResetDocked,
    SoftwareResetDocked,
    ApPowerOnAfterCommunicationFailure,
    Unknown(u8),
}

impl SystemMode {
    /// The byte that stands for the mode on the wire.
    pub open spec fn wire(self) -> u8 {
        match self {
            SystemMode::Normal => 0x00,
            SystemMode::Idle => 0x01,
            SystemMode::Factory => 0x02,
            SystemMode::ManualBuiltInTest => 0x03,
            SystemMode::AutomaticBuiltInTest => 0x04,
            SystemMode::MobilityTest => 0x05,
            SystemMode::Shutdown => 0x06,
            SystemMode::ReservedRejected => 0x07,
            SystemMode::EnergyEfficiency => 0x08,
            SystemMode::RetreadingFactory => 0x09,
            SystemMode::StartKeyOnlyBoot => 0x20,
            SystemMode::WatchdogResetNoDock => 0x21,
            SystemMode::PinResetNoDock => 0x22,
            SystemMode::SoftwareResetNoDock => 0x23,
            SystemMode::DockOnlyBoot => 0x40,
            SystemMode::WatchdogResetDocked => 0x41,
            SystemMode::PinResetDocked => 0x42,
            SystemMode::SoftwareResetDocked => 0x43,
            SystemMode::ApPowerOnAfterCommunicationFailure => 0x44,
            SystemMode::Unknown(value) => value,
        }
    }

    /// The byte stands for a mode that has a name.
    pub open spec fn named(value: u8) -> bool {
        value <= 0x09 || 0x20 <= value <= 0x23 || 0x40 <= value <= 0x44
    }

    pub fn from_wire(value: u8) -> (mode: Self)
        ensures
            mode.wire() == value,
            mode is Unknown <==> !SystemMode::named(value),
            mode is Normal <==> value == 0x00,
            mode is Idle <==> value == 0x01,
            mode is Factory <==> value == 0x02,
            mode is ManualBuiltInTest <==> value == 0x03,
            mode is AutomaticBuiltInTest <==> value == 0x04,
            mode is MobilityTest <==> value == 0x05,
            mode is Shutdown <==> value == 0x06,
            mode is ReservedRejected <==> value == 0x07,
            mode is EnergyEfficiency <==> value == 0x08,
            mode is RetreadingFactory <==> value == 0x09,
            mode is StartKeyOnlyBoot <==> value == 0x20,
            mode is WatchdogResetNoDock <==> value == 0x21,
            mode is PinResetNoDock <==> value == 0x22,
            mode is SoftwareResetNoDock <==> value == 0x23,
            mode is DockOnlyBoot <==> value == 0x40,
            mode is WatchdogResetDocked <==> value == 0x41,
            mode is PinResetDocked <==> value == 0x42,
            mode is SoftwareResetDocked <==> value == 0x43,
            mode is ApPowerOnAfterCommunicationFailure <==> value == 0x44,
    {
        match value {
            0x00 => SystemMode::Normal,
            0x01 => SystemMode::Idle,
            0x02 => SystemMode::Factory,
            0x03 => SystemMode::ManualBuiltInTest,
            0x04 => SystemMode::AutomaticBuiltInTest,
            0x05 => SystemMode::MobilityTest,
            0x06 => SystemMode::Shutdown,
            0x07 => SystemMode::ReservedRejected,
            0x08 => SystemMode::EnergyEfficiency,
            0x09 => SystemMode::RetreadingFactory,
            0x20 => SystemMode::StartKeyOnlyBoot,
            0x21 => SystemMode::WatchdogResetNoDock,
            0x22 => SystemMode::PinResetNoDock,
            0x23 => SystemMode::SoftwareResetNoDock,
            0x40 => SystemMode::DockOnlyBoot,
            0x41 => SystemMode::WatchdogResetDocked,
            0x42 => SystemMode::PinResetDocked,
            0x43 => SystemMode::SoftwareResetDocked,
            0x44 => SystemMode::ApPowerOnAfterCommunicationFailure,
            value => SystemMode::Unknown(value),
        }
    }
}

#[derive(Debug, Clone, Copy, PartialEq, Eq)]
pub struct SystemModeReport {
    pub mode: SystemMode,
}

#[derive(Debug, Clone, Copy, PartialEq, Eq)]
pub struct InternalErrorReport {
    pub raw: u32,
}

impl InternalErrorReport {
    pub fn test_info_invalid(self) -> (yes: bool)
        ensures
            yes == bit(self.raw as int, 0),
    {
        self.raw % 2 == 1
    }

    pub fn gyro_probe_failed(self) -> (yes: bool)
        ensures
            yes == bit(self.raw as int, 1),
    {
        proof {
            reveal_with_fuel(bit, 2);
        }
        self.raw / 2 % 2 == 1
    }

    pub fn bms_communication_failed(self) -> (yes: bool)
        ensures
            yes == bit(self.raw as int, 2),
    {
        proof {
            reveal_with_fuel(bit, 3);
        }
        self.raw / 2 / 2 % 2 == 1
    }

    /// Compatibility bits consumed by Linux but not set by this MCU image.
    pub fn compatibility_bits(self) -> (bits: u8)
        ensures
            bits == self.raw / 8 % 8,
    {
        (self.raw / 8 % 8) as u8
    }
}

#[derive(Debug, Clone, Copy, PartialEq, Eq)]
pub struct BlackBoxReport {
    /// Zero selects Linux internal event 0x16; nonzero selects event 0x17. Their
    /// user-facing meanings are not known.
    pub selector: u8,
    pub reserved: [u8; 3],
    pub value: u32,
}

impl BlackBoxReport {
    pub open spec fn reads(self, d: Seq<u8>) -> bool {
        &&& self.selector == d[0]
        &&& self.reserved@ == d.subrange(1, 4)
        &&& self.value == field(d, 4, 8)
    }

    /// The selector stands first, the value in the last four bytes.
    pub proof fn layout(self, d: Seq<u8>)
        requires
            d.len() == 8,
            self.reads(d),
        ensures
            self.selector == d[0],
            forall|i: int| 0 <= i < 3 ==> #[trigger] self.reserved@[i] == d[1 + i],
            self.value == bytes::quad(d, 4),
    {
        fields_weigh_their_bytes(d, 4);
    }
}

#[derive(Debug, Clone, Copy, PartialEq, Eq)]
pub struct DeviceInfoReport {
    pub bytes: [u8; 16],
}

impl DeviceInfoReport {
    pub fn record_type(self) -> (value: u8)
        ensures
            value == self.bytes@[0],
    {
        self.bytes[0]
    }

    pub fn separately_published_value(self) -> (value: u8)
        ensures
            value == self.bytes@[4],
    {
        self.bytes[4]
    }

    pub fn subtype_event_value(self) -> (value: u8)
        ensures
            value == self.bytes@[5],
    {
        self.bytes[5]
    }
}

#[derive(Debug, Clone, Copy, PartialEq, Eq)]
pub struct DockVoltageReport {
    pub millivolts: u16,
}

#[derive(Debug, Clone, Copy, PartialEq, Eq)]
pub struct BatteryCapacityReport {
    pub raw_units_of_100: u8,
    pub ignored_by_stock_linux: u8,
}

impl BatteryCapacityReport {
    /// Stock Linux publishes byte zero multiplied by 100 mAh. The resulting 5200
    /// mAh matches Roborock's official S5 Max battery specification.
    pub fn stock_scaled_value(self) -> (capacity: u16)
        ensures
            capacity == self.raw_units_of_100 * 100,
    {
        self.raw_units_of_100 as u16 * 100
    }
}

#[derive(Debug, Clone, Copy, PartialEq, Eq)]
pub struct McuTimeReport {
    pub timestamp: u64,
}

#[derive(Debug, Clone, Copy, PartialEq, Eq)]
pub struct CalibrationReport {
    pub cliff_thresholds: [u16; 4],
    pub wall_sensor_one_point: [u8; 4],
    /// An IEEE-754 bit pattern.
    pub bmi160_sensitivity: u32,
    pub bmi160_accel_offsets: [i32; 3],
}

impl CalibrationReport {
    pub open spec fn reads(self, d: Seq<u8>) -> bool {
        &&& forall|i: int|
            0 <= i < 4 ==> #[trigger] self.cliff_thresholds@[i] == field(d, 2 * i, 2 * i + 2)
        &&& self.wall_sensor_one_point@ == d.subrange(8, 12)
        &&& self.bmi160_sensitivity == field(d, 12, 16)
        &&& forall|i: int|
            0 <= i < 3 ==> #[trigger] self.bmi160_accel_offsets@[i] == signed_field(d, 16 + 4 * i)
    }

    /// Four thresholds of two bytes, four bytes of the wall sensor, the sensitivity,
    /// and three signed offsets.
    pub proof fn layout(self, d: Seq<u8>)
        requires
            d.len() == 28,
            self.reads(d),
        ensures
            forall|i: int|
                0 <= i < 4 ==> #[trigger] self.cliff_thresholds@[i] == d[2 * i] + 256 * d[2 * i + 1],
            forall|i: int| 0 <= i < 4 ==> #[trigger] self.wall_sensor_one_point@[i] == d[8 + i],
            self.bmi160_sensitivity == bytes::quad(d, 12),
            forall|i: int|
                0 <= i < 3 ==> #[trigger] self.bmi160_accel_offsets@[i] == (if d[19 + 4 * i] < 128 {
                    bytes::quad(d, 16 + 4 * i)
                } else {
                    bytes::quad(d, 16 + 4 * i) - 0x1_0000_0000
                }),
    {
        fields_weigh_their_bytes(d, 12);
        assert forall|i: int| 0 <= i < 4 implies #[trigger] self.cliff_thresholds@[i] == d[2 * i]
            + 256 * d[2 * i + 1] by {
            fields_weigh_their_bytes(d, 2 * i);
        }
        assert forall|i: int| 0 <= i < 3 implies #[trigger] self.bmi160_accel_offsets@[i] == (
        if d[19 + 4 * i] < 128 {
            bytes::quad(d, 16 + 4 * i)
        } else {
            bytes::quad(d, 16 + 4 * i) - 0x1_0000_0000
        }) by {
            fields_weigh_their_bytes(d, 16 + 4 * i);
        }
    }
}

#[derive(Debug, Clone, Copy, PartialEq, Eq)]
pub struct McuIdentityReport {
    pub jtag_device_id: u32,
    pub flash_size_register: u32,
    pub chip_signature: u32,
    pub reserved: u32,
}

impl McuIdentityReport {
    pub open spec fn reads(self, d: Seq<u8>) -> bool {
        &&& self.jtag_device_id == field(d, 0, 4)
        &&& self.flash_size_register == field(d, 4, 8)
        &&& self.chip_signature == field(d, 8, 12)
        &&& self.reserved == field(d, 12, 16)
    }

    /// Four numbers of four bytes, in the order of the fields.
    pub proof fn layout(self, d: Seq<u8>)
        requires
            d.len() == 16,
            self.reads(d),
        ensures
            self.jtag_device_id == bytes::quad(d, 0),
            self.flash_size_register == bytes::quad(d, 4),
            self.chip_signature == bytes::quad(d, 8),
            self.reserved == bytes::quad(d, 12),
    {
        fields_weigh_their_bytes(d, 0);
        fields_weigh_their_bytes(d, 4);
        fields_weigh_their_bytes(d, 8);
        fields_weigh_their_bytes(d, 12);
    }
}

/// Decoded dock-beacon pulse classes accumulated by one IR receiver.
#[derive(Debug, Clone, Copy, PartialEq, Eq)]
pub struct DockIrCodeMask(pub u8);

impl DockIrCodeMask {
    /// Firmware pulse code `0x81`, labeled `L` in receiver diagnostics.
    pub fn beacon_left(self) -> (yes: bool)
        ensures
            yes == bit(self.0 as int, 0),
    {
        self.0 % 2 == 1
    }

    /// Firmware pulse code `0x82`, labeled `R` in receiver diagnostics.
    pub fn beacon_right(self) -> (yes: bool)
        ensures
            yes == bit(self.0 as int, 1),
    {
        proof {
            reveal_with_fuel(bit, 2);
        }
        self.0 / 2 % 2 == 1
    }

    /// Firmware pulse code `0x84`; physical beacon meaning is unresolved.
    pub fn code_84(self) -> (yes: bool)
        ensures
            yes == bit(self.0 as int, 2),
    {
        proof {
            reveal_with_fuel(bit, 3);
        }
        self.0 / 2 / 2 % 2 == 1
    }

    /// Firmware pulse code `0x88`; physical beacon meaning is unresolved.
    pub fn code_88(self) -> (yes: bool)
        ensures
            yes == bit(self.0 as int, 3),
    {
        proof {
            reveal_with_fuel(bit, 4);
        }
        self.0 / 2 / 2 / 2 % 2 == 1
    }

    /// Non-one-hot majority-pattern class; physical meaning is unresolved.
    pub fn majority_pattern(self) -> (yes: bool)
        ensures
            yes == bit(self.0 as int, 4),
    {
        proof {
            reveal_with_fuel(bit, 5);
        }
        self.0 / 2 / 2 / 2 / 2 % 2 == 1
    }
}

/// Four-byte report `0x13`, built from a rolling six-entry OR history.
#[derive(Debug, Clone, Copy, PartialEq, Eq)]
pub struct DockIrReport {
    pub left_receiver: DockIrCodeMask,
    pub right_receiver: DockIrCodeMask,
    pub reserved_byte_1: u8,
    pub reserved_byte_3: u8,
}

#[derive(Debug, Clone, Copy, PartialEq, Eq)]
pub struct ReportFooter {
    pub reports_pending: bool,
    /// Increments from 1 through 255 and skips zero.
    pub sequence: u8,
}

/// The footer that the data `d` of a footer report holds.
pub open spec fn footer_of(d: Seq<u8>) -> ReportFooter {
    ReportFooter { reports_pending: d[0] != 0, sequence: d[1] }
}

/// The fixed text before the mode byte of a system-mode report.
pub open spec fn system_mode_tag() -> Seq<u8> {
    seq![115u8, 121, 115, 95, 109, 100, 0]
}

/// The message and the length of a report that has the motor layout.
pub open spec fn motor_report_length(message: u8) -> Option<u8> {
    if message == FAN_REPORT_MESSAGE {
        Some(FAN_REPORT_LENGTH)
    } else if message == BRUSH_REPORT_MESSAGE {
        Some(BRUSH_REPORT_LENGTH)
    } else if message == SWEEP_REPORT_MESSAGE {
        Some(SWEEP_REPORT_LENGTH)
    } else {
        None
    }
}

fn bytes_8(d: &[u8], at: usize) -> (all: [u8; 8])
    requires
        at + 8 <= d@.len(),
    ensures
        all@ == d@.subrange(at as int, at + 8),
{
    assert(at + 8 <= d.len());
    let all: [u8; 8] = [
        d[at],
        d[at + 1],
        d[at + 2],
        d[at + 3],
        d[at + 4],
        d[at + 5],
        d[at + 6],
        d[at + 7],
    ];
    assert(all@ =~= d@.subrange(at as int, at + 8));
    all
}

impl Frame {
    pub fn wheel_report(&self) -> (report: Option<WheelReport>)
        ensures
            if self@.message == WHEEL_REPORT_MESSAGE && self@.command == WHEEL_REPORT_LENGTH
                && self@.payload.len() >= 10 {
                report matches Some(r) && r.bytes@ == self@.payload.subrange(2, 10)
            } else {
                report is None
            },
    {
        if !self.is_wheel_report() || self.payload.len() < 2 + WHEEL_REPORT_LENGTH as usize {
            return None;
        }
        Some(WheelReport { bytes: bytes_8(self.payload.as_slice(), 2) })
    }

    /// Extracts the embedded wheel subreport from a periodic state packet.
    ///
    /// The stock firmware commonly appends reports as `[message, length,
    /// bytes...]` after the main state payload. In particular, wheel data is
    /// emitted as `51 08` followed by eight opaque bytes.
    pub fn embedded_wheel_report(&self) -> (report: Option<WheelReport>)
        ensures
            match self@.report_data(WHEEL_REPORT_MESSAGE, WHEEL_REPORT_LENGTH) {
                Some(d) => report matches Some(r) && r.bytes@ == d,
                None => report is None,
            },
            self@.report_data(0x51, 8) is Some <==> report is Some,
    {
        let data = self.embedded_report(WHEEL_REPORT_MESSAGE, WHEEL_REPORT_LENGTH)?;
        let bytes = bytes_8(data, 0);
        assert(bytes@ =~= data@);
        Some(WheelReport { bytes })
    }

    pub fn embedded_motor_report(&self, message: u8) -> (report: Option<MotorReport>)
        ensures
            match motor_report_length(message) {
                Some(length) => match self@.report_data(message, length) {
                    Some(d) => report matches Some(r) && r.reads(d),
                    None => report is None,
                },
                None => report is None,
            },
    {
        let length: u8 = match message {
            FAN_REPORT_MESSAGE => FAN_REPORT_LENGTH,
            BRUSH_REPORT_MESSAGE => BRUSH_REPORT_LENGTH,
            SWEEP_REPORT_MESSAGE => SWEEP_REPORT_LENGTH,
            _ => {
                return None;
            },
        };
        let data = self.embedded_report(message, length)?;
        MotorReport::parse(data)
    }

    pub fn battery_report(&self) -> (report: Option<BatteryReport>)
        ensures
            match self@.report_data(BATTERY_REPORT_MESSAGE, BATTERY_REPORT_LENGTH) {
                Some(d) => report matches Some(r) && r.reads(d),
                None => report is None,
            },
            self@.report_data(0x08, 10) is Some <==> report is Some,
    {
        let d = self.embedded_report(BATTERY_REPORT_MESSAGE, BATTERY_REPORT_LENGTH)?;
        let reserved: [u8; 5] = [d[5], d[6], d[7], d[8], d[9]];
        assert(reserved@ =~= d@.subrange(5, 10));
        Some(
            BatteryReport {
                voltage_mv: read_u16(d, 0),
                current_ma: read_u16(d, 2),
                state_of_charge_percent: d[4],
                reserved,
            },
        )
    }

    pub fn wall_sensor_report(&self) -> (report: Option<WallSensorReport>)
        ensures
            match self@.report_data(WALL_SENSOR_REPORT_MESSAGE, WALL_SENSOR_REPORT_LENGTH) {
                Some(d) => report matches Some(r) && r.raw_adc == field(d, 0, 2),
                None => report is None,
            },
            self@.report_data(0x42, 2) matches Some(d) ==> (report matches Some(r) && r.raw_adc == d[0]
                + 256 * d[1]),
    {
        let d = self.embedded_report(WALL_SENSOR_REPORT_MESSAGE, WALL_SENSOR_REPORT_LENGTH)?;
        proof {
            fields_weigh_their_bytes(d@, 0);
        }
        Some(WallSensorReport { raw_adc: read_u16(d, 0) })
    }

    pub fn gyro_echo_report(&self) -> (report: Option<GyroEchoReport>)
        ensures
            match self@.report_data(GYRO_ECHO_REPORT_MESSAGE, GYRO_ECHO_REPORT_LENGTH) {
                Some(d) => report matches Some(r) && r.token == d[0],
                None => report is None,
            },
            self@.report_data(0xd1, 1) matches Some(d) ==> (report matches Some(r) && r.token == d[0]),
    {
        let d = self.embedded_report(GYRO_ECHO_REPORT_MESSAGE, GYRO_ECHO_REPORT_LENGTH)?;
        Some(GyroEchoReport { token: d[0] })
    }

    pub fn system_mode_report(&self) -> (report: Option<SystemModeReport>)
        ensures
            match self@.report_data(SYSTEM_MODE_REPORT_MESSAGE, SYSTEM_MODE_REPORT_LENGTH) {
                Some(d) => if d.take(7) == system_mode_tag() {
                    report matches Some(r) && r.mode.wire() == d[7] && (r.mode is Unknown
                        <==> !SystemMode::named(d[7]))
                } else {
                    report is None
                },
                None => report is None,
            },
    {
        let d = self.embedded_report(SYSTEM_MODE_REPORT_MESSAGE, SYSTEM_MODE_REPORT_LENGTH)?;
        let tag: [u8; 7] = [115, 121, 115, 95, 109, 100, 0];
        assert(tag@ =~= system_mode_tag());
        assert(d@.subrange(0, 7) =~= d@.take(7));
        if same_bytes(&d[0..7], &tag) {
            Some(SystemModeReport { mode: SystemMode::from_wire(d[7]) })
        } else {
            None
        }
    }

    pub fn internal_error_report(&self) -> (report: Option<InternalErrorReport>)
        ensures
            match self@.report_data(INTERNAL_ERROR_REPORT_MESSAGE, INTERNAL_ERROR_REPORT_LENGTH) {
                Some(d) => report matches Some(r) && r.raw == field(d, 0, 4),
                None => report is None,
            },
            self@.report_data(0x04, 4) matches Some(d) ==> (report matches Some(r) && r.raw
                == bytes::quad(d, 0)),
    {
        let d = self.embedded_report(INTERNAL_ERROR_REPORT_MESSAGE, INTERNAL_ERROR_REPORT_LENGTH)?;
        proof {
            fields_weigh_their_bytes(d@, 0);
        }
        Some(InternalErrorReport { raw: read_u32(d, 0) })
    }

    pub fn black_box_report(&self) -> (report: Option<BlackBoxReport>)
        ensures
            match self@.report_data(BLACK_BOX_REPORT_MESSAGE, BLACK_BOX_REPORT_LENGTH) {
                Some(d) => report matches Some(r) && r.reads(d),
                None => report is None,
            },
            self@.report_data(0x0b, 8) is Some <==> report is Some,
    {
        let d = self.embedded_report(BLACK_BOX_REPORT_MESSAGE, BLACK_BOX_REPORT_LENGTH)?;
        let reserved: [u8; 3] = [d[1], d[2], d[3]];
        assert(reserved@ =~= d@.subrange(1, 4));
        Some(BlackBoxReport { selector: d[0], reserved, value: read_u32(d, 4) })
    }

    pub fn device_info_report(&self) -> (report: Option<DeviceInfoReport>)
        ensures
            match self@.report_data(DEVICE_INFO_REPORT_MESSAGE, DEVICE_INFO_REPORT_LENGTH) {
                Some(d) => report matches Some(r) && r.bytes@ == d,
                None => report is None,
            },
            self@.report_data(0x0d, 16) is Some <==> report is Some,
    {
        let d = self.embedded_report(DEVICE_INFO_REPORT_MESSAGE, DEVICE_INFO_REPORT_LENGTH)?;
        let bytes: [u8; 16] = [
            d[0],
            d[1],
            d[2],
            d[3],
            d[4],
            d[5],
            d[6],
            d[7],
            d[8],
            d[9],
            d[10],
            d[11],
            d[12],
            d[13],
            d[14],
            d[15],
        ];
        assert(bytes@ =~= d@);
        Some(DeviceInfoReport { bytes })
    }

    pub fn dock_voltage_report(&self) -> (report: Option<DockVoltageReport>)
        ensures
            match self@.report_data(DOCK_VOLTAGE_REPORT_MESSAGE, DOCK_VOLTAGE_REPORT_LENGTH) {
                Some(d) => report matches Some(r) && r.millivolts == field(d, 0, 2),
                None => report is None,
            },
            self@.report_data(0x0f, 2) matches Some(d) ==> (report matches Some(r) && r.millivolts
                == d[0] + 256 * d[1]),
    {
        let d = self.embedded_report(DOCK_VOLTAGE_REPORT_MESSAGE, DOCK_VOLTAGE_REPORT_LENGTH)?;
        proof {
            fields_weigh_their_bytes(d@, 0);
        }
        Some(DockVoltageReport { millivolts: read_u16(d, 0) })
    }

    pub fn battery_capacity_report(&self) -> (report: Option<BatteryCapacityReport>)
        ensures
            match self@.report_data(
                BATTERY_CAPACITY_REPORT_MESSAGE,
                BATTERY_CAPACITY_REPORT_LENGTH,
            ) {
                Some(d) => report == Some(
                    BatteryCapacityReport { raw_units_of_100: d[0], ignored_by_stock_linux: d[1] },
                ),
                None => report is None,
            },
            self@.report_data(0x16, 2) matches Some(d) ==> (report matches Some(r)
                && r.raw_units_of_100 == d[0] && r.ignored_by_stock_linux == d[1]),
    {
        let d = self.embedded_report(
            BATTERY_CAPACITY_REPORT_MESSAGE,
            BATTERY_CAPACITY_REPORT_LENGTH,
        )?;
        Some(BatteryCapacityReport { raw_units_of_100: d[0], ignored_by_stock_linux: d[1] })
    }

    pub fn mcu_time_report(&self) -> (report: Option<McuTimeReport>)
        ensures
            match self@.report_data(MCU_TIME_REPORT_MESSAGE, MCU_TIME_REPORT_LENGTH) {
                Some(d) => report matches Some(r) && r.timestamp == field(d, 0, 8),
                None => report is None,
            },
            self@.report_data(0xd2, 8) matches Some(d) ==> (report matches Some(r) && r.timestamp
                == bytes::quad(d, 0) + 0x1_0000_0000 * bytes::quad(d, 4)),
    {
        let d = self.embedded_report(MCU_TIME_REPORT_MESSAGE, MCU_TIME_REPORT_LENGTH)?;
        proof {
            fields_weigh_their_bytes(d@, 0);
        }
        Some(McuTimeReport { timestamp: read_u64(d, 0) })
    }

    pub fn calibration_report(&self) -> (report: Option<CalibrationReport>)
        ensures
            match self@.report_data(CALIBRATION_REPORT_MESSAGE, CALIBRATION_REPORT_LENGTH) {
                Some(d) => report matches Some(r) && r.reads(d),
                None => report is None,
            },
            self@.report_data(0xd5, 28) is Some <==> report is Some,
    {
        let d = self.embedded_report(CALIBRATION_REPORT_MESSAGE, CALIBRATION_REPORT_LENGTH)?;
        let cliff_thresholds: [u16; 4] = [
            read_u16(d, 0),
            read_u16(d, 2),
            read_u16(d, 4),
            read_u16(d, 6),
        ];
        let wall_sensor_one_point: [u8; 4] = [d[8], d[9], d[10], d[11]];
        assert(wall_sensor_one_point@ =~= d@.subrange(8, 12));
        let bmi160_sensitivity = read_u32(d, 12);
        let bmi160_accel_offsets: [i32; 3] = [read_i32(d, 16), read_i32(d, 20), read_i32(d, 24)];
        Some(
            CalibrationReport {
                cliff_thresholds,
                wall_sensor_one_point,
                bmi160_sensitivity,
                bmi160_accel_offsets,
            },
        )
    }

    pub fn mcu_identity_report(&self) -> (report: Option<McuIdentityReport>)
        ensures
            match self@.report_data(MCU_IDENTITY_REPORT_MESSAGE, MCU_IDENTITY_REPORT_LENGTH) {
                Some(d) => report matches Some(r) && r.reads(d),
                None => report is None,
            },
            self@.report_data(0xf1, 16) is Some <==> report is Some,
    {
        let d = self.embedded_report(MCU_IDENTITY_REPORT_MESSAGE, MCU_IDENTITY_REPORT_LENGTH)?;
        Some(
            McuIdentityReport {
                jtag_device_id: read_u32(d, 0),
                flash_size_register: read_u32(d, 4),
                chip_signature: read_u32(d, 8),
                reserved: read_u32(d, 12),
            },
        )
    }

    /// The text body of variable-length report `0xf6` up to its NUL.
    pub fn status_string_report(&self) -> (text: Option<&[u8]>)
        ensures
            match packet::first_report(self@.reports(), STATUS_STRING_REPORT_MESSAGE) {
                Some(r) => match bytes::first_byte(r.data, 0) {
                    Some(nul) => text matches Some(t) && t@ == r.data.take(nul),
                    None => text is None,
                },
                None => text is None,
            },
    {
        let report = self.report(STATUS_STRING_REPORT_MESSAGE)?;
        let data: &[u8] = report.data;
        let nul = find_byte(data, 0)?;
        let text: &[u8] = &data[0..nul];
        assert(text@ =~= data@.take(nul as int));
        Some(text)
    }

    pub fn dock_ir_report(&self) -> (report: Option<DockIrReport>)
        ensures
            match self@.report_data(DOCK_IR_REPORT_MESSAGE, DOCK_IR_REPORT_LENGTH) {
                Some(d) => report == Some(
                    DockIrReport {
                        left_receiver: DockIrCodeMask(d[0]),
                        right_receiver: DockIrCodeMask(d[2]),
                        reserved_byte_1: d[1],
                        reserved_byte_3: d[3],
                    },
                ),
                None => report is None,
            },
            self@.report_data(0x13, 4) matches Some(d) ==> (report matches Some(r) && r.left_receiver.0
                == d[0] && r.right_receiver.0 == d[2] && r.reserved_byte_1 == d[1]
                && r.reserved_byte_3 == d[3]),
    {
        let d = self.embedded_report(DOCK_IR_REPORT_MESSAGE, DOCK_IR_REPORT_LENGTH)?;
        Some(
            DockIrReport {
                left_receiver: DockIrCodeMask(d[0]),
                reserved_byte_1: d[1],
                right_receiver: DockIrCodeMask(d[2]),
                reserved_byte_3: d[3],
            },
        )
    }

    pub fn report_footer(&self) -> (footer: Option<ReportFooter>)
        ensures
            footer == (match self@.report_data(REPORT_FOOTER_MESSAGE, REPORT_FOOTER_LENGTH) {
                Some(d) => Some(footer_of(d)),
                None => None,
            }),
            self@.report_data(0xd0, 2) matches Some(d) ==> (footer matches Some(f) && (
            f.reports_pending <==> d[0] != 0) && f.sequence == d[1]),
    {
        let d = self.embedded_report(REPORT_FOOTER_MESSAGE, REPORT_FOOTER_LENGTH)?;
        Some(ReportFooter { reports_pending: d[0] != 0, sequence: d[1] })
    }

    pub fn imu_state(&self) -> (imu: Option<ImuState>)
        ensures
            if self@.is_state() && self@.payload.len() >= 42 {
                imu matches Some(s) && s.reads(self@.payload)
            } else {
                imu is None
            },
    {
        if !self.is_state_report() || self.payload.len() < 42 {
            return None;
        }
        let p: &[u8] = self.payload.as_slice();
        Some(
            ImuState {
                acceleration: [read_u32(p, 2), read_u32(p, 6), read_u32(p, 10)],
                angular_rate: [read_u32(p, 14), read_u32(p, 18), read_u32(p, 22)],
                quaternion: [read_u32(p, 26), read_u32(p, 30), read_u32(p, 34), read_u32(p, 38)],
            },
        )
    }

    pub fn state_report(&self) -> (report: Option<StateReport>)
        ensures
            if self@.is_state() && self@.payload.len() >= STATE_BASE_LENGTH {
                report matches Some(s) && s.reads(self@.payload)
            } else {
                report is None
            },
    {
        if !self.is_state_report() || self.payload.len() < STATE_BASE_LENGTH {
            return None;
        }
        let imu = self.imu_state()?;
        let p: &[u8] = self.payload.as_slice();
        Some(
            StateReport {
                imu,
                left_odometry_ticks: read_i32(p, 42),
                right_odometry_ticks: read_i32(p, 46),
                forward_motion: read_u32(p, 50),
                reserved: read_u32(p, 54),
                mcu_timestamp_ms: read_u64(p, 58),
            },
        )
    }
}

} // verus!
