//! Pure commands from the application processor to the MCU.
//!
//! These functions only build wire bytes. They never open a device or transmit a
//! command, which keeps active hardware behavior behind an explicit owner.

use crate::bytes;
use crate::bytes::append_bytes;
use crate::bytes::write_u32;
use crate::crc;
use crate::decoder;
use crate::frame;
use crate::frame::encode_binary_frame;
use crate::ieee;
use crate::ieee::is_finite;
use crate::packet;
use crate::reports;
use crate::text;
use crate::text::decimal_text;
use crate::text::hexadecimal_text;
use crate::text::join;
use crate::text::join3;
use vstd::arithmetic::power2::*;
use vstd::prelude::*;

verus! {

pub const QUERY_MCU_VERSION: u8 = 0x80;

pub const SYNC_SENSOR_STATUS: u8 = 0x82;

pub const QUERY_DEVICE_INFO: u8 = 0x88;

pub const QUERY_CURRENT_ERRORS: u8 = 0x8c;

pub const QUERY_BATTERY_CAPACITY: u8 = 0x8f;

pub const SYSTEM_MODE_COMMAND: u8 = 0xb0;

pub const SUBSYSTEM_STATE_COMMAND: u8 = 0xb1;

pub const CHARGER_COMMAND: u8 = 0xb7;

pub const WATER_PUMP_COMMAND: u8 = 0xbf;

pub const WHEEL_COMMAND: u8 = 0xc0;

pub const FAN_COMMAND: u8 = 0xc1;

pub const MAIN_BRUSH_COMMAND: u8 = 0xc3;

pub const SIDE_BRUSH_COMMAND: u8 = 0xc4;

pub const ACK_REPORT: u8 = 0xd1;

pub const HEARTBEAT: u8 = 0xd3;

pub const MAIN_BRUSH_SUBSYSTEM: u32 = 0x00080;

pub const SIDE_BRUSH_SUBSYSTEM: u32 = 0x00100;

pub const FAN_SUBSYSTEM: u32 = 0x00200;

pub const WHEEL_ODOMETRY_SUBSYSTEM: u32 = 0x00400;

/// The subsystems of the stock operational transition, in its order.
pub const OPERATIONAL_SUBSYSTEMS: [u32; 14] = [
    0x00002,  // bumper
    0x00004,  // compatibility hook used by the stock operational transition
    0x00008,  // cliff sensors
    0x00020,  // drop/lift sensors
    0x00040,  // dustbin sensor
    0x00080,  // main brush
    0x00100,  // side brush
    0x00200,  // fan
    0x00400,  // wheel odometry
    0x00800,  // gyro
    0x02000,  // dock IR receivers
    0x04000,  // water-box sensor
    0x08000,  // water pump
    0x20000,  // light-touch/wall sensor
];

const AP_ENVELOPE_MESSAGE: u8 = 0xd0;

const AP_ENVELOPE_COMMAND: u8 = 0x02;

/// The sequence after `previous`: zero is left out.
pub open spec fn sequence_after(previous: u8) -> u8 {
    if previous == 255 {
        1
    } else {
        (previous + 1) as u8
    }
}

/// The sequence `steps` sends later.
pub open spec fn sequence_later(first: u8, steps: nat) -> u8
    decreases steps,
{
    if steps == 0 {
        first
    } else {
        sequence_after(sequence_later(first, (steps - 1) as nat))
    }
}

/// Increment the transmit counter while preserving zero as a reserved value.
///
/// A takeover must continue the stock counter. Replaying a stale sequence is
/// silently ignored by the MCU.
pub fn next_tx_sequence(previous: u8) -> (next: u8)
    ensures
        next == sequence_after(previous),
        next != 0,
{
    if previous == 255 {
        1
    } else {
        previous + 1
    }
}

/// The sequence never uses zero, and comes round after 255 sends.
pub proof fn sequence_cycle(first: u8, steps: nat)
    requires
        first != 0,
    ensures
        sequence_later(first, steps) != 0,
        sequence_later(first, steps) as int == 1 + (first - 1 + steps) % 255,
        steps % 255 == 0 <==> sequence_later(first, steps) == first,
    decreases steps,
{
    if steps > 0 {
        sequence_cycle(first, (steps - 1) as nat);
    }
}

/// The payload that carries a command: the envelope with the acknowledgement
/// request and the sequence, then the command with its data.
pub open spec fn envelope(sequence: u8, command: u8, request_ack: bool, data: Seq<u8>) -> Seq<u8> {
    seq![
        0xd0u8,
        0x02u8,
        if request_ack {
            1u8
        } else {
            0u8
        },
        sequence,
        command,
        data.len() as u8,
    ] + data
}

/// The outcome of encoding a command.
pub open spec fn command_encodes(
    sequence: u8,
    command: u8,
    request_ack: bool,
    data: Seq<u8>,
    result: Result<Vec<u8>, String>,
) -> bool {
    if sequence == 0 {
        result matches Err(said) && said@ == "MCU envelope sequence zero is reserved"@
    } else if data.len() > 255 {
        result matches Err(said) && said@ == "command 0x"@ + text::hexadecimal(command as nat, 2)
            + " data is too long: "@ + text::decimal(data.len()) + " bytes"@
    } else {
        frame::encodes_to(envelope(sequence, command, request_ack, data), result)
    }
}

/// A command as it arrives at the MCU.
pub struct Delivery {
    pub sequence: u8,
    pub wants_ack: bool,
    pub command: u8,
    pub data: Seq<u8>,
}

/// The command that a receiver decodes from `wire`: these bytes are one frame with a
/// valid checksum and nothing else, and the frame holds a `d0` report with the
/// acknowledgement request and the sequence, then one report more.
pub open spec fn delivered(wire: Seq<u8>) -> Option<Delivery> {
    let (frames, rest) = decoder::decoded(wire);
    let reports = frames[0].reports();
    if frames.len() == 1 && rest.len() == 0 && frames[0].crc_valid && !frames[0].is_log
        && reports.len() == 2 && reports[0].message == 0xd0 && reports[0].data.len() == 2
        && reports[0].data[0] <= 1 {
        Some(
            Delivery {
                sequence: reports[0].data[1],
                wants_ack: reports[0].data[0] == 1,
                command: reports[1].message,
                data: reports[1].data,
            },
        )
    } else {
        None
    }
}

/// Whoever decodes an encoded command gets what it was made from.
pub proof fn encoding_is_delivered(
    sequence: u8,
    command: u8,
    request_ack: bool,
    data: Seq<u8>,
    raw: Vec<u8>,
)
    requires
        command_encodes(sequence, command, request_ack, data, Ok::<Vec<u8>, String>(raw)),
    ensures
        delivered(raw@) == Some(Delivery { sequence, wants_ack: request_ack, command, data }),
{
    let none = Seq::<u8>::empty();
    command_reads_back(none, sequence, command, request_ack, data, raw, none);
    assert(none + raw@ + none =~= raw@);
    assert(decoder::decoded(none).0.len() == 0 && decoder::decoded(none).1.len() == 0);
}

/// The MCU gets `command` with a sequence and an acknowledgement request.
pub open spec fn arrives(wire: Seq<u8>, sequence: u8, command: u8, wants_ack: bool) -> bool {
    delivered(wire) matches Some(d) && d.sequence == sequence && d.command == command
        && d.wants_ack == wants_ack
}

/// The data that arrives with the command in `wire`.
pub open spec fn data_in(wire: Seq<u8>) -> Seq<u8> {
    delivered(wire)->0.data
}

/// Encode a generic command envelope.
pub fn command_frame(sequence: u8, command: u8, request_ack: bool, data: &[u8]) -> (result: Result<
    Vec<u8>,
    String,
>)
    ensures
        command_encodes(sequence, command, request_ack, data@, result),
        result is Ok <==> sequence != 0 && data@.len() <= 249,
        result matches Ok(wire) ==> arrives(wire@, sequence, command, request_ack) && data_in(wire@)
            == data@,
{
    if sequence == 0 {
        return Err("MCU envelope sequence zero is reserved".to_string());
    }
    if data.len() > 255 {
        let code = hexadecimal_text(command as u64, 2);
        let length = decimal_text(data.len() as u64);
        let start = join3("command 0x", code.as_str(), " data is too long: ");
        return Err(join3(start.as_str(), length.as_str(), " bytes"));
    }
    let ack: u8 = if request_ack {
        1
    } else {
        0
    };
    let mut payload: Vec<u8> = Vec::new();
    payload.push(AP_ENVELOPE_MESSAGE);
    payload.push(AP_ENVELOPE_COMMAND);
    payload.push(ack);
    payload.push(sequence);
    payload.push(command);
    payload.push(data.len() as u8);
    append_bytes(&mut payload, data);
    proof {
        assert(payload@ =~= envelope(sequence, command, request_ack, data@));
        envelope_fits(sequence, command, request_ack, data@);
    }
    let result = encode_binary_frame(payload.as_slice());
    proof {
        if result is Ok {
            let wire = result->Ok_0;
            encoding_is_delivered(sequence, command, request_ack, data@, wire);
        }
    }
    result
}

/// An envelope has a wire form exactly where its length fits in one byte: its
/// first three bytes are never escaped.
pub proof fn envelope_fits(sequence: u8, command: u8, request_ack: bool, data: Seq<u8>)
    ensures
        frame::encodable(envelope(sequence, command, request_ack, data)) <==> data.len() <= 249,
{
    let payload = envelope(sequence, command, request_ack, data);
    let whole = frame::sealed(payload);
    let head = whole.take(3);
    let rest = whole.skip(3);
    assert(whole =~= head + rest);
    frame::escaped_concat(head, rest);
    frame::escaped_length(rest);
    reveal_with_fuel(frame::expansions, 4);
    assert(frame::expansions(head) == 0);
}

/// Encode a command with no data body.
pub fn query_frame(sequence: u8, command: u8, request_ack: bool) -> (result: Result<
    Vec<u8>,
    String,
>)
    ensures
        command_encodes(sequence, command, request_ack, Seq::empty(), result),
        result is Ok <==> sequence != 0,
        result matches Ok(wire) ==> arrives(wire@, sequence, command, request_ack)
            && data_in(wire@).len() == 0,
{
    let data: [u8; 0] = [];
    assert(data@ =~= Seq::<u8>::empty());
    command_frame(sequence, command, request_ack, &data)
}

pub fn mcu_version_query_frame(sequence: u8) -> (result: Result<Vec<u8>, String>)
    ensures
        command_encodes(sequence, QUERY_MCU_VERSION, false, Seq::empty(), result),
        result is Ok <==> sequence != 0,
        result matches Ok(wire) ==> arrives(wire@, sequence, 0x80, false)
            && data_in(wire@).len() == 0,
{
    query_frame(sequence, QUERY_MCU_VERSION, false)
}

pub fn device_info_query_frame(sequence: u8) -> (result: Result<Vec<u8>, String>)
    ensures
        command_encodes(sequence, QUERY_DEVICE_INFO, false, Seq::empty(), result),
        result is Ok <==> sequence != 0,
        result matches Ok(wire) ==> arrives(wire@, sequence, 0x88, false)
            && data_in(wire@).len() == 0,
{
    query_frame(sequence, QUERY_DEVICE_INFO, false)
}

pub fn battery_capacity_query_frame(sequence: u8) -> (result: Result<Vec<u8>, String>)
    ensures
        command_encodes(sequence, QUERY_BATTERY_CAPACITY, false, Seq::empty(), result),
        result is Ok <==> sequence != 0,
        result matches Ok(wire) ==> arrives(wire@, sequence, 0x8f, false)
            && data_in(wire@).len() == 0,
{
    query_frame(sequence, QUERY_BATTERY_CAPACITY, false)
}

pub fn current_errors_query_frame(sequence: u8) -> (result: Result<Vec<u8>, String>)
    ensures
        command_encodes(sequence, QUERY_CURRENT_ERRORS, true, Seq::empty(), result),
        result is Ok <==> sequence != 0,
        result matches Ok(wire) ==> arrives(wire@, sequence, 0x8c, true)
            && data_in(wire@).len() == 0,
{
    query_frame(sequence, QUERY_CURRENT_ERRORS, true)
}

/// Encode the periodically refreshed water-pump interval command.
pub fn water_pump_command_frame(sequence: u8, on_interval: u8, off_interval: u8) -> (result: Result<
    Vec<u8>,
    String,
>)
    ensures
        command_encodes(
            sequence,
            WATER_PUMP_COMMAND,
            false,
            seq![on_interval, off_interval],
            result,
        ),
        result is Ok <==> sequence != 0,
        result matches Ok(wire) ==> arrives(wire@, sequence, 0xbf, false) && data_in(wire@).len()
            == 2 && data_in(wire@)[0] == on_interval && data_in(wire@)[1] == off_interval,
{
    let data: [u8; 2] = [on_interval, off_interval];
    assert(data@ =~= seq![on_interval, off_interval]);
    command_frame(sequence, WATER_PUMP_COMMAND, false, &data)
}

pub fn sensor_sync_query_frame(sequence: u8) -> (result: Result<Vec<u8>, String>)
    ensures
        command_encodes(sequence, SYNC_SENSOR_STATUS, true, Seq::empty(), result),
        result is Ok <==> sequence != 0,
        result matches Ok(wire) ==> arrives(wire@, sequence, 0x82, true)
            && data_in(wire@).len() == 0,
{
    query_frame(sequence, SYNC_SENSOR_STATUS, true)
}

/// Request an MCU system/power mode transition.
///
/// Mode zero is the stock normal/awake state. The MCU confirms this command with a
/// `0x02` system-mode report, which the session acknowledges through the normal
/// incoming-report path.
pub fn system_mode_command_frame(sequence: u8, mode: u8) -> (result: Result<Vec<u8>, String>)
    ensures
        command_encodes(
            sequence,
            SYSTEM_MODE_COMMAND,
            false,
            reports::system_mode_tag().push(mode),
            result,
        ),
        result is Ok <==> sequence != 0,
        result matches Ok(wire) ==> arrives(wire@, sequence, 0xb0, false) && data_in(wire@)
            == seq![0x73u8, 0x79, 0x73, 0x5f, 0x6d, 0x64, 0, mode],
{
    let data: [u8; 8] = [115, 121, 115, 95, 109, 100, 0, mode];
    assert(data@ =~= reports::system_mode_tag().push(mode));
    command_frame(sequence, SYSTEM_MODE_COMMAND, false, &data)
}

/// `selector` selects one subsystem: one bit of it is set, and not the lowest.
pub open spec fn selects_subsystem(selector: u32) -> bool {
    exists|k: nat| 1 <= k < 32 && selector == #[trigger] pow2(k)
}

/// Whether `selector` selects one subsystem.
fn is_selector(selector: u32) -> (yes: bool)
    ensures
        yes == selects_subsystem(selector),
{
    let mut power: u64 = 2;
    let mut k: u8 = 1;
    proof {
        lemma2_to64();
    }
    while k < 32
        invariant
            1 <= k <= 32,
            power == pow2(k as nat),
            k < 32 ==> power <= 0x8000_0000,
            forall|j: nat| 1 <= j < k ==> selector != #[trigger] pow2(j),
        decreases 32 - k,
    {
        if selector as u64 == power {
            return true;
        }
        proof {
            lemma_pow2_unfold((k + 1) as nat);
            lemma2_to64();
            if k + 1 < 32 {
                lemma_pow2_strictly_increases((k + 1) as nat, 32);
                if k + 1 < 31 {
                    lemma_pow2_strictly_increases((k + 1) as nat, 31);
                }
            }
        }
        power = power * 2;
        k += 1;
    }
    false
}

/// What is said of a selector that selects no subsystem.
pub open spec fn selector_error(selector: u32) -> Seq<char> {
    "invalid MCU subsystem selector 0x"@ + text::hexadecimal(selector as nat, 8)
}

/// The data of a subsystem command: the selector with the state in bit zero.
pub open spec fn subsystem_data(selector: u32, enabled: bool) -> Seq<u8> {
    bytes::le_bytes(
        (selector + if enabled {
            1int
        } else {
            0int
        }) as nat,
        4,
    )
}

/// Enable or disable one MCU subsystem using the stock `b1/len4` bit selector.
pub fn subsystem_state_frame(sequence: u8, selector: u32, enabled: bool) -> (result: Result<
    Vec<u8>,
    String,
>)
    ensures
        if selects_subsystem(selector) {
            command_encodes(
                sequence,
                SUBSYSTEM_STATE_COMMAND,
                true,
                subsystem_data(selector, enabled),
                result,
            )
        } else {
            result matches Err(said) && said@ == selector_error(selector)
        },
        result is Ok <==> selects_subsystem(selector) && sequence != 0,
        result matches Ok(wire) ==> arrives(wire@, sequence, 0xb1, true) && data_in(wire@).len()
            == 4 && bytes::quad(data_in(wire@), 0) == selector + if enabled {
            1int
        } else {
            0int
        },
{
    if !is_selector(selector) {
        let code = hexadecimal_text(selector as u64, 8);
        return Err(join("invalid MCU subsystem selector 0x", code.as_str()));
    }
    proof {
        let k = choose|k: nat| 1 <= k < 32 && selector == #[trigger] pow2(k);
        lemma2_to64();
        if k < 31 {
            lemma_pow2_strictly_increases(k, 31);
        }
    }
    let state: u32 = if enabled {
        selector + 1
    } else {
        selector
    };
    let data = write_u32(state);
    let result = command_frame(sequence, SUBSYSTEM_STATE_COMMAND, true, &data);
    proof {
        if result is Ok {
            let wire = result->Ok_0;
            subsystem_selector_arrives(sequence, selector, enabled, wire);
        }
    }
    result
}

/// Enable or disable the dock charging path.
pub fn charger_command_frame(sequence: u8, enabled: bool) -> (result: Result<Vec<u8>, String>)
    ensures
        command_encodes(
            sequence,
            CHARGER_COMMAND,
            true,
            seq![
                if enabled {
                    1u8
                } else {
                    0u8
                },
            ],
            result,
        ),
        result is Ok <==> sequence != 0,
        result matches Ok(wire) ==> arrives(wire@, sequence, 0xb7, true) && data_in(wire@).len()
            == 1 && (enabled ==> data_in(wire@)[0] == 1) && (!enabled ==> data_in(wire@)[0] == 0),
{
    let state: u8 = if enabled {
        1
    } else {
        0
    };
    let data: [u8; 1] = [state];
    assert(data@ =~= seq![state]);
    command_frame(sequence, CHARGER_COMMAND, true, &data)
}

/// The data of a wheel command: two IEEE-754 values and the override.
pub open spec fn wheel_data(linear: u32, angular: u32, forced: bool) -> Seq<u8> {
    bytes::le_bytes(linear as nat, 4) + bytes::le_bytes(angular as nat, 4) + bytes::le_bytes(
        if forced {
            1
        } else {
            0
        },
        4,
    )
}

/// The outcome of encoding a wheel command.
pub open spec fn wheel_command_encodes(
    sequence: u8,
    linear: u32,
    angular: u32,
    forced: bool,
    result: Result<Vec<u8>, String>,
) -> bool {
    if !ieee::finite(linear) || !ieee::finite(angular) {
        result matches Err(said) && said@ == "wheel targets must be finite"@
    } else {
        command_encodes(
            sequence,
            WHEEL_COMMAND,
            false,
            wheel_data(linear, angular, forced),
            result,
        )
    }
}

/// Decoded, `wire` is a `c0` report of twelve bytes: the linear target, then the
/// angular one, then the override, each a 32-bit number, least significant byte
/// first. The MCU is not asked to acknowledge it.
pub open spec fn steers(
    wire: Seq<u8>,
    sequence: u8,
    linear: u32,
    angular: u32,
    forced: bool,
) -> bool {
    let d = data_in(wire);
    &&& arrives(wire, sequence, 0xc0, false)
    &&& d.len() == 12
    &&& d[0] + 0x100 * d[1] + 0x1_0000 * d[2] + 0x100_0000 * d[3] == linear
    &&& d[4] + 0x100 * d[5] + 0x1_0000 * d[6] + 0x100_0000 * d[7] == angular
    &&& d[8] == if forced {
        1u8
    } else {
        0u8
    }
    &&& d[9] == 0 && d[10] == 0 && d[11] == 0
}

/// An encoded wheel command, once decoded, holds the linear target in its first
/// four data bytes, the angular one in the next four, and one or zero in the last
/// four, by whether it overrides.
pub proof fn wheel_targets_keep_their_places(
    sequence: u8,
    linear: u32,
    angular: u32,
    forced: bool,
    raw: Vec<u8>,
)
    requires
        wheel_command_encodes(sequence, linear, angular, forced, Ok::<Vec<u8>, String>(raw)),
    ensures
        steers(raw@, sequence, linear, angular, forced),
        reports::field(data_in(raw@), 0, 4) == linear,
        reports::field(data_in(raw@), 4, 8) == angular,
        reports::field(data_in(raw@), 8, 12) == if forced {
            1int
        } else {
            0int
        },
{
    let d = wheel_data(linear, angular, forced);
    encoding_is_delivered(sequence, WHEEL_COMMAND, false, d, raw);
    let over: nat = if forced {
        1
    } else {
        0
    };
    bytes::le_bytes_make_quad(linear as nat);
    bytes::le_bytes_make_quad(angular as nat);
    bytes::le_bytes_make_quad(over);
    let first = bytes::le_bytes(linear as nat, 4);
    let second = bytes::le_bytes(angular as nat, 4);
    let third = bytes::le_bytes(over, 4);
    assert(d.len() == 12);
    assert(d[0] == first[0] && d[1] == first[1] && d[2] == first[2] && d[3] == first[3]);
    assert(d[4] == second[0] && d[5] == second[1] && d[6] == second[2] && d[7] == second[3]);
    assert(d[8] == third[0] && d[9] == third[1] && d[10] == third[2] && d[11] == third[3]);
    bytes::le_value_4(d, 0);
    bytes::le_value_4(d, 4);
    bytes::le_value_4(d, 8);
}

/// An encoded subsystem command, once decoded, is the selector, with bit zero set
/// exactly where the subsystem is switched on.
pub proof fn subsystem_selector_arrives(
    sequence: u8,
    selector: u32,
    enabled: bool,
    raw: Vec<u8>,
)
    requires
        selects_subsystem(selector),
        command_encodes(
            sequence,
            SUBSYSTEM_STATE_COMMAND,
            true,
            subsystem_data(selector, enabled),
            Ok::<Vec<u8>, String>(raw),
        ),
    ensures
        arrives(raw@, sequence, 0xb1, true),
        data_in(raw@).len() == 4,
        selector % 2 == 0,
        bytes::quad(data_in(raw@), 0) == selector + if enabled {
            1int
        } else {
            0int
        },
{
    let k = choose|k: nat| 1 <= k < 32 && selector == #[trigger] pow2(k);
    lemma2_to64();
    if k < 31 {
        lemma_pow2_strictly_increases(k, 31);
    }
    lemma_pow2_unfold(k);
    let on: int = if enabled {
        1
    } else {
        0
    };
    encoding_is_delivered(
        sequence,
        SUBSYSTEM_STATE_COMMAND,
        true,
        subsystem_data(selector, enabled),
        raw,
    );
    bytes::le_bytes_make_quad((selector + on) as nat);
}

/// Encode the stock `c0/len12` differential-drive target. The targets are IEEE-754
/// bit patterns.
pub fn wheel_command_frame(
    sequence: u8,
    linear_target: u32,
    angular_target: u32,
    forced: bool,
) -> (result: Result<Vec<u8>, String>)
    ensures
        wheel_command_encodes(sequence, linear_target, angular_target, forced, result),
        result is Ok <==> sequence != 0 && ieee::finite(linear_target) && ieee::finite(
            angular_target,
        ),
        result matches Ok(wire) ==> steers(wire@, sequence, linear_target, angular_target, forced),
{
    if !is_finite(linear_target) || !is_finite(angular_target) {
        return Err("wheel targets must be finite".to_string());
    }
    let linear = write_u32(linear_target);
    let angular = write_u32(angular_target);
    let over: u32 = if forced {
        1
    } else {
        0
    };
    let forced_word = write_u32(over);
    let mut data: Vec<u8> = Vec::new();
    append_bytes(&mut data, &linear);
    append_bytes(&mut data, &angular);
    append_bytes(&mut data, &forced_word);
    assert(data@ =~= wheel_data(linear_target, angular_target, forced));
    let result = command_frame(sequence, WHEEL_COMMAND, false, data.as_slice());
    proof {
        if result is Ok {
            let wire = result->Ok_0;
            wheel_targets_keep_their_places(
                sequence,
                linear_target,
                angular_target,
                forced,
                wire,
            );
        }
    }
    result
}

/// Encode the stock `c1/len2` fan target.
pub fn fan_command_frame(sequence: u8, target: u8) -> (result: Result<Vec<u8>, String>)
    ensures
        command_encodes(sequence, FAN_COMMAND, true, seq![target, 0u8], result),
        result is Ok <==> sequence != 0,
        result matches Ok(wire) ==> arrives(wire@, sequence, 0xc1, true) && data_in(wire@).len()
            == 2 && data_in(wire@)[0] == target && data_in(wire@)[1] == 0,
{
    let data: [u8; 2] = [target, 0];
    assert(data@ =~= seq![target, 0u8]);
    command_frame(sequence, FAN_COMMAND, true, &data)
}

/// A brush target with its flag.
pub open spec fn brush_data(target: u8, flag: bool) -> Seq<u8> {
    seq![
        target,
        if flag {
            1u8
        } else {
            0u8
        },
    ]
}

/// Encode the stock `c3/len2` main-brush target.
pub fn main_brush_command_frame(sequence: u8, target: u8, force_start: bool) -> (result: Result<
    Vec<u8>,
    String,
>)
    ensures
        command_encodes(
            sequence,
            MAIN_BRUSH_COMMAND,
            true,
            brush_data(target, force_start),
            result,
        ),
        result is Ok <==> sequence != 0,
        result matches Ok(wire) ==> arrives(wire@, sequence, 0xc3, true) && data_in(wire@).len()
            == 2 && data_in(wire@)[0] == target && (data_in(wire@)[1] == 1 <==> force_start)
            && data_in(wire@)[1] <= 1,
{
    let flag: u8 = if force_start {
        1
    } else {
        0
    };
    let data: [u8; 2] = [target, flag];
    assert(data@ =~= brush_data(target, force_start));
    command_frame(sequence, MAIN_BRUSH_COMMAND, true, &data)
}

/// Encode the stock `c4/len2` side-brush target.
///
/// This MCU ignores the second byte, but stock sometimes sets it while stopping, so
/// it remains explicit for wire compatibility.
pub fn side_brush_command_frame(sequence: u8, target: u8, compatibility_flag: bool) -> (result:
    Result<Vec<u8>, String>)
    ensures
        command_encodes(
            sequence,
            SIDE_BRUSH_COMMAND,
            true,
            brush_data(target, compatibility_flag),
            result,
        ),
        result is Ok <==> sequence != 0,
        result matches Ok(wire) ==> arrives(wire@, sequence, 0xc4, true) && data_in(wire@).len()
            == 2 && data_in(wire@)[0] == target && (data_in(wire@)[1] == 1 <==> compatibility_flag)
            && data_in(wire@)[1] <= 1,
{
    let flag: u8 = if compatibility_flag {
        1
    } else {
        0
    };
    let data: [u8; 2] = [target, flag];
    assert(data@ =~= brush_data(target, compatibility_flag));
    command_frame(sequence, SIDE_BRUSH_COMMAND, true, &data)
}

/// Acknowledge an MCU frame that requested a response.
pub fn acknowledgement_frame(sequence: u8, received_sequence: u8) -> (result: Result<
    Vec<u8>,
    String,
>)
    ensures
        command_encodes(sequence, ACK_REPORT, false, seq![received_sequence], result),
        result is Ok <==> sequence != 0,
        result matches Ok(wire) ==> arrives(wire@, sequence, 0xd1, false) && data_in(wire@).len()
            == 1 && data_in(wire@)[0] == received_sequence,
{
    let data: [u8; 1] = [received_sequence];
    assert(data@ =~= seq![received_sequence]);
    command_frame(sequence, ACK_REPORT, false, &data)
}

/// Encode the stock zero-data heartbeat body.
pub fn heartbeat_frame(sequence: u8) -> (result: Result<Vec<u8>, String>)
    ensures
        command_encodes(sequence, HEARTBEAT, false, seq![0u8, 0, 0, 0], result),
        result is Ok <==> sequence != 0,
        result matches Ok(wire) ==> arrives(wire@, sequence, 0xd3, false) && data_in(wire@)
            == seq![0u8, 0, 0, 0],
{
    let data: [u8; 4] = [0, 0, 0, 0];
    assert(data@ =~= seq![0u8, 0, 0, 0]);
    command_frame(sequence, HEARTBEAT, false, &data)
}

/// A command that was encoded reads back from a stream, behind any bytes without a
/// sync byte: one frame with a valid checksum, which holds the footer with the
/// acknowledgement request and the sequence, then the command with its data.
pub proof fn command_reads_back(
    noise: Seq<u8>,
    sequence: u8,
    command: u8,
    request_ack: bool,
    data: Seq<u8>,
    raw: Vec<u8>,
    more: Seq<u8>,
)
    requires
        command_encodes(sequence, command, request_ack, data, Ok::<Vec<u8>, String>(raw)),
        bytes::first_byte(noise, frame::SYNC) is None,
    ensures
        ({
            let all = decoder::decoded(noise + raw@ + more);
            let got = all.0[0];
            &&& all.0 == seq![got] + decoder::decoded(more).0
            &&& all.1 == decoder::decoded(more).1
            &&& got.crc_valid && !got.is_log && got.raw == raw@
            &&& got.raw.len() == got.payload.len() + 3 + got.escape_overhead
            &&& got.reports() == seq![
                (packet::ReportView {
                    message: packet::REPORT_FOOTER_MESSAGE,
                    data: seq![
                        if request_ack {
                            1u8
                        } else {
                            0u8
                        },
                        sequence,
                    ],
                }),
                (packet::ReportView { message: command, data }),
            ]
        }),
{
    let payload = envelope(sequence, command, request_ack, data);
    decoder::decoding_undoes_encoding(noise, payload, more);
    let all = decoder::decoded(noise + raw@ + more);
    let got = decoder::frame_of_payload(payload);
    assert(all.0[0] == got);
    frame::escaped_length(frame::sealed(payload));
    assert(got.report_bytes() =~= payload);
    let first = packet::split_report(payload);
    let ack: u8 = if request_ack {
        1
    } else {
        0
    };
    let rest = payload.skip(4);
    assert(payload.subrange(2, 4) =~= seq![ack, sequence]);
    assert(first == Some(
        (
            packet::ReportView {
                message: packet::REPORT_FOOTER_MESSAGE,
                data: seq![ack, sequence],
            },
            rest,
        ),
    ));
    assert(rest.subrange(2, 2int + data.len()) =~= data);
    assert(rest.skip(2int + data.len()) =~= Seq::<u8>::empty());
    assert(packet::split_report(rest) == Some(
        (packet::ReportView { message: command, data }, Seq::<u8>::empty()),
    ));
    assert(packet::report_list(Seq::<u8>::empty()) =~= Seq::<packet::ReportView>::empty());
    assert(packet::report_list(rest) =~= seq![(packet::ReportView { message: command, data })]);
    assert(got.reports() =~= seq![
        (packet::ReportView {
            message: packet::REPORT_FOOTER_MESSAGE,
            data: seq![ack, sequence],
        }),
        (packet::ReportView { message: command, data }),
    ]);
}

} // verus!
