//! What a component command asks for: checked parameters in, decisions out.

use crate::commands;
use crate::commands::OPERATIONAL_SUBSYSTEMS;
use crate::error;
use crate::error::Error;
use crate::error::ErrorView;
use crate::groups::NamedValues;
use crate::groups::SensorValue;
use crate::groups::SensorValueView;
use crate::guard::ActuatorCommand;
use crate::ieee;
use crate::ieee::is_finite;
use crate::ieee::is_zero;
use crate::ieee::magnitude;
use crate::text::join;
use crate::text::same_text;
use vstd::arithmetic::power2::*;
use vstd::prelude::*;

verus! {

/// The bit pattern of 0.30, the fastest drive in metres per second.
pub const MAX_LINEAR: u32 = 0x3e99_999a;

/// The bit pattern of 1.60, the fastest turn in radians per second.
pub const MAX_ANGULAR: u32 = 0x3fcc_cccd;

/// What is asked of a component.
#[derive(Debug)]
#[allow(inconsistent_fields)]
pub enum ComponentAction {
    Enable { config: Option<NamedValues> },
    Disable,
    Reset,
    Configure { config: NamedValues },
}

/// What is asked of the driver.
#[derive(Debug)]
pub enum Command {
    Shutdown,
    ComponentControl { id: String, action: ComponentAction },
    /// Anything that this driver does not know.
    Unsupported,
}

/// A number as it was configured: single or double precision, by its bit pattern.
#[derive(Debug, Clone, Copy, PartialEq, Eq)]
pub enum DriveNumber {
    Single(u32),
    Double(u64),
}

/// What a component command comes down to.
#[derive(Debug, Clone, Copy, PartialEq, Eq)]
pub enum Control {
    /// There is nothing to do.
    Nothing,
    /// One actuator command. Where it is other than zero, the safety gate decides.
    Actuate { command: ActuatorCommand, nonzero: bool },
    /// A drive target, in metres and radians per second.
    Drive { linear: DriveNumber, angular: DriveNumber },
    Lidar(bool),
    Charging(bool),
}

/// The speed that a value gives, or why it gives none.
pub open spec fn speed_of(value: SensorValueView) -> Result<u8, ErrorView> {
    let number: Option<int> = match value {
        SensorValueView::U8(v) => Some(v as int),
        SensorValueView::U16(v) => Some(v as int),
        SensorValueView::U32(v) => Some(v as int),
        _ => None,
    };
    match number {
        Some(n) => if n <= 100 {
            Ok(n as u8)
        } else {
            Err(ErrorView::InvalidParameter("speed must be from 0 to 100"@))
        },
        None => Err(
            ErrorView::InvalidParameter("speed must be an unsigned integer from 0 to 100"@),
        ),
    }
}

/// The speed that an action asks for, or why it asks for none.
pub open spec fn requested_speed(action: ComponentAction, default: u8) -> Result<u8, ErrorView> {
    match action {
        ComponentAction::Disable => Ok(0),
        ComponentAction::Enable { config } => match config {
            Some(values) => if values@.contains_key("speed"@) {
                speed_of(values@["speed"@])
            } else {
                Ok(default)
            },
            None => Ok(default),
        },
        ComponentAction::Configure { config } => if config@.contains_key("speed"@) {
            speed_of(config@["speed"@])
        } else {
            Err(ErrorView::InvalidParameter("speed is required"@))
        },
        ComponentAction::Reset => Err(
            ErrorView::InvalidParameter("Reset is only supported for drive emergency stop"@),
        ),
    }
}

/// The outcome is this one.
pub open spec fn comes_out<T>(result: Result<T, Error>, expected: Result<T, ErrorView>) -> bool {
    match expected {
        Ok(value) => result == Ok::<T, Error>(value),
        Err(e) => error::fails(result, e),
    }
}

/// Reads a speed from 0 to 100.
pub fn speed_value(value: &SensorValue) -> (speed: Result<u8, Error>)
    ensures
        comes_out(speed, speed_of(value@)),
{
    let number: u32 = match value {
        SensorValue::U8(v) => *v as u32,
        SensorValue::U16(v) => *v as u32,
        SensorValue::U32(v) => *v,
        _ => {
            return Err(
                Error::InvalidParameter(
                    "speed must be an unsigned integer from 0 to 100".to_string(),
                ),
            );
        },
    };
    if number <= 100 {
        Ok(number as u8)
    } else {
        Err(Error::InvalidParameter("speed must be from 0 to 100".to_string()))
    }
}

/// The speed that an action asks for.
pub fn speed(action: &ComponentAction, default: u8) -> (speed: Result<u8, Error>)
    ensures
        comes_out(speed, requested_speed(*action, default)),
{
    match action {
        ComponentAction::Disable => Ok(0),
        ComponentAction::Enable { config } => match config {
            Some(values) => match values.get("speed") {
                Some(value) => speed_value(value),
                None => Ok(default),
            },
            None => Ok(default),
        },
        ComponentAction::Configure { config } => match config.get("speed") {
            Some(value) => speed_value(value),
            None => Err(Error::InvalidParameter("speed is required".to_string())),
        },
        ComponentAction::Reset => Err(
            Error::InvalidParameter("Reset is only supported for drive emergency stop".to_string()),
        ),
    }
}

/// The number that a drive setting has, or why it has none.
pub open spec fn drive_number(
    config: Map<Seq<char>, SensorValueView>,
    key: Seq<char>,
) -> Result<DriveNumber, ErrorView> {
    let missing = Err(ErrorView::InvalidParameter("drive Configure requires numeric "@ + key));
    if config.contains_key(key) {
        match config[key] {
            SensorValueView::F32(bits) => Ok(DriveNumber::Single(bits)),
            SensorValueView::F64(bits) => Ok(DriveNumber::Double(bits)),
            _ => missing,
        }
    } else {
        missing
    }
}

/// Reads a number of a drive setting.
pub fn drive_value(config: &NamedValues, key: &str) -> (number: Result<DriveNumber, Error>)
    ensures
        comes_out(number, drive_number(config@, key@)),
{
    match config.get(key) {
        Some(SensorValue::F32(bits)) => Ok(DriveNumber::Single(*bits)),
        Some(SensorValue::F64(bits)) => Ok(DriveNumber::Double(*bits)),
        _ => Err(Error::InvalidParameter(join("drive Configure requires numeric ", key))),
    }
}

/// The target, in metres and radians per second, lies within the limits of the
/// robot.
pub open spec fn within_limits(linear: u32, angular: u32) -> bool {
    &&& ieee::finite(linear)
    &&& ieee::finite(angular)
    &&& ieee::magnitude_of(linear) <= MAX_LINEAR
    &&& ieee::magnitude_of(angular) <= MAX_ANGULAR
}

/// Checks a drive target against the limits of the robot, and says whether it is
/// other than zero.
pub fn check_drive(linear: u32, angular: u32) -> (nonzero: Result<bool, Error>)
    ensures
        comes_out(
            nonzero,
            if within_limits(linear, angular) {
                Ok(!(ieee::zero(linear) && ieee::zero(angular)))
            } else {
                Err(
                    ErrorView::InvalidParameter(
                        "drive exceeds S5 Max limits (0.30 m/s, 1.60 rad/s)"@,
                    ),
                )
            },
        ),
        nonzero is Ok <==> linear % 0x8000_0000 <= 0x3e99_999a && angular % 0x8000_0000
            <= 0x3fcc_cccd,
        nonzero matches Ok(moves) ==> (moves <==> linear % 0x8000_0000 != 0 || angular % 0x8000_0000
            != 0),
{
    if !is_finite(linear) || !is_finite(angular) || magnitude(linear) > MAX_LINEAR || magnitude(
        angular,
    ) > MAX_ANGULAR {
        return Err(
            Error::InvalidParameter(
                "drive exceeds S5 Max limits (0.30 m/s, 1.60 rad/s)".to_string(),
            ),
        );
    }
    Ok(!is_zero(linear) || !is_zero(angular))
}

/// A text in quotation marks, with the escapes that `{:?}` writes.
pub uninterp spec fn debug_text(text: Seq<char>) -> Seq<char>;

/// Writes a text in quotation marks.
///
/// Calls `std::fmt` with `{:?}` on a string, whose result is a function of the
/// string alone. Which characters are escaped, and how, is left unsaid.
#[verifier::external_body]
fn quoted(text: &str) -> (quoted: String)
    ensures
        quoted@ == debug_text(text@),
{
    format!("{text:?}")
}

/// What is said of a component that the robot does not have, given its name in
/// quotation marks.
pub fn unsupported_component(quoted: &str) -> (error: Error)
    ensures
        error@ == ErrorView::InvalidParameter("unsupported S5 Max component "@ + quoted@),
{
    Error::InvalidParameter(join("unsupported S5 Max component ", quoted))
}

/// What a drive action comes down to.
pub open spec fn drive_control(action: ComponentAction) -> Result<Control, ErrorView> {
    match action {
        ComponentAction::Disable => Ok(
            Control::Actuate { command: ActuatorCommand::StopDrive, nonzero: false },
        ),
        ComponentAction::Reset => Ok(
            Control::Actuate { command: ActuatorCommand::EmergencyStop, nonzero: false },
        ),
        ComponentAction::Enable { config } => Ok(Control::Nothing),
        ComponentAction::Configure { config } => match drive_number(config@, "linear"@) {
            Ok(linear) => match drive_number(config@, "angular"@) {
                Ok(angular) => Ok(Control::Drive { linear, angular }),
                Err(e) => Err(e),
            },
            Err(e) => Err(e),
        },
    }
}

/// What an action on a component comes down to. `quoted` is the name of the
/// component in quotation marks.
pub open spec fn control_of(
    id: Seq<char>,
    quoted: Seq<char>,
    action: ComponentAction,
) -> Result<Control, ErrorView> {
    if id == "drive"@ {
        drive_control(action)
    } else if id == "vacuum"@ {
        match requested_speed(action, 100) {
            Ok(target) => Ok(
                Control::Actuate { command: ActuatorCommand::Fan(target), nonzero: target != 0 },
            ),
            Err(e) => Err(e),
        }
    } else if id == "main_brush"@ {
        match requested_speed(action, 71) {
            Ok(target) => Ok(
                Control::Actuate {
                    command: ActuatorCommand::MainBrush(target),
                    nonzero: target != 0,
                },
            ),
            Err(e) => Err(e),
        }
    } else if id == "side_brush"@ {
        match requested_speed(action, 30) {
            Ok(target) => Ok(
                Control::Actuate {
                    command: ActuatorCommand::SideBrush(target),
                    nonzero: target != 0,
                },
            ),
            Err(e) => Err(e),
        }
    } else if id == "water_pump"@ {
        match requested_speed(action, 100) {
            Ok(target) => if target != 0 {
                Err(
                    ErrorView::NotImplemented(
                        "S5 Max water-pump duty scheduling is not implemented"@,
                    ),
                )
            } else {
                Ok(
                    Control::Actuate {
                        command: ActuatorCommand::WaterPump { on_interval: 0, off_interval: 0xff },
                        nonzero: false,
                    },
                )
            },
            Err(e) => Err(e),
        }
    } else if id == "lidar"@ {
        match action {
            ComponentAction::Enable { config } => Ok(Control::Lidar(true)),
            ComponentAction::Disable => Ok(Control::Lidar(false)),
            _ => Err(
                ErrorView::InvalidParameter("S5 Max lidar supports only Enable and Disable"@),
            ),
        }
    } else if id == "charger"@ {
        match action {
            ComponentAction::Enable { config } => Ok(Control::Charging(true)),
            ComponentAction::Disable => Ok(Control::Charging(false)),
            _ => Err(
                ErrorView::InvalidParameter("S5 Max charger supports only Enable and Disable"@),
            ),
        }
    } else {
        Err(ErrorView::InvalidParameter("unsupported S5 Max component "@ + quoted))
    }
}

/// Whatever speed is asked of a cleaning motor, it is told one from 0 to 100, and one
/// other than zero goes through the safety gate.
pub proof fn motor_speeds_are_bounded(id: Seq<char>, quoted: Seq<char>, action: ComponentAction)
    ensures
        control_of(id, quoted, action) matches Ok(Control::Actuate { command, nonzero }) ==> (
        match command {
            ActuatorCommand::Fan(target) => target <= 100 && nonzero == (target != 0),
            ActuatorCommand::MainBrush(target) => target <= 100 && nonzero == (target != 0),
            ActuatorCommand::SideBrush(target) => target <= 100 && nonzero == (target != 0),
            ActuatorCommand::WaterPump { on_interval, .. } => on_interval == 0,
            ActuatorCommand::Drive { .. } => false,
            _ => true,
        }),
{
}

fn drive_action(action: &ComponentAction) -> (control: Result<Control, Error>)
    ensures
        comes_out(control, drive_control(*action)),
{
    match action {
        ComponentAction::Disable => Ok(
            Control::Actuate { command: ActuatorCommand::StopDrive, nonzero: false },
        ),
        ComponentAction::Reset => Ok(
            Control::Actuate { command: ActuatorCommand::EmergencyStop, nonzero: false },
        ),
        ComponentAction::Enable { .. } => Ok(Control::Nothing),
        ComponentAction::Configure { config } => {
            let linear = match drive_value(config, "linear") {
                Ok(linear) => linear,
                Err(error) => {
                    return Err(error);
                },
            };
            match drive_value(config, "angular") {
                Ok(angular) => Ok(Control::Drive { linear, angular }),
                Err(error) => Err(error),
            }
        },
    }
}

/// What an action on a component comes down to, given the name of the component also
/// in quotation marks.
pub fn control_with_quoted(id: &str, quoted: &str, action: &ComponentAction) -> (control: Result<
    Control,
    Error,
>)
    ensures
        comes_out(control, control_of(id@, quoted@, *action)),
{
    if same_text(id, "drive") {
        drive_action(action)
    } else if same_text(id, "vacuum") {
        match speed(action, 100) {
            Ok(target) => Ok(
                Control::Actuate { command: ActuatorCommand::Fan(target), nonzero: target != 0 },
            ),
            Err(error) => Err(error),
        }
    } else if same_text(id, "main_brush") {
        match speed(action, 71) {
            Ok(target) => Ok(
                Control::Actuate {
                    command: ActuatorCommand::MainBrush(target),
                    nonzero: target != 0,
                },
            ),
            Err(error) => Err(error),
        }
    } else if same_text(id, "side_brush") {
        match speed(action, 30) {
            Ok(target) => Ok(
                Control::Actuate {
                    command: ActuatorCommand::SideBrush(target),
                    nonzero: target != 0,
                },
            ),
            Err(error) => Err(error),
        }
    } else if same_text(id, "water_pump") {
        match speed(action, 100) {
            Ok(target) => if target != 0 {
                Err(
                    Error::NotImplemented(
                        "S5 Max water-pump duty scheduling is not implemented".to_string(),
                    ),
                )
            } else {
                Ok(
                    Control::Actuate {
                        command: ActuatorCommand::WaterPump { on_interval: 0, off_interval: 0xff },
                        nonzero: false,
                    },
                )
            },
            Err(error) => Err(error),
        }
    } else if same_text(id, "lidar") {
        match action {
            ComponentAction::Enable { .. } => Ok(Control::Lidar(true)),
            ComponentAction::Disable => Ok(Control::Lidar(false)),
            _ => Err(
                Error::InvalidParameter("S5 Max lidar supports only Enable and Disable".to_string()),
            ),
        }
    } else if same_text(id, "charger") {
        match action {
            ComponentAction::Enable { .. } => Ok(Control::Charging(true)),
            ComponentAction::Disable => Ok(Control::Charging(false)),
            _ => Err(
                Error::InvalidParameter(
                    "S5 Max charger supports only Enable and Disable".to_string(),
                ),
            ),
        }
    } else {
        Err(unsupported_component(quoted))
    }
}

/// What an action on a component comes down to.
pub fn component_control(id: &str, action: &ComponentAction) -> (control: Result<Control, Error>)
    ensures
        comes_out(control, control_of(id@, debug_text(id@), *action)),
{
    let name = quoted(id);
    control_with_quoted(id, name.as_str(), action)
}

/// What the driver has to do about a command.
#[derive(Debug)]
pub enum Dispatch {
    /// Shut everything down.
    ShutDown,
    /// Act on a component.
    Control(Control),
}

/// What the driver has to do about a command, or why it is refused.
pub fn send_command(command: &Command) -> (dispatch: Result<Dispatch, Error>)
    ensures
        match *command {
            Command::Shutdown => dispatch == Ok::<Dispatch, Error>(Dispatch::ShutDown),
            Command::ComponentControl { id, action } => match control_of(
                id@,
                debug_text(id@),
                action,
            ) {
                Ok(control) => dispatch == Ok::<Dispatch, Error>(Dispatch::Control(control)),
                Err(e) => error::fails(dispatch, e),
            },
            Command::Unsupported => error::fails(
                dispatch,
                ErrorView::NotImplemented("unsupported Roborock S5 Max command"@),
            ),
        },
{
    match command {
        Command::Shutdown => Ok(Dispatch::ShutDown),
        Command::ComponentControl { id, action } => match component_control(id.as_str(), action) {
            Ok(control) => Ok(Dispatch::Control(control)),
            Err(error) => Err(error),
        },
        Command::Unsupported => Err(
            Error::NotImplemented("unsupported Roborock S5 Max command".to_string()),
        ),
    }
}

/// The commands before the LDS motor may start: leave the charger, wake the MCU, hold
/// the wheels, and enable the operational subsystems one by one.
pub open spec fn lidar_commands() -> Seq<ActuatorCommand> {
    seq![
        ActuatorCommand::Charger(false),
        ActuatorCommand::WakeMcu,
        ActuatorCommand::StopDrive,
    ] + OPERATIONAL_SUBSYSTEMS@.map_values(|s: u32| ActuatorCommand::EnableSubsystem(s))
}

/// How many commands come before the LDS motor may start.
pub const LIDAR_COMMANDS: usize = 17;

/// One of the commands before the LDS motor may start.
pub fn lidar_command(at: usize) -> (command: ActuatorCommand)
    requires
        at < LIDAR_COMMANDS,
    ensures
        command == lidar_commands()[at as int],
        lidar_commands().len() == LIDAR_COMMANDS,
{
    if at == 0 {
        ActuatorCommand::Charger(false)
    } else if at == 1 {
        ActuatorCommand::WakeMcu
    } else if at == 2 {
        ActuatorCommand::StopDrive
    } else {
        ActuatorCommand::EnableSubsystem(OPERATIONAL_SUBSYSTEMS[at - 3])
    }
}

/// The speed that an action names.
pub open spec fn named_speed(action: ComponentAction) -> Option<SensorValueView> {
    match action {
        ComponentAction::Enable { config: Some(values) } => if values@.contains_key("speed"@) {
            Some(values@["speed"@])
        } else {
            None
        },
        ComponentAction::Configure { config } => if config@.contains_key("speed"@) {
            Some(config@["speed"@])
        } else {
            None
        },
        _ => None,
    }
}

/// What comes of an action on something that takes a speed from 0 to 100: zero where it
/// is switched off; the number that is named, if it is one of the three unsigned kinds
/// and at most 100; without one `default`, where it is switched on; else a refusal.
pub open spec fn asks_for(action: ComponentAction, default: int, target: int) -> bool {
    match named_speed(action) {
        Some(SensorValueView::U8(n)) => n == target && n <= 100,
        Some(SensorValueView::U16(n)) => n == target && n <= 100,
        Some(SensorValueView::U32(n)) => n == target && n <= 100,
        Some(_) => false,
        None => (action is Disable && target == 0) || (action is Enable && target == default),
    }
}

/// Each cleaning motor gets its own command, with the speed that was asked for: the fan
/// is called `vacuum` and runs at 100 unless told otherwise, the main brush at 71, the
/// side brush at 30. Where no speed can be had from the action it is refused. The pump
/// can only be switched off, which is zero on and 255 off.
pub proof fn motors_follow_their_names(
    quoted: Seq<char>,
    action: ComponentAction,
    target: u8,
)
    ensures
        ({
            let nonzero = target != 0;
            let nothing = forall|other: int, default: int| !asks_for(action, default, other);
            &&& asks_for(action, 100, target as int) ==> control_of("vacuum"@, quoted, action) == Ok::<
                Control,
                ErrorView,
            >(Control::Actuate { command: ActuatorCommand::Fan(target), nonzero })
            &&& asks_for(action, 71, target as int) ==> control_of("main_brush"@, quoted, action)
                == Ok::<Control, ErrorView>(
                Control::Actuate { command: ActuatorCommand::MainBrush(target), nonzero },
            )
            &&& asks_for(action, 30, target as int) ==> control_of("side_brush"@, quoted, action)
                == Ok::<Control, ErrorView>(
                Control::Actuate { command: ActuatorCommand::SideBrush(target), nonzero },
            )
            &&& asks_for(action, 100, 0) ==> control_of("water_pump"@, quoted, action) == Ok::<
                Control,
                ErrorView,
            >(
                Control::Actuate {
                    command: ActuatorCommand::WaterPump { on_interval: 0, off_interval: 255 },
                    nonzero: false,
                },
            )
            &&& asks_for(action, 100, target as int) && target != 0 ==> (control_of(
                "water_pump"@,
                quoted,
                action,
            ) matches Err(e) && e is NotImplemented)
            &&& nothing ==> (control_of("vacuum"@, quoted, action) matches Err(e)
                && e is InvalidParameter) && (control_of("main_brush"@, quoted, action) matches Err(e)
                && e is InvalidParameter) && (control_of("side_brush"@, quoted, action) matches Err(e)
                && e is InvalidParameter) && (control_of("water_pump"@, quoted, action) matches Err(e)
                && e is InvalidParameter)
        }),
{
    reveal_strlit("drive");
    reveal_strlit("vacuum");
    reveal_strlit("main_brush");
    reveal_strlit("side_brush");
    reveal_strlit("water_pump");
    reveal_strlit("lidar");
    reveal_strlit("charger");
    assert("drive"@.len() == 5);
    assert("vacuum"@.len() == 6);
    assert("main_brush"@.len() == 10);
    assert("side_brush"@.len() == 10);
    assert("water_pump"@.len() == 10);
    assert("lidar"@.len() == 5);
    assert("charger"@.len() == 7);
    assert("drive"@[0] == 'd');
    assert("main_brush"@[0] == 'm');
    assert("side_brush"@[0] == 's');
    assert("water_pump"@[0] == 'w');
    assert("lidar"@[0] == 'l');
    if forall|other: int, default: int| !asks_for(action, default, other) {
        assert(!asks_for(action, 7, 7));
        assert(!asks_for(action, 0, 0));
        match named_speed(action) {
            Some(SensorValueView::U8(n)) => {
                assert(!asks_for(action, 0, n as int));
            },
            Some(SensorValueView::U16(n)) => {
                assert(!asks_for(action, 0, n as int));
            },
            Some(SensorValueView::U32(n)) => {
                assert(!asks_for(action, 0, n as int));
            },
            _ => {},
        }
    }
}

/// The number that a value holds, with its precision.
pub open spec fn number_in(value: SensorValueView) -> Option<DriveNumber> {
    match value {
        SensorValueView::F32(bits) => Some(DriveNumber::Single(bits)),
        SensorValueView::F64(bits) => Some(DriveNumber::Double(bits)),
        _ => None,
    }
}

/// What the other components do. A drive target takes its linear speed from `linear` and
/// its angular one from `angular`; disabling the drive stops it, resetting it is the
/// emergency stop, and enabling it does nothing. Lidar and charger are switched on and
/// off, and nothing else. No other component is known.
pub proof fn other_components_follow_their_names(
    id: Seq<char>,
    quoted: Seq<char>,
    action: ComponentAction,
)
    ensures
        action matches ComponentAction::Configure { config } ==> {
            let v = config@;
            let linear = if v.contains_key("linear"@) {
                number_in(v["linear"@])
            } else {
                None
            };
            let angular = if v.contains_key("angular"@) {
                number_in(v["angular"@])
            } else {
                None
            };
            &&& linear is Some && angular is Some ==> control_of("drive"@, quoted, action) == Ok::<
                Control,
                ErrorView,
            >(Control::Drive { linear: linear->0, angular: angular->0 })
            &&& linear is None || angular is None ==> (control_of("drive"@, quoted, action)
                matches Err(e) && e is InvalidParameter)
        },
        action is Disable ==> {
            &&& control_of("drive"@, quoted, action) == Ok::<Control, ErrorView>(
                Control::Actuate { command: ActuatorCommand::StopDrive, nonzero: false },
            )
            &&& control_of("lidar"@, quoted, action) == Ok::<Control, ErrorView>(Control::Lidar(false))
            &&& control_of("charger"@, quoted, action) == Ok::<Control, ErrorView>(
                Control::Charging(false),
            )
        },
        action is Enable ==> {
            &&& control_of("drive"@, quoted, action) == Ok::<Control, ErrorView>(Control::Nothing)
            &&& control_of("lidar"@, quoted, action) == Ok::<Control, ErrorView>(Control::Lidar(true))
            &&& control_of("charger"@, quoted, action) == Ok::<Control, ErrorView>(
                Control::Charging(true),
            )
        },
        action is Reset ==> control_of("drive"@, quoted, action) == Ok::<Control, ErrorView>(
            Control::Actuate { command: ActuatorCommand::EmergencyStop, nonzero: false },
        ),
        action is Reset || action is Configure ==> (control_of("lidar"@, quoted, action) matches Err(e)
            && e is InvalidParameter) && (control_of("charger"@, quoted, action) matches Err(e)
            && e is InvalidParameter),
        id != "drive"@ && id != "vacuum"@ && id != "main_brush"@ && id != "side_brush"@ && id
            != "water_pump"@ && id != "lidar"@ && id != "charger"@ ==> (control_of(id, quoted, action)
            matches Err(e) && e is InvalidParameter),
{
    reveal_strlit("drive");
    reveal_strlit("vacuum");
    reveal_strlit("main_brush");
    reveal_strlit("side_brush");
    reveal_strlit("water_pump");
    reveal_strlit("lidar");
    reveal_strlit("charger");
    reveal_strlit("linear");
    reveal_strlit("angular");
    assert("drive"@.len() == 5);
    assert("vacuum"@.len() == 6);
    assert("main_brush"@.len() == 10);
    assert("side_brush"@.len() == 10);
    assert("water_pump"@.len() == 10);
    assert("lidar"@.len() == 5);
    assert("charger"@.len() == 7);
    assert("linear"@.len() == 6);
    assert("angular"@.len() == 7);
    assert("drive"@[0] == 'd');
    assert("vacuum"@[0] == 'v');
    assert("main_brush"@[0] == 'm');
    assert("side_brush"@[0] == 's');
    assert("water_pump"@[0] == 'w');
    assert("lidar"@[0] == 'l');
    assert("charger"@[0] == 'c');
    assert("linear"@[0] == 'l');
    assert("angular"@[0] == 'a');
}

/// The way to the LDS motor: off the charger, awake, wheels held; then each operational
/// subsystem by its own bit. All of it can be sent.
pub proof fn lidar_needs_the_subsystems(i: int)
    ensures
        lidar_commands().len() == 17,
        lidar_commands()[0] == ActuatorCommand::Charger(false),
        lidar_commands()[1] == ActuatorCommand::WakeMcu,
        lidar_commands()[2] == ActuatorCommand::StopDrive,
        0 <= i < 14 ==> lidar_commands()[3 + i] == ActuatorCommand::EnableSubsystem(
            seq![
                0x2u32,
                0x4,
                0x8,
                0x20,
                0x40,
                0x80,
                0x100,
                0x200,
                0x400,
                0x800,
                0x2000,
                0x4000,
                0x8000,
                0x2_0000,
            ][i],
        ),
        0 <= i < 14 ==> (lidar_commands()[3 + i] matches ActuatorCommand::EnableSubsystem(selector)
            && commands::selects_subsystem(selector)),
{
    lemma2_to64();
    assert(pow2(1) == 0x2 && pow2(2) == 0x4 && pow2(3) == 0x8 && pow2(5) == 0x20 && pow2(6) == 0x40);
    assert(pow2(7) == 0x80 && pow2(8) == 0x100 && pow2(9) == 0x200 && pow2(10) == 0x400);
    assert(pow2(11) == 0x800 && pow2(13) == 0x2000 && pow2(14) == 0x4000 && pow2(15) == 0x8000);
    assert(pow2(17) == 0x2_0000);
}

} // verus!
