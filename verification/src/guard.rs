//! What the actuators are told, frame by frame, and the ordered stop set.
//!
//! Nothing here touches a device. A command becomes a row of frames, each of which
//! takes its sequence only when it is its turn; whoever owns the UART writes them
//! and says how that went.

use crate::acks;
use crate::acks::CommandAckTracker;
use crate::acks::ACK_TIMEOUT;
use crate::bytes;
use crate::commands;
use crate::commands::charger_command_frame;
use crate::commands::fan_command_frame;
use crate::commands::main_brush_command_frame;
use crate::commands::next_tx_sequence;
use crate::commands::side_brush_command_frame;
use crate::commands::subsystem_state_frame;
use crate::commands::system_mode_command_frame;
use crate::commands::water_pump_command_frame;
use crate::commands::wheel_command_frame;
use crate::commands::FAN_SUBSYSTEM;
use crate::commands::MAIN_BRUSH_SUBSYSTEM;
use crate::commands::SIDE_BRUSH_SUBSYSTEM;
use crate::commands::WHEEL_ODOMETRY_SUBSYSTEM;
use crate::error;
use crate::error::Error;
use crate::error::ErrorView;
use crate::ieee;
use crate::ieee::is_zero;
use crate::reports;
use crate::safety::ActuatorTargets;
use crate::safety::SafetyController;
use crate::safety::DRIVE_LEASE_DURATION;
use crate::text::join3;
use vstd::arithmetic::power2::*;
use vstd::prelude::*;

verus! {

/// What an actuator is told. Drive targets are IEEE-754 bit patterns: encoder ticks
/// in 20 ms, and radians in a second.
#[derive(Debug, Clone, Copy, PartialEq, Eq)]
pub enum ActuatorCommand {
    WakeMcu,
    EnableSubsystem(u32),
    Drive { linear: u32, angular: u32 },
    StopDrive,
    Fan(u8),
    MainBrush(u8),
    SideBrush(u8),
    WaterPump { on_interval: u8, off_interval: u8 },
    Charger(bool),
    EmergencyStop,
}

/// One frame of a command, before it has a sequence.
#[derive(Debug, Clone, Copy, PartialEq, Eq)]
pub enum Outgoing {
    SystemMode(u8),
    Subsystem(u32),
    Wheels { linear: u32, angular: u32, forced: bool },
    Fan(u8),
    MainBrush(u8),
    SideBrush(u8),
    WaterPump { on_interval: u8, off_interval: u8 },
    Charger(bool),
}

impl Outgoing {
    /// The MCU has to acknowledge it.
    pub open spec fn wants_ack(self) -> bool {
        match self {
            Outgoing::SystemMode(_) => false,
            Outgoing::Subsystem(_) => true,
            Outgoing::Wheels { .. } => false,
            Outgoing::Fan(_) => true,
            Outgoing::MainBrush(_) => true,
            Outgoing::SideBrush(_) => true,
            Outgoing::WaterPump { .. } => false,
            Outgoing::Charger(_) => true,
        }
    }

    /// The outcome of encoding it with a sequence.
    pub open spec fn encodes(self, sequence: u8, result: Result<Vec<u8>, String>) -> bool {
        match self {
            Outgoing::SystemMode(mode) => commands::command_encodes(
                sequence,
                commands::SYSTEM_MODE_COMMAND,
                false,
                reports::system_mode_tag().push(mode),
                result,
            ),
            Outgoing::Subsystem(selector) => if commands::selects_subsystem(selector) {
                commands::command_encodes(
                    sequence,
                    commands::SUBSYSTEM_STATE_COMMAND,
                    true,
                    commands::subsystem_data(selector, true),
                    result,
                )
            } else {
                result matches Err(said) && said@ == commands::selector_error(selector)
            },
            Outgoing::Wheels { linear, angular, forced } => commands::wheel_command_encodes(
                sequence,
                linear,
                angular,
                forced,
                result,
            ),
            Outgoing::Fan(target) => commands::command_encodes(
                sequence,
                commands::FAN_COMMAND,
                true,
                seq![target, 0u8],
                result,
            ),
            Outgoing::MainBrush(target) => commands::command_encodes(
                sequence,
                commands::MAIN_BRUSH_COMMAND,
                true,
                commands::brush_data(target, false),
                result,
            ),
            Outgoing::SideBrush(target) => commands::command_encodes(
                sequence,
                commands::SIDE_BRUSH_COMMAND,
                true,
                commands::brush_data(target, false),
                result,
            ),
            Outgoing::WaterPump { on_interval, off_interval } => commands::command_encodes(
                sequence,
                commands::WATER_PUMP_COMMAND,
                false,
                seq![on_interval, off_interval],
                result,
            ),
            Outgoing::Charger(enabled) => commands::command_encodes(
                sequence,
                commands::CHARGER_COMMAND,
                true,
                seq![
                    if enabled {
                        1u8
                    } else {
                        0u8
                    },
                ],
                result,
            ),
        }
    }

    /// What the MCU decodes from `wire` is this, with a sequence.
    pub open spec fn tells(self, sequence: u8, wire: Seq<u8>) -> bool {
        let d = commands::data_in(wire);
        match self {
            Outgoing::SystemMode(mode) => commands::arrives(wire, sequence, 0xb0, false) && d
                == seq![0x73u8, 0x79, 0x73, 0x5f, 0x6d, 0x64, 0, mode],
            Outgoing::Subsystem(selector) => commands::arrives(wire, sequence, 0xb1, true)
                && d.len() == 4 && bytes::quad(d, 0) == selector + 1,
            Outgoing::Wheels { linear, angular, forced } => commands::steers(
                wire,
                sequence,
                linear,
                angular,
                forced,
            ),
            Outgoing::Fan(target) => commands::arrives(wire, sequence, 0xc1, true) && d == seq![
                target,
                0u8,
            ],
            Outgoing::MainBrush(target) => commands::arrives(wire, sequence, 0xc3, true) && d
                == seq![target, 0u8],
            Outgoing::SideBrush(target) => commands::arrives(wire, sequence, 0xc4, true) && d
                == seq![target, 0u8],
            Outgoing::WaterPump { on_interval, off_interval } => commands::arrives(
                wire,
                sequence,
                0xbf,
                false,
            ) && d == seq![on_interval, off_interval],
            Outgoing::Charger(enabled) => commands::arrives(wire, sequence, 0xb7, true) && d.len()
                == 1 && d[0] <= 1 && (d[0] == 1 <==> enabled),
        }
    }

    /// A frame that was encoded tells the MCU what it was made from, and asks for an
    /// acknowledgement exactly where one is waited for.
    pub proof fn frame_tells_it(self, sequence: u8, raw: Vec<u8>)
        requires
            self.encodes(sequence, Ok::<Vec<u8>, String>(raw)),
        ensures
            self.tells(sequence, raw@),
            commands::delivered(raw@) is Some,
            commands::delivered(raw@)->0.wants_ack == self.wants_ack(),
    {
        match self {
            Outgoing::SystemMode(mode) => {
                let data = reports::system_mode_tag().push(mode);
                commands::encoding_is_delivered(
                    sequence,
                    commands::SYSTEM_MODE_COMMAND,
                    false,
                    data,
                    raw,
                );
                assert(data =~= seq![0x73u8, 0x79, 0x73, 0x5f, 0x6d, 0x64, 0, mode]);
            },
            Outgoing::Subsystem(selector) => {
                commands::subsystem_selector_arrives(sequence, selector, true, raw);
            },
            Outgoing::Wheels { linear, angular, forced } => {
                commands::wheel_targets_keep_their_places(sequence, linear, angular, forced, raw);
            },
            Outgoing::Fan(target) => {
                commands::encoding_is_delivered(
                    sequence,
                    commands::FAN_COMMAND,
                    true,
                    seq![target, 0u8],
                    raw,
                );
            },
            Outgoing::MainBrush(target) => {
                let data = commands::brush_data(target, false);
                commands::encoding_is_delivered(
                    sequence,
                    commands::MAIN_BRUSH_COMMAND,
                    true,
                    data,
                    raw,
                );
                assert(data =~= seq![target, 0u8]);
            },
            Outgoing::SideBrush(target) => {
                let data = commands::brush_data(target, false);
                commands::encoding_is_delivered(
                    sequence,
                    commands::SIDE_BRUSH_COMMAND,
                    true,
                    data,
                    raw,
                );
                assert(data =~= seq![target, 0u8]);
            },
            Outgoing::WaterPump { on_interval, off_interval } => {
                commands::encoding_is_delivered(
                    sequence,
                    commands::WATER_PUMP_COMMAND,
                    false,
                    seq![on_interval, off_interval],
                    raw,
                );
            },
            Outgoing::Charger(enabled) => {
                let on: u8 = if enabled {
                    1
                } else {
                    0
                };
                commands::encoding_is_delivered(
                    sequence,
                    commands::CHARGER_COMMAND,
                    true,
                    seq![on],
                    raw,
                );
            },
        }
    }

    /// It has a frame, with any sequence but zero.
    pub open spec fn encodable(self) -> bool {
        match self {
            Outgoing::Subsystem(selector) => commands::selects_subsystem(selector),
            Outgoing::Wheels { linear, angular, .. } => ieee::finite(linear) && ieee::finite(angular),
            _ => true,
        }
    }

    /// Why it has no frame.
    pub open spec fn refusal(self) -> Seq<char> {
        match self {
            Outgoing::Subsystem(selector) => commands::selector_error(selector),
            _ => "wheel targets must be finite"@,
        }
    }

    fn requires_ack(&self) -> (yes: bool)
        ensures
            yes == self.wants_ack(),
    {
        match self {
            Outgoing::SystemMode(_) => false,
            Outgoing::Subsystem(_) => true,
            Outgoing::Wheels { .. } => false,
            Outgoing::Fan(_) => true,
            Outgoing::MainBrush(_) => true,
            Outgoing::SideBrush(_) => true,
            Outgoing::WaterPump { .. } => false,
            Outgoing::Charger(_) => true,
        }
    }

    fn encode(&self, sequence: u8) -> (result: Result<Vec<u8>, String>)
        ensures
            self.encodes(sequence, result),
            sequence != 0 ==> (result is Ok <==> self.encodable()),
            sequence != 0 && result is Err ==> result->Err_0@ == self.refusal(),
            result matches Ok(wire) ==> self.tells(sequence, wire@),
    {
        let result = match self {
            Outgoing::SystemMode(mode) => system_mode_command_frame(sequence, *mode),
            Outgoing::Subsystem(selector) => subsystem_state_frame(sequence, *selector, true),
            Outgoing::Wheels { linear, angular, forced } => wheel_command_frame(
                sequence,
                *linear,
                *angular,
                *forced,
            ),
            Outgoing::Fan(target) => fan_command_frame(sequence, *target),
            Outgoing::MainBrush(target) => main_brush_command_frame(sequence, *target, false),
            Outgoing::SideBrush(target) => side_brush_command_frame(sequence, *target, false),
            Outgoing::WaterPump { on_interval, off_interval } => water_pump_command_frame(
                sequence,
                *on_interval,
                *off_interval,
            ),
            Outgoing::Charger(enabled) => charger_command_frame(sequence, *enabled),
        };
        proof {
            if result is Ok {
                self.frame_tells_it(sequence, result->Ok_0);
            }
        }
        result
    }
}

/// The frames of a command, in order. A motor is enabled before it is told to turn.
/// The wheels are enabled once in a session; refreshing a velocity must not repeat
/// that. The emergency stop has its own stop set.
pub open spec fn plan(command: ActuatorCommand, wheels_enabled: bool) -> Seq<Outgoing> {
    match command {
        ActuatorCommand::WakeMcu => seq![Outgoing::SystemMode(0)],
        ActuatorCommand::EnableSubsystem(selector) => seq![Outgoing::Subsystem(selector)],
        ActuatorCommand::Drive { linear, angular } => {
            let wheels = Outgoing::Wheels { linear, angular, forced: false };
            if !wheels_enabled && !(ieee::zero(linear) && ieee::zero(angular)) {
                seq![Outgoing::Subsystem(WHEEL_ODOMETRY_SUBSYSTEM), wheels]
            } else {
                seq![wheels]
            }
        },
        ActuatorCommand::StopDrive => seq![
            (Outgoing::Wheels { linear: 0, angular: 0, forced: true }),
        ],
        ActuatorCommand::Fan(target) => if target != 0 {
            seq![Outgoing::Subsystem(FAN_SUBSYSTEM), Outgoing::Fan(target)]
        } else {
            seq![Outgoing::Fan(target)]
        },
        ActuatorCommand::MainBrush(target) => if target != 0 {
            seq![Outgoing::Subsystem(MAIN_BRUSH_SUBSYSTEM), Outgoing::MainBrush(target)]
        } else {
            seq![Outgoing::MainBrush(target)]
        },
        ActuatorCommand::SideBrush(target) => if target != 0 {
            seq![Outgoing::Subsystem(SIDE_BRUSH_SUBSYSTEM), Outgoing::SideBrush(target)]
        } else {
            seq![Outgoing::SideBrush(target)]
        },
        ActuatorCommand::WaterPump { on_interval, off_interval } => seq![
            (Outgoing::WaterPump { on_interval, off_interval }),
        ],
        ActuatorCommand::Charger(enabled) => seq![Outgoing::Charger(enabled)],
        ActuatorCommand::EmergencyStop => Seq::empty(),
    }
}

/// Normal driving never overrides the safety interlocks of the MCU, stopping always
/// does, and the wheels do not turn before they are enabled.
pub proof fn driving_keeps_interlocks(linear: u32, angular: u32, wheels_enabled: bool)
    ensures
        forall|i: int|
            0 <= i < plan(ActuatorCommand::Drive { linear, angular }, wheels_enabled).len() ==> (
            #[trigger] plan(
                ActuatorCommand::Drive { linear, angular },
                wheels_enabled,
            )[i] matches Outgoing::Wheels { forced, .. } ==> !forced),
        !wheels_enabled && !(ieee::zero(linear) && ieee::zero(angular)) ==> plan(
            ActuatorCommand::Drive { linear, angular },
            wheels_enabled,
        )[0] == Outgoing::Subsystem(WHEEL_ODOMETRY_SUBSYSTEM),
        plan(ActuatorCommand::StopDrive, wheels_enabled) == seq![
            (Outgoing::Wheels { linear: 0, angular: 0, forced: true }),
        ],
{
}

/// `frames` are the frames of a command, each encoded with its sequence.
pub open spec fn encoded_plan(
    command: ActuatorCommand,
    wheels_enabled: bool,
    sequences: Seq<u8>,
    frames: Seq<Vec<u8>>,
) -> bool {
    let sends = plan(command, wheels_enabled);
    &&& frames.len() == sends.len()
    &&& sequences.len() == sends.len()
    &&& forall|i: int|
        0 <= i < frames.len() ==> (#[trigger] sends[i]).encodes(
            sequences[i],
            Ok::<Vec<u8>, String>(frames[i]),
        )
}

/// Decoded, `wire` is the command `byte`, to be acknowledged, with two bytes: the
/// target and zero.
pub open spec fn turns_motor(wire: Seq<u8>, byte: u8, target: u8) -> bool {
    commands::delivered(wire) matches Some(d) && d.wants_ack && d.command == byte && d.data.len()
        == 2 && d.data[0] == target && d.data[1] == 0
}

/// Decoded, `wire` is the `b1` command, to be acknowledged, that switches on the
/// subsystem with this selector: bit zero is set beside the bit of the selector.
pub open spec fn switches_on(wire: Seq<u8>, selector: int) -> bool {
    commands::delivered(wire) matches Some(d) && d.wants_ack && d.command == 0xb1 && d.data.len()
        == 4 && d.data[0] + 0x100 * d.data[1] + 0x1_0000 * d.data[2] + 0x100_0000 * d.data[3]
        == selector + 1
}

/// The frames of a motor command: where the target is zero one frame, which tells
/// it; else the subsystem is switched on first.
pub open spec fn reaches_motor(
    frames: Seq<Vec<u8>>,
    byte: u8,
    selector: int,
    target: u8,
) -> bool {
    if target == 0 {
        frames.len() == 1 && turns_motor(frames[0]@, byte, 0)
    } else {
        frames.len() == 2 && switches_on(frames[0]@, selector) && turns_motor(
            frames[1]@,
            byte,
            target,
        )
    }
}

/// Each motor gets its own command and its own selector: the fan `c1` and 0x200, the
/// main brush `c3` and 0x80, the side brush `c4` and 0x100.
pub proof fn each_motor_gets_its_own(
    command: ActuatorCommand,
    wheels_enabled: bool,
    sequences: Seq<u8>,
    frames: Seq<Vec<u8>>,
)
    requires
        encoded_plan(command, wheels_enabled, sequences, frames),
    ensures
        command matches ActuatorCommand::Fan(target) ==> reaches_motor(frames, 0xc1, 0x200, target),
        command matches ActuatorCommand::MainBrush(target) ==> reaches_motor(
            frames,
            0xc3,
            0x80,
            target,
        ),
        command matches ActuatorCommand::SideBrush(target) ==> reaches_motor(
            frames,
            0xc4,
            0x100,
            target,
        ),
{
    let sends = plan(command, wheels_enabled);
    assert forall|i: int| 0 <= i < frames.len() implies (#[trigger] sends[i]).tells(
        sequences[i],
        frames[i]@,
    ) && commands::delivered(frames[i]@) is Some && commands::delivered(frames[i]@)->0.wants_ack
        == sends[i].wants_ack() by {
        sends[i].frame_tells_it(sequences[i], frames[i]);
    }
    if frames.len() > 0 {
        assert(sends[0].tells(sequences[0], frames[0]@));
    }
    if frames.len() > 1 {
        assert(sends[1].tells(sequences[1], frames[1]@));
    }
}

/// What the other commands put on the wire. A drive target keeps linear and angular
/// apart and never overrides; the wheels' own subsystem, 0x400, is switched on before
/// the first target that is not zero, and only then. Stopping overrides. Waking is
/// mode zero.
pub proof fn other_commands_on_the_wire(
    command: ActuatorCommand,
    wheels_enabled: bool,
    sequences: Seq<u8>,
    frames: Seq<Vec<u8>>,
)
    requires
        encoded_plan(command, wheels_enabled, sequences, frames),
    ensures
        command matches ActuatorCommand::Drive { linear, angular } ==> {
            let moves = !(linear % 0x8000_0000 == 0 && angular % 0x8000_0000 == 0);
            &&& frames.len() == if moves && !wheels_enabled {
                2nat
            } else {
                1nat
            }
            &&& commands::steers(frames.last()@, sequences.last(), linear, angular, false)
            &&& frames.len() == 2 ==> switches_on(frames[0]@, 0x400)
        },
        command is StopDrive ==> frames.len() == 1 && commands::steers(
            frames[0]@,
            sequences[0],
            0,
            0,
            true,
        ),
        command is WakeMcu ==> frames.len() == 1 && commands::arrives(
            frames[0]@,
            sequences[0],
            0xb0,
            false,
        ) && commands::data_in(frames[0]@) == seq![0x73u8, 0x79, 0x73, 0x5f, 0x6d, 0x64, 0, 0],
        command matches ActuatorCommand::EnableSubsystem(selector) ==> frames.len() == 1
            && switches_on(frames[0]@, selector as int),
        command matches ActuatorCommand::WaterPump { on_interval, off_interval } ==> frames.len()
            == 1 && commands::arrives(frames[0]@, sequences[0], 0xbf, false) && commands::data_in(
            frames[0]@,
        ) == seq![on_interval, off_interval],
        command matches ActuatorCommand::Charger(enabled) ==> frames.len() == 1
            && commands::arrives(frames[0]@, sequences[0], 0xb7, true) && commands::data_in(
            frames[0]@,
        ) == seq![
            if enabled {
                1u8
            } else {
                0u8
            },
        ],
        command is EmergencyStop ==> frames.len() == 0,
{
    let sends = plan(command, wheels_enabled);
    assert forall|i: int| 0 <= i < frames.len() implies (#[trigger] sends[i]).tells(
        sequences[i],
        frames[i]@,
    ) && commands::delivered(frames[i]@) is Some && commands::delivered(frames[i]@)->0.wants_ack
        == sends[i].wants_ack() by {
        sends[i].frame_tells_it(sequences[i], frames[i]);
    }
    if frames.len() > 0 {
        assert(sends[0].tells(sequences[0], frames[0]@));
    }
    if frames.len() > 1 {
        assert(sends[1].tells(sequences[1], frames[1]@));
    }
}

/// Every frame of a command has a wire form, except where a selector does not select
/// one subsystem or a drive target is not finite: the subsystems of the wheels, the
/// fan and the brushes can always be switched on.
pub proof fn plans_have_frames(command: ActuatorCommand, wheels_enabled: bool, i: int)
    requires
        0 <= i < plan(command, wheels_enabled).len(),
        command matches ActuatorCommand::EnableSubsystem(selector)
            ==> commands::selects_subsystem(selector),
        command matches ActuatorCommand::Drive { linear, angular } ==> ieee::finite(linear)
            && ieee::finite(angular),
    ensures
        plan(command, wheels_enabled)[i].encodable(),
{
    lemma2_to64();
    assert(pow2(7) == 0x80 && pow2(8) == 0x100 && pow2(9) == 0x200 && pow2(10) == 0x400);
}

/// The targets after a command went out, and the lease that it starts.
pub open spec fn targets_after(
    command: ActuatorCommand,
    targets: ActuatorTargets,
) -> ActuatorTargets {
    match command {
        ActuatorCommand::Drive { linear, angular } => ActuatorTargets { linear, angular, ..targets },
        ActuatorCommand::StopDrive => ActuatorTargets { linear: 0, angular: 0, ..targets },
        ActuatorCommand::Fan(target) => ActuatorTargets { fan: target, ..targets },
        ActuatorCommand::MainBrush(target) => ActuatorTargets { main_brush: target, ..targets },
        ActuatorCommand::SideBrush(target) => ActuatorTargets { side_brush: target, ..targets },
        ActuatorCommand::WaterPump { on_interval, .. } => ActuatorTargets {
            water_pump: on_interval,
            ..targets
        },
        ActuatorCommand::EmergencyStop => ActuatorTargets::at_rest(),
        _ => targets,
    }
}

/// The drive lease after a command went out at `now`.
pub open spec fn lease_after(command: ActuatorCommand, lease: Option<u64>, now: u64) -> Option<u64> {
    match command {
        ActuatorCommand::Drive { linear, angular } => if ieee::zero(linear) && ieee::zero(angular) {
            None
        } else {
            Some((now + DRIVE_LEASE_DURATION) as u64)
        },
        ActuatorCommand::StopDrive => None,
        ActuatorCommand::EmergencyStop => None,
        _ => lease,
    }
}

/// A command changes its own target and no other: driving and stopping the two drive
/// targets, each motor its own, the pump its on-interval. The emergency stop puts all
/// at rest. Only driving and stopping touch the lease: a target that moves the robot
/// holds for 250 ms from now on, and any other ends the lease.
pub proof fn each_command_sets_its_own_target(
    command: ActuatorCommand,
    before: ActuatorTargets,
    lease: Option<u64>,
    now: u64,
)
    requires
        !(command is EmergencyStop),
        now + 250_000_000 <= u64::MAX,
    ensures
        targets_after(command, before).linear == (match command {
            ActuatorCommand::Drive { linear, .. } => linear,
            ActuatorCommand::StopDrive => 0,
            _ => before.linear,
        }),
        targets_after(command, before).angular == (match command {
            ActuatorCommand::Drive { angular, .. } => angular,
            ActuatorCommand::StopDrive => 0,
            _ => before.angular,
        }),
        targets_after(command, before).fan == (match command {
            ActuatorCommand::Fan(target) => target,
            _ => before.fan,
        }),
        targets_after(command, before).main_brush == (match command {
            ActuatorCommand::MainBrush(target) => target,
            _ => before.main_brush,
        }),
        targets_after(command, before).side_brush == (match command {
            ActuatorCommand::SideBrush(target) => target,
            _ => before.side_brush,
        }),
        targets_after(command, before).water_pump == (match command {
            ActuatorCommand::WaterPump { on_interval, .. } => on_interval,
            _ => before.water_pump,
        }),
        targets_after(command, before).lds_running == before.lds_running,
        !(command is Drive) && !(command is StopDrive) ==> lease_after(command, lease, now)
            == lease,
        command is StopDrive ==> lease_after(command, lease, now) is None,
        command matches ActuatorCommand::Drive { linear, angular } ==> {
            if linear % 0x8000_0000 == 0 && angular % 0x8000_0000 == 0 {
                lease_after(command, lease, now) is None
            } else {
                lease_after(command, lease, now) matches Some(until) && until == now + 250_000_000
            }
        },
{
}

/// After an emergency stop every target is zero and no lease runs.
pub proof fn emergency_stop_rests_everything(before: ActuatorTargets, lease: Option<u64>, now: u64)
    ensures
        ({
            let after = targets_after(ActuatorCommand::EmergencyStop, before);
            &&& after.linear == 0 && after.angular == 0
            &&& after.fan == 0 && after.main_brush == 0 && after.side_brush == 0
            &&& after.water_pump == 0 && !after.lds_running
        }),
        lease_after(ActuatorCommand::EmergencyStop, lease, now) is None,
{
}

/// The transmit counter of a session, and whether its wheels were enabled.
#[derive(Debug, Clone, Copy, PartialEq, Eq)]
pub struct McuSafetyGuard {
    pub next_sequence: u8,
    pub wheel_subsystem_enabled: bool,
}

impl McuSafetyGuard {
    /// Zero is no sequence.
    pub open spec fn wf(self) -> bool {
        self.next_sequence != 0
    }

    /// After one more sequence was taken.
    pub open spec fn advanced(self) -> Self {
        McuSafetyGuard { next_sequence: commands::sequence_after(self.next_sequence), ..self }
    }

    /// After five more.
    pub open spec fn advanced_by_stop(self) -> Self {
        McuSafetyGuard { next_sequence: commands::sequence_later(self.next_sequence, 5), ..self }
    }

    /// After `send` was written.
    pub open spec fn noting(self, send: Outgoing) -> Self {
        if send == Outgoing::Subsystem(WHEEL_ODOMETRY_SUBSYSTEM) {
            McuSafetyGuard { wheel_subsystem_enabled: true, ..self }
        } else {
            self
        }
    }

    pub fn new(first_sequence: u8) -> (guard: Self)
        requires
            first_sequence != 0,
        ensures
            guard.wf(),
            guard == (McuSafetyGuard {
                next_sequence: first_sequence,
                wheel_subsystem_enabled: false,
            }),
    {
        McuSafetyGuard { next_sequence: first_sequence, wheel_subsystem_enabled: false }
    }

    pub fn take_sequence(&mut self) -> (sequence: u8)
        ensures
            sequence == old(self).next_sequence,
            *final(self) == old(self).advanced(),
            final(self).wf(),
    {
        let sequence = self.next_sequence;
        self.next_sequence = next_tx_sequence(sequence);
        sequence
    }

    /// The frame that stops the wheels, whatever the MCU interlocks say.
    pub fn forced_wheel_stop(&mut self) -> (frame: Vec<u8>)
        requires
            old(self).wf(),
        ensures
            *final(self) == old(self).advanced(),
            final(self).wf(),
            commands::wheel_command_encodes(
                old(self).next_sequence,
                0,
                0,
                true,
                Ok::<Vec<u8>, String>(frame),
            ),
            commands::steers(frame@, old(self).next_sequence, 0, 0, true),
    {
        let sequence = self.take_sequence();
        match wheel_command_frame(sequence, 0, 0, true) {
            Ok(frame) => frame,
            Err(_) => Vec::new(),
        }
    }
}

/// What a command asks for next.
#[derive(Debug)]
pub enum RunStep {
    /// This frame is to be written.
    Write(Vec<u8>),
    /// It cannot go on.
    Failed(Error),
    /// All of its frames were written.
    Complete,
}

/// A command on its way, frame by frame.
#[derive(Debug)]
pub struct CommandRun {
    pub command: ActuatorCommand,
    pub sends: Vec<Outgoing>,
    /// How many frames were written.
    pub at: usize,
    /// The sequence of the frame that is being written.
    pub sequence: u8,
    /// The sequences of written frames that the MCU has to acknowledge.
    pub acknowledgements: Vec<u8>,
}

/// What waits for an acknowledgement once `send` goes out with a sequence.
pub open spec fn expecting(
    waiting: Map<u8, acks::CommandAckView>,
    send: Outgoing,
    sequence: u8,
    frame: Seq<u8>,
    now: u64,
) -> Map<u8, acks::CommandAckView> {
    if send.wants_ack() {
        waiting.insert(sequence, acks::CommandAckView::first_sent(frame, now))
    } else {
        waiting
    }
}

/// What goes out and asks for an acknowledgement waits for it, with the very bytes
/// that went out, sent once, and is due again 23 ms later. What asks for none does not
/// wait. Nothing else that waits is touched.
pub proof fn asking_frames_wait(
    waiting: Map<u8, acks::CommandAckView>,
    send: Outgoing,
    sequence: u8,
    raw: Vec<u8>,
    now: u64,
)
    requires
        send.encodes(sequence, Ok::<Vec<u8>, String>(raw)),
        now + 23_000_000 <= u64::MAX,
    ensures
        ({
            let after = expecting(waiting, send, sequence, raw@, now);
            &&& commands::delivered(raw@) is Some
            &&& if commands::delivered(raw@)->0.wants_ack {
                &&& after.dom() == waiting.dom().insert(sequence)
                &&& after[sequence].frame == raw@
                &&& !after[sequence].acknowledged
                &&& after[sequence].attempts == 1
                &&& after[sequence].next_retry == now + 23_000_000
            } else {
                after == waiting
            }
            &&& forall|other: u8|
                other != sequence && waiting.contains_key(other) ==> after.contains_key(other)
                    && #[trigger] after[other] == waiting[other]
        }),
{
    send.frame_tells_it(sequence, raw);
}

impl CommandRun {
    /// No more frames were written than there are.
    pub open spec fn wf(&self) -> bool {
        self.at <= self.sends@.len()
    }

    pub fn new(command: ActuatorCommand, wheels_enabled: bool) -> (run: Self)
        ensures
            run.wf(),
            run.command == command,
            run.sends@ == plan(command, wheels_enabled),
            run.at == 0,
            run.acknowledgements@ == Seq::<u8>::empty(),
    {
        let mut sends: Vec<Outgoing> = Vec::new();
        match command {
            ActuatorCommand::WakeMcu => {
                sends.push(Outgoing::SystemMode(0));
            },
            ActuatorCommand::EnableSubsystem(selector) => {
                sends.push(Outgoing::Subsystem(selector));
            },
            ActuatorCommand::Drive { linear, angular } => {
                if !wheels_enabled && !(is_zero(linear) && is_zero(angular)) {
                    sends.push(Outgoing::Subsystem(WHEEL_ODOMETRY_SUBSYSTEM));
                }
                sends.push(Outgoing::Wheels { linear, angular, forced: false });
            },
            ActuatorCommand::StopDrive => {
                sends.push(Outgoing::Wheels { linear: 0, angular: 0, forced: true });
            },
            ActuatorCommand::Fan(target) => {
                if target != 0 {
                    sends.push(Outgoing::Subsystem(FAN_SUBSYSTEM));
                }
                sends.push(Outgoing::Fan(target));
            },
            ActuatorCommand::MainBrush(target) => {
                if target != 0 {
                    sends.push(Outgoing::Subsystem(MAIN_BRUSH_SUBSYSTEM));
                }
                sends.push(Outgoing::MainBrush(target));
            },
            ActuatorCommand::SideBrush(target) => {
                if target != 0 {
                    sends.push(Outgoing::Subsystem(SIDE_BRUSH_SUBSYSTEM));
                }
                sends.push(Outgoing::SideBrush(target));
            },
            ActuatorCommand::WaterPump { on_interval, off_interval } => {
                sends.push(Outgoing::WaterPump { on_interval, off_interval });
            },
            ActuatorCommand::Charger(enabled) => {
                sends.push(Outgoing::Charger(enabled));
            },
            ActuatorCommand::EmergencyStop => {},
        }
        assert(sends@ =~= plan(command, wheels_enabled));
        CommandRun { command, sends, at: 0, sequence: 0, acknowledgements: Vec::new() }
    }

    /// The next frame. It takes its sequence now, and where the MCU has to
    /// acknowledge it, that is expected from now on.
    pub fn next(
        &mut self,
        guard: &mut McuSafetyGuard,
        tracker: &mut CommandAckTracker,
        now: u64,
    ) -> (step: RunStep)
        requires
            old(self).wf(),
            old(guard).wf(),
            old(tracker).wf(),
            now + ACK_TIMEOUT <= u64::MAX,
        ensures
            final(self).wf(),
            final(guard).wf(),
            final(tracker).wf(),
            if old(self).at == old(self).sends@.len() {
                &&& step is Complete
                &&& *final(self) == *old(self)
                &&& *final(guard) == *old(guard)
                &&& *final(tracker) == *old(tracker)
            } else {
                let send = old(self).sends@[old(self).at as int];
                let sequence = old(guard).next_sequence;
                &&& *final(guard) == old(guard).advanced()
                &&& *final(self) == (CommandRun { sequence, ..*old(self) })
                &&& if send.encodable() {
                    &&& step matches RunStep::Write(frame) && send.encodes(
                        sequence,
                        Ok::<Vec<u8>, String>(frame),
                    ) && send.tells(sequence, frame@)
                    &&& final(tracker)@ == expecting(
                        old(tracker)@,
                        send,
                        sequence,
                        step->Write_0@,
                        now,
                    )
                } else {
                    &&& step matches RunStep::Failed(e) && e@ == ErrorView::Other(send.refusal())
                    &&& *final(tracker) == *old(tracker)
                }
            },
    {
        if self.at == self.sends.len() {
            return RunStep::Complete;
        }
        let send = self.sends[self.at];
        let sequence = guard.take_sequence();
        self.sequence = sequence;
        match send.encode(sequence) {
            Ok(frame) => {
                if send.requires_ack() {
                    tracker.expect(sequence, frame.as_slice(), now);
                }
                RunStep::Write(frame)
            },
            Err(said) => RunStep::Failed(Error::Other(said)),
        }
    }

    /// The frame was written.
    pub fn written(&mut self, guard: &mut McuSafetyGuard)
        requires
            old(self).at < old(self).sends@.len(),
            old(guard).wf(),
        ensures
            final(self).wf(),
            final(guard).wf(),
            ({
                let send = old(self).sends@[old(self).at as int];
                &&& *final(guard) == old(guard).noting(send)
                &&& final(self).command == old(self).command
                &&& final(self).sends == old(self).sends
                &&& final(self).at == old(self).at + 1
                &&& final(self).sequence == old(self).sequence
                &&& final(self).acknowledgements@ == (if send.wants_ack() {
                    old(self).acknowledgements@.push(old(self).sequence)
                } else {
                    old(self).acknowledgements@
                })
            }),
    {
        assert(self.at < self.sends.len());
        let send = self.sends[self.at];
        if send.requires_ack() {
            self.acknowledgements.push(self.sequence);
        }
        if let Outgoing::Subsystem(selector) = send {
            if selector == WHEEL_ODOMETRY_SUBSYSTEM {
                guard.wheel_subsystem_enabled = true;
            }
        }
        self.at += 1;
    }

    /// The frame could not be written: no acknowledgement is expected for it.
    pub fn write_failed(&self, tracker: &mut CommandAckTracker)
        requires
            self.at < self.sends@.len(),
            old(tracker).wf(),
        ensures
            final(tracker).wf(),
            final(tracker)@ == (if self.sends@[self.at as int].wants_ack() {
                old(tracker)@.remove(self.sequence)
            } else {
                old(tracker)@
            }),
    {
        if self.sends[self.at].requires_ack() {
            tracker.cancel(self.sequence);
        }
    }

    /// Notes the targets of a command whose frames were all written.
    pub fn settle(&self, safety: &mut SafetyController, now: u64)
        requires
            old(safety).wf(),
            now + DRIVE_LEASE_DURATION <= u64::MAX,
        ensures
            final(safety).wf(),
            final(safety).targets == targets_after(self.command, old(safety).targets),
            final(safety).drive_lease_deadline == lease_after(
                self.command,
                old(safety).drive_lease_deadline,
                now,
            ),
    {
        match self.command {
            ActuatorCommand::Drive { linear, angular } => {
                safety.arm_drive_lease(linear, angular, now);
            },
            ActuatorCommand::StopDrive => {
                safety.clear_drive_target();
            },
            ActuatorCommand::Fan(target) => {
                safety.set_fan(target);
            },
            ActuatorCommand::MainBrush(target) => {
                safety.set_main_brush(target);
            },
            ActuatorCommand::SideBrush(target) => {
                safety.set_side_brush(target);
            },
            ActuatorCommand::WaterPump { on_interval, .. } => {
                safety.set_water_pump(on_interval);
            },
            ActuatorCommand::EmergencyStop => {
                safety.reset_targets();
            },
            _ => {},
        }
    }
}

/// What is said of the frames of the stop set.
pub open spec fn stop_description(i: int) -> Seq<char> {
    if i == 0 {
        "forced zero-wheel stop"@
    } else if i == 1 {
        "hard fan stop"@
    } else if i == 2 {
        "side-brush stop"@
    } else if i == 3 {
        "main-brush stop"@
    } else {
        "water-pump stop"@
    }
}

/// The outcome of encoding frame `i` of the stop set with a sequence.
pub open spec fn stop_encodes(i: int, sequence: u8, result: Result<Vec<u8>, String>) -> bool {
    if i == 0 {
        commands::wheel_command_encodes(sequence, 0, 0, true, result)
    } else if i == 1 {
        commands::command_encodes(sequence, commands::FAN_COMMAND, true, seq![0u8, 0u8], result)
    } else if i == 2 {
        commands::command_encodes(
            sequence,
            commands::SIDE_BRUSH_COMMAND,
            true,
            commands::brush_data(0, false),
            result,
        )
    } else if i == 3 {
        commands::command_encodes(
            sequence,
            commands::MAIN_BRUSH_COMMAND,
            true,
            commands::brush_data(0, false),
            result,
        )
    } else {
        commands::command_encodes(
            sequence,
            commands::WATER_PUMP_COMMAND,
            false,
            seq![0u8, 0u8],
            result,
        )
    }
}

/// Decoded, `wire` is frame `i` of the stop set: first a wheel command with both
/// targets zero that overrides; then, with two zero bytes each, the fan `c1`, the side
/// brush `c4`, the main brush `c3` and the pump `bf`.
pub open spec fn stops(i: int, sequence: u8, wire: Seq<u8>) -> bool {
    if i == 0 {
        commands::steers(wire, sequence, 0, 0, true)
    } else {
        &&& commands::arrives(
            wire,
            sequence,
            if i == 1 {
                0xc1
            } else if i == 2 {
                0xc4
            } else if i == 3 {
                0xc3
            } else {
                0xbf
            },
            i < 4,
        )
        &&& commands::data_in(wire) == seq![0u8, 0u8]
    }
}

/// The frames of the stop set, once decoded, stop the wheels, the fan, the side brush,
/// the main brush and the pump, in this order.
pub proof fn stop_set_stops_everything(i: int, sequence: u8, raw: Vec<u8>)
    requires
        0 <= i < 5,
        stop_encodes(i, sequence, Ok::<Vec<u8>, String>(raw)),
    ensures
        stops(i, sequence, raw@),
{
    let rest = seq![0u8, 0u8];
    assert(commands::brush_data(0, false) =~= rest);
    if i == 0 {
        commands::wheel_targets_keep_their_places(sequence, 0, 0, true, raw);
    } else if i == 1 {
        commands::encoding_is_delivered(sequence, commands::FAN_COMMAND, true, rest, raw);
    } else if i == 2 {
        commands::encoding_is_delivered(sequence, commands::SIDE_BRUSH_COMMAND, true, rest, raw);
    } else if i == 3 {
        commands::encoding_is_delivered(sequence, commands::MAIN_BRUSH_COMMAND, true, rest, raw);
    } else {
        commands::encoding_is_delivered(sequence, commands::WATER_PUMP_COMMAND, false, rest, raw);
    }
}

/// One frame of the stop set, with what it does.
pub type StopRecord = (&'static str, Result<Vec<u8>, String>);

/// The stop set: wheels, fan, side brush, main brush and pump, with sequences that
/// follow each other from `first_sequence` on, and the sequence after them.
pub fn ordered_stop_frames(first_sequence: u8) -> (stop: ([StopRecord; 5], u8))
    ensures
        stop.1 == commands::sequence_later(first_sequence, 5),
        forall|i: int|
            #![trigger stop.0@[i]]
            0 <= i < 5 ==> stop.0@[i].0@ == stop_description(i) && stop_encodes(
                i,
                commands::sequence_later(first_sequence, i as nat),
                stop.0@[i].1,
            ) && (first_sequence != 0 ==> stop.0@[i].1 is Ok),
        forall|i: int|
            #![trigger stop.0@[i]]
            0 <= i < 5 && stop.0@[i].1 is Ok ==> stops(
                i,
                commands::sequence_later(first_sequence, i as nat),
                stop.0@[i].1->Ok_0@,
            ),
{
    proof {
        reveal_with_fuel(commands::sequence_later, 6);
    }
    let wheel_sequence = first_sequence;
    let fan_sequence = next_tx_sequence(wheel_sequence);
    let side_brush_sequence = next_tx_sequence(fan_sequence);
    let main_brush_sequence = next_tx_sequence(side_brush_sequence);
    let water_pump_sequence = next_tx_sequence(main_brush_sequence);
    let next_sequence = next_tx_sequence(water_pump_sequence);
    let records: [StopRecord; 5] = [
        ("forced zero-wheel stop", wheel_command_frame(wheel_sequence, 0, 0, true)),
        ("hard fan stop", fan_command_frame(fan_sequence, 0)),
        ("side-brush stop", side_brush_command_frame(side_brush_sequence, 0, false)),
        ("main-brush stop", main_brush_command_frame(main_brush_sequence, 0, false)),
        ("water-pump stop", water_pump_command_frame(water_pump_sequence, 0, 0)),
    ];
    proof {
        assert forall|i: int| #![trigger records@[i]] 0 <= i < 5 && records@[i].1 is Ok implies stops(
            i,
            commands::sequence_later(first_sequence, i as nat),
            records@[i].1->Ok_0@,
        ) by {
            stop_set_stops_everything(
                i,
                commands::sequence_later(first_sequence, i as nat),
                records@[i].1->Ok_0,
            );
        }
    }
    (records, next_sequence)
}

/// How the first `done` frames of the stop set went: for each one, what went wrong.
pub open spec fn stop_failures(outcomes: Seq<Option<Seq<char>>>) -> Seq<char>
    decreases outcomes.len(),
{
    if outcomes.len() == 0 {
        Seq::empty()
    } else {
        let before = stop_failures(outcomes.drop_last());
        match outcomes.last() {
            Some(said) => {
                let this = stop_description(outcomes.len() - 1) + ": "@ + said;
                if before.len() == 0 {
                    this
                } else {
                    before + "; "@ + this
                }
            },
            None => before,
        }
    }
}

/// Each frame that failed is named with what went wrong, behind those before it; one that
/// was written adds nothing. The names are those of the wheels, the fan, the side brush,
/// the main brush and the pump.
pub proof fn failures_are_named(outcomes: Seq<Option<Seq<char>>>, said: Seq<char>)
    requires
        outcomes.len() < 5,
    ensures
        stop_failures(outcomes.push(None)) == stop_failures(outcomes),
        ({
            let name = seq![
                "forced zero-wheel stop"@,
                "hard fan stop"@,
                "side-brush stop"@,
                "main-brush stop"@,
                "water-pump stop"@,
            ][outcomes.len() as int];
            let all = stop_failures(outcomes.push(Some(said)));
            &&& stop_failures(outcomes).len() == 0 ==> all == name + ": "@ + said
            &&& stop_failures(outcomes).len() > 0 ==> all == stop_failures(outcomes) + "; "@ + (name
                + ": "@ + said)
        }),
{
    assert(outcomes.push(None).drop_last() =~= outcomes);
    assert(outcomes.push(Some(said)).drop_last() =~= outcomes);
}

/// All frames were written.
pub open spec fn no_failures(outcomes: Seq<Option<Seq<char>>>) -> bool {
    forall|i: int| 0 <= i < outcomes.len() ==> (#[trigger] outcomes[i]) is None
}

/// The stop set on its way. Every frame is attempted, whatever becomes of the ones
/// before it.
pub struct StopRun {
    records: [StopRecord; 5],
    at: usize,
    failures: String,
    failed: bool,
    first: Ghost<u8>,
    outcomes: Ghost<Seq<Option<Seq<char>>>>,
}

impl StopRun {
    /// The sequence of the first frame.
    pub closed spec fn first_sequence(&self) -> u8 {
        self.first@
    }

    /// How the frames so far went.
    pub closed spec fn outcomes(&self) -> Seq<Option<Seq<char>>> {
        self.outcomes@
    }

    pub closed spec fn wf(&self) -> bool {
        &&& self.first@ != 0
        &&& self.at <= 5
        &&& self.outcomes@.len() == self.at
        &&& self.failures@ == stop_failures(self.outcomes@)
        &&& self.failed == !no_failures(self.outcomes@)
        &&& self.failed <==> self.failures@.len() > 0
        &&& forall|i: int|
            #![trigger self.records@[i]]
            0 <= i < 5 ==> self.records@[i].0@ == stop_description(i) && stop_encodes(
                i,
                commands::sequence_later(self.first@, i as nat),
                self.records@[i].1,
            ) && self.records@[i].1 is Ok
    }

    /// There are no more than five frames.
    pub proof fn at_most_five(&self)
        requires
            self.wf(),
        ensures
            self.outcomes().len() <= 5,
    {
    }

    /// Starts the stop set. All five sequences are taken at once.
    pub fn begin(guard: &mut McuSafetyGuard) -> (run: Self)
        requires
            old(guard).wf(),
        ensures
            run.wf(),
            run.first_sequence() == old(guard).next_sequence,
            run.outcomes() == Seq::<Option<Seq<char>>>::empty(),
            *final(guard) == old(guard).advanced_by_stop(),
            final(guard).wf(),
    {
        let ghost first = guard.next_sequence;
        let (records, next_sequence) = ordered_stop_frames(guard.next_sequence);
        proof {
            commands::sequence_cycle(first, 5);
        }
        guard.next_sequence = next_sequence;
        StopRun {
            records,
            at: 0,
            failures: String::new(),
            failed: false,
            first: Ghost(first),
            outcomes: Ghost(Seq::empty()),
        }
    }

    /// The frame that is to be written now, until all five were attempted.
    pub fn frame(&self) -> (frame: Option<Vec<u8>>)
        requires
            self.wf(),
        ensures
            if self.outcomes().len() < 5 {
                frame matches Some(f) && stop_encodes(
                    self.outcomes().len() as int,
                    commands::sequence_later(self.first_sequence(), self.outcomes().len()),
                    Ok::<Vec<u8>, String>(f),
                ) && stops(
                    self.outcomes().len() as int,
                    commands::sequence_later(self.first_sequence(), self.outcomes().len()),
                    f@,
                )
            } else {
                frame is None
            },
    {
        if self.at == 5 {
            return None;
        }
        match &self.records[self.at].1 {
            Ok(frame) => {
                let copy = crate::bytes::copy_range(frame.as_slice(), 0, frame.len());
                assert(copy@ =~= frame@);
                proof {
                    stop_encodes_alike(
                        self.at as int,
                        commands::sequence_later(self.first@, self.at as nat),
                        *frame,
                        copy,
                    );
                    stop_set_stops_everything(
                        self.at as int,
                        commands::sequence_later(self.first@, self.at as nat),
                        copy,
                    );
                }
                Some(copy)
            },
            Err(_) => None,
        }
    }

    /// Says how the frame went: what went wrong, if anything did.
    pub fn attempted(&mut self, failure: Option<&str>)
        requires
            old(self).wf(),
            old(self).outcomes().len() < 5,
        ensures
            final(self).wf(),
            final(self).first_sequence() == old(self).first_sequence(),
            final(self).outcomes() == old(self).outcomes().push(
                match failure {
                    Some(said) => Some(said@),
                    None => None,
                },
            ),
    {
        let ghost outcome: Option<Seq<char>> = match failure {
            Some(said) => Some(said@),
            None => None,
        };
        let ghost grown = self.outcomes@.push(outcome);
        assert(grown.drop_last() =~= self.outcomes@);
        assert(no_failures(grown) == (no_failures(self.outcomes@) && outcome is None)) by {
            assert(grown.last() == grown[grown.len() - 1]);
            if no_failures(grown) {
                assert forall|i: int| 0 <= i < self.outcomes@.len() implies (
                #[trigger] self.outcomes@[i]) is None by {
                    assert(grown[i] is None);
                }
            }
            if no_failures(self.outcomes@) && outcome is None {
                assert forall|i: int| 0 <= i < grown.len() implies (#[trigger] grown[i]) is None by {
                    if i < self.outcomes@.len() {
                        assert(self.outcomes@[i] is None);
                    }
                }
            }
        }
        if let Some(said) = failure {
            proof {
                reveal_strlit(": ");
            }
            let this = join3(self.records[self.at].0, ": ", said);
            if self.failed {
                self.failures = join3(self.failures.as_str(), "; ", this.as_str());
            } else {
                self.failures = this;
            }
            self.failed = true;
        }
        self.at += 1;
        proof {
            self.outcomes@ = grown;
        }
    }

    /// The end of the stop set: all targets are at rest. It fails if any frame did,
    /// naming each of them.
    pub fn finish(self, safety: &mut SafetyController) -> (result: Result<(), Error>)
        requires
            self.wf(),
            self.outcomes().len() == 5,
        ensures
            final(safety).wf(),
            final(safety).targets == ActuatorTargets::at_rest(),
            final(safety).drive_lease_deadline is None,
            if no_failures(self.outcomes()) {
                result is Ok
            } else {
                error::fails_saying(result, stop_failures(self.outcomes()))
            },
    {
        safety.reset_targets();
        if self.failed {
            Err(Error::Other(self.failures))
        } else {
            Ok(())
        }
    }
}

proof fn stop_encodes_alike(i: int, sequence: u8, a: Vec<u8>, b: Vec<u8>)
    requires
        a@ == b@,
        stop_encodes(i, sequence, Ok::<Vec<u8>, String>(a)),
    ensures
        stop_encodes(i, sequence, Ok::<Vec<u8>, String>(b)),
{
}

} // verus!
