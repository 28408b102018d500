//! The driver as a whole: what starts and stops when, and what a failure leads to.
//!
//! Like the MCU session, each procedure here is a row of steps. A step takes what
//! happened last and says what to do now. Times are nanoseconds of a monotonic clock.

use crate::acks;
use crate::acks::CommandAckTracker;
use crate::control;
use crate::control::lidar_command;
use crate::control::LIDAR_COMMANDS;
use crate::error;
use crate::error::Error;
use crate::error::ErrorView;
use crate::guard::ActuatorCommand;
use crate::lifecycle;
use crate::lifecycle::DriverState;
use crate::lifecycle::Lifecycle;
use crate::lifecycle::Step;
use crate::safety;
use crate::safety::ActuatorTargets;
use crate::sensors::SensorGroups;
use crate::session::World;
use crate::text;
use crate::text::decimal_text;
use crate::text::join;
use vstd::prelude::*;

verus! {

/// How long the charger may take to take over.
pub const CHARGING_TIMEOUT: u64 = 2_000_000_000;

/// The devices of one robot and its geometry. The three measures are IEEE-754 bit
/// patterns.
#[derive(Debug)]
pub struct Hardware {
    pub mcu_port: String,
    pub lds_port: String,
    pub lds_motor: String,
    pub watchdog: String,
    /// The last sequence of the stock software; zero after a reset of the MCU.
    pub last_stock_sequence: Option<u8>,
    pub allow_actuation: bool,
    pub wheel_mm_per_tick: u32,
    pub wheel_track_m: u32,
    pub lds_forward_angle_deg: u32,
}

#[derive(Debug)]
pub struct DeviceConfig {
    pub name: String,
    pub roborock_s5max: Option<Hardware>,
}

/// Read-oriented production driver for the Roborock S5 Max.
#[derive(Debug)]
pub struct RoborockS5MaxDriver {
    pub config: DeviceConfig,
    /// The MCU worker is there.
    pub mcu: bool,
    /// The LDS worker is there.
    pub lds: bool,
    /// The LDS motor is held.
    pub lds_motor: bool,
    /// The watchdog worker is there.
    pub watchdog: bool,
    /// The dock state is being kept.
    pub dock_state: bool,
    pub restore_charging_on_shutdown: bool,
    pub initialized: bool,
}

/// What is said of a configuration without hardware.
pub open spec fn missing_section() -> ErrorView {
    ErrorView::Config("roborock_s5max device requires [device.roborock_s5max] section"@)
}

/// Why an actuator command is refused before it reaches the MCU worker.
pub open spec fn actuator_refusal(
    driver: RoborockS5MaxDriver,
    world: World,
    nonzero: bool,
    now: u64,
) -> Option<ErrorView> {
    match driver.config.roborock_s5max {
        None => Some(ErrorView::Config("missing Roborock S5 Max hardware configuration"@)),
        Some(hardware) => {
            let gate = safety::refusal(
                hardware.allow_actuation,
                world.lifecycle.state,
                world.lifecycle.last_safety_report,
                now,
            );
            if nonzero && gate is Some {
                gate
            } else if !driver.mcu {
                Some(ErrorView::Other("S5 Max MCU is not initialized"@))
            } else {
                None
            }
        },
    }
}

/// The dock state that is known.
pub open spec fn known_dock_state(driver: RoborockS5MaxDriver, world: World) -> Option<u16> {
    if driver.dock_state {
        Some(world.sensors.dock_state)
    } else {
        None
    }
}

/// What to do while the charger is to take over.
#[derive(Debug)]
pub enum Wait {
    /// It has.
    Confirmed,
    /// Not yet: sleep for 20 ms.
    Again,
    /// It took too long, or nobody knows.
    Failed(Error),
}

/// What is said of a charger that did not take over.
pub open spec fn unconfirmed(state: u16) -> ErrorView {
    ErrorView::Other(
        "S5 Max charging transition was not confirmed; dock_state="@ + text::decimal(state as nat),
    )
}

/// What is said of a start of the LDS on the dock.
pub open spec fn docked(state: u16) -> ErrorView {
    ErrorView::Other(
        "S5 Max LDS start requires physical undock; dock_state="@ + text::decimal(state as nat),
    )
}

impl RoborockS5MaxDriver {
    pub fn new(config: DeviceConfig) -> (driver: Result<Self, Error>)
        ensures
            match config.roborock_s5max {
                Some(_) => driver matches Ok(d) && d == (RoborockS5MaxDriver {
                    config,
                    mcu: false,
                    lds: false,
                    lds_motor: false,
                    watchdog: false,
                    dock_state: false,
                    restore_charging_on_shutdown: false,
                    initialized: false,
                }),
                None => error::fails(driver, missing_section()),
            },
    {
        if config.roborock_s5max.is_none() {
            return Err(
                Error::Config(
                    "roborock_s5max device requires [device.roborock_s5max] section".to_string(),
                ),
            );
        }
        Ok(
            RoborockS5MaxDriver {
                config,
                mcu: false,
                lds: false,
                lds_motor: false,
                watchdog: false,
                dock_state: false,
                restore_charging_on_shutdown: false,
                initialized: false,
            },
        )
    }

    /// Whether an actuator command may go to the MCU worker.
    pub fn execute_actuator(&self, world: &World, nonzero: bool, now: u64) -> (result: Result<
        (),
        Error,
    >)
        ensures
            match actuator_refusal(*self, *world, nonzero, now) {
                Some(e) => error::fails(result, e),
                None => result is Ok,
            },
    {
        let allow_actuation = match &self.config.roborock_s5max {
            Some(hardware) => hardware.allow_actuation,
            None => {
                return Err(
                    Error::Config("missing Roborock S5 Max hardware configuration".to_string()),
                );
            },
        };
        if nonzero {
            match world.safety.nonzero_allowed(&world.lifecycle, allow_actuation, now) {
                Ok(()) => {},
                Err(error) => {
                    return Err(error);
                },
            }
        }
        if !self.mcu {
            return Err(Error::Other("S5 Max MCU is not initialized".to_string()));
        }
        Ok(())
    }

    /// Whether the charger has taken over, while waiting for it until `deadline`.
    pub fn wait_for_charging(&self, world: &World, deadline: u64, now: u64) -> (wait: Wait)
        ensures
            match known_dock_state(*self, *world) {
                None => wait matches Wait::Failed(e) && e@ == ErrorView::Other(
                    "S5 Max dock state is unavailable"@,
                ),
                Some(state) => if now >= deadline {
                    wait matches Wait::Failed(e) && e@ == unconfirmed(state)
                } else if state == 1 {
                    wait is Confirmed
                } else {
                    wait is Again
                },
            },
            wait is Confirmed <==> self.dock_state && world.sensors.dock_state == 1 && now
                < deadline,
            wait is Again ==> now < deadline,
    {
        if !self.dock_state {
            return Wait::Failed(Error::Other("S5 Max dock state is unavailable".to_string()));
        }
        let state = world.sensors.dock_state();
        if now >= deadline {
            let number = decimal_text(state as u64);
            return Wait::Failed(
                Error::Other(
                    join(
                        "S5 Max charging transition was not confirmed; dock_state=",
                        number.as_str(),
                    ),
                ),
            );
        }
        if state == 1 {
            Wait::Confirmed
        } else {
            Wait::Again
        }
    }
}

/// What a procedure asks for.
#[derive(Debug)]
pub enum Request {
    /// Hand this command to the MCU worker, and wait until it is acknowledged.
    Execute(ActuatorCommand),
    /// Wait until the charger has taken over.
    WaitForCharging,
    /// Configure and start the LDS motor.
    StartMotor,
    /// Stop the LDS motor.
    StopMotor,
    /// Sleep for 250 ms.
    Settle,
    /// The end.
    Finish(Result<(), Error>),
}

/// Turning the charger on or off.
#[derive(Debug)]
pub struct ChargingRun {
    pub enabled: bool,
    /// The robot was on the dock when it was asked.
    pub was_docked: bool,
    /// The command went through, and the charger has to confirm it.
    pub confirming: bool,
}

/// What one step of turning the charger on or off does.
pub open spec fn charging_step(
    r: ChargingRun,
    d: RoborockS5MaxDriver,
    outcome: Result<(), Error>,
    r2: ChargingRun,
    d2: RoborockS5MaxDriver,
    request: Request,
) -> bool {
    match outcome {
        Err(e) => request == Request::Finish(Err(e)) && d2 == d && r2 == r,
        Ok(()) => if !r.enabled {
            &&& request == Request::Finish(Ok(()))
            &&& r2 == r
            &&& d2 == (RoborockS5MaxDriver {
                restore_charging_on_shutdown: d.restore_charging_on_shutdown || r.was_docked,
                ..d
            })
        } else if !r.confirming {
            &&& request is WaitForCharging
            &&& r2 == (ChargingRun { confirming: true, ..r })
            &&& d2 == d
        } else {
            &&& request == Request::Finish(Ok(()))
            &&& r2 == r
            &&& d2 == (RoborockS5MaxDriver { restore_charging_on_shutdown: false, ..d })
        },
    }
}

impl ChargingRun {
    /// Starts with the safety gate. The request is the command, or the refusal.
    pub fn begin(driver: &RoborockS5MaxDriver, world: &World, enabled: bool, now: u64) -> (started: (
        Self,
        Request,
    ))
        ensures
            started.0 == (ChargingRun {
                enabled,
                was_docked: known_dock_state(*driver, *world) matches Some(state) && state != 0,
                confirming: false,
            }),
            match actuator_refusal(*driver, *world, true, now) {
                Some(e) => started.1 matches Request::Finish(result) && error::fails(result, e),
                None => started.1 == Request::Execute(ActuatorCommand::Charger(enabled)),
            },
            started.0.was_docked <==> driver.dock_state && world.sensors.dock_state != 0,
            started.0.enabled == enabled,
    {
        let was_docked = driver.dock_state && world.sensors.dock_state() != 0;
        let run = ChargingRun { enabled, was_docked, confirming: false };
        let request = match driver.execute_actuator(world, true, now) {
            Ok(()) => Request::Execute(ActuatorCommand::Charger(enabled)),
            Err(error) => Request::Finish(Err(error)),
        };
        (run, request)
    }

    /// Goes on after the command, and then after the confirmation. Turning the
    /// charger off on the dock is undone at shutdown; turning it on is not.
    pub fn step(&mut self, driver: &mut RoborockS5MaxDriver, outcome: Result<(), Error>) -> (request:
        Request)
        ensures
            charging_step(
                *old(self),
                *old(driver),
                outcome,
                *final(self),
                *final(driver),
                request,
            ),
    {
        if let Err(error) = outcome {
            return Request::Finish(Err(error));
        }
        if !self.enabled {
            // The charger command does not end physical dock contact. On the dock the
            // MCU may report a very short non-charging transition and then return to
            // state 1 while the contacts remain engaged. The acknowledged command is
            // therefore the only synchronous completion condition for disable.
            driver.restore_charging_on_shutdown =
            driver.restore_charging_on_shutdown || self.was_docked;
            return Request::Finish(Ok(()));
        }
        if !self.confirming {
            self.confirming = true;
            return Request::WaitForCharging;
        }
        driver.restore_charging_on_shutdown = false;
        Request::Finish(Ok(()))
    }
}

/// Where the start of the LDS stands.
#[derive(Debug, Clone, Copy, PartialEq, Eq, Structural)]
pub enum LidarPhase {
    /// Commands are being acknowledged.
    Commanding,
    /// The subsystems settle.
    Settling,
    /// The motor is being started.
    Starting,
    /// The motor did not start and is being stopped.
    Undoing,
    /// The motor is being stopped because the LDS was turned off.
    Stopping,
}

/// Turning the LDS on or off.
#[derive(Debug)]
pub struct LidarRun {
    pub phase: LidarPhase,
    /// How many commands were acknowledged.
    pub at: usize,
    /// Why the motor did not start.
    pub failure: Option<Error>,
}

/// Why the LDS may not start, where `motor_running` says that it does not run yet.
pub open spec fn lidar_refusal(
    driver: RoborockS5MaxDriver,
    world: World,
    now: u64,
) -> Option<ErrorView> {
    let gate = safety::refusal(
        driver.config.roborock_s5max->0.allow_actuation,
        world.lifecycle.state,
        world.lifecycle.last_safety_report,
        now,
    );
    let state = match known_dock_state(driver, world) {
        Some(state) => state,
        None => u16::MAX,
    };
    if gate is Some {
        gate
    } else if state != 0 || driver.restore_charging_on_shutdown {
        Some(docked(state))
    } else {
        None
    }
}

/// The request for a command that is not subject to the safety gate.
pub open spec fn requests_command(
    driver: RoborockS5MaxDriver,
    world: World,
    command: ActuatorCommand,
    now: u64,
    request: Request,
) -> bool {
    match actuator_refusal(driver, world, false, now) {
        Some(e) => request matches Request::Finish(result) && error::fails(result, e),
        None => request == Request::Execute(command),
    }
}

fn request_command(
    driver: &RoborockS5MaxDriver,
    world: &World,
    command: ActuatorCommand,
    now: u64,
) -> (request: Request)
    ensures
        requests_command(*driver, *world, command, now, request),
{
    match driver.execute_actuator(world, false, now) {
        Ok(()) => Request::Execute(command),
        Err(error) => Request::Finish(Err(error)),
    }
}

impl LidarRun {
    pub open spec fn wf(&self) -> bool {
        &&& self.phase == LidarPhase::Commanding ==> self.at < LIDAR_COMMANDS
        &&& self.phase == LidarPhase::Undoing ==> self.failure is Some
    }

    /// Starts to turn the LDS on. It needs the safety gate and, unless it runs
    /// already, a robot off the dock.
    pub fn enable(driver: &RoborockS5MaxDriver, world: &World, motor_running: bool, now: u64) -> (
    started: (Self, Request))
        requires
            driver.config.roborock_s5max is Some,
        ensures
            started.0.wf(),
            started.0 == (LidarRun { phase: LidarPhase::Commanding, at: 0, failure: None }),
            ({
                let gate = safety::refusal(
                    driver.config.roborock_s5max->0.allow_actuation,
                    world.lifecycle.state,
                    world.lifecycle.last_safety_report,
                    now,
                );
                if gate is None && driver.lds_motor && motor_running {
                    started.1 == Request::Finish(Ok(()))
                } else {
                    match lidar_refusal(*driver, *world, now) {
                        Some(e) => started.1 matches Request::Finish(result) && error::fails(
                            result,
                            e,
                        ),
                        None => requests_command(
                            *driver,
                            *world,
                            control::lidar_commands()[0],
                            now,
                            started.1,
                        ),
                    }
                }
            }),
            started.1 matches Request::Execute(command) ==> command == ActuatorCommand::Charger(
                false,
            ) && driver.dock_state && world.sensors.dock_state == 0
                && !driver.restore_charging_on_shutdown && !(driver.lds_motor && motor_running),
    {
        let run = LidarRun { phase: LidarPhase::Commanding, at: 0, failure: None };
        let allow_actuation = match &driver.config.roborock_s5max {
            Some(hardware) => hardware.allow_actuation,
            None => false,
        };
        match world.safety.nonzero_allowed(&world.lifecycle, allow_actuation, now) {
            Ok(()) => {},
            Err(error) => {
                return (run, Request::Finish(Err(error)));
            },
        }
        if driver.lds_motor && motor_running {
            return (run, Request::Finish(Ok(())));
        }
        let state: u16 = if driver.dock_state {
            world.sensors.dock_state()
        } else {
            65535
        };
        if state != 0 || driver.restore_charging_on_shutdown {
            let number = decimal_text(state as u64);
            let error = Error::Other(
                join("S5 Max LDS start requires physical undock; dock_state=", number.as_str()),
            );
            return (run, Request::Finish(Err(error)));
        }
        // A permanent replacement can take ownership before the stock stack has
        // converted an undocked boot into the normal/discharge state. MCU telemetry
        // remains available there, but the LDS power domain does not start. The stock
        // discharge transition and wake come before the motor controller.
        let request = request_command(driver, world, lidar_command(0), now);
        (run, request)
    }

    /// Starts to turn the LDS off.
    pub fn disable(driver: &RoborockS5MaxDriver, world: &mut World) -> (started: (Self, Request))
        requires
            old(world).wf(),
        ensures
            final(world).wf(),
            started.0.wf(),
            started.0.phase == LidarPhase::Stopping,
            if driver.lds_motor {
                started.1 is StopMotor && *final(world) == *old(world)
            } else {
                &&& started.1 == Request::Finish(Ok(()))
                &&& *final(world) == (World { safety: final(world).safety, ..*old(world) })
                &&& final(world).safety.targets == (ActuatorTargets {
                    lds_running: false,
                    ..old(world).safety.targets
                })
                &&& final(world).safety.drive_lease_deadline
                    == old(world).safety.drive_lease_deadline
            },
    {
        let run = LidarRun { phase: LidarPhase::Stopping, at: 0, failure: None };
        if driver.lds_motor {
            (run, Request::StopMotor)
        } else {
            world.safety.set_lds_running(false);
            (run, Request::Finish(Ok(())))
        }
    }

    /// Goes on. The motor starts only once all commands were acknowledged and the
    /// subsystems have settled; if it does not start, it is stopped.
    pub fn step(
        &mut self,
        driver: &RoborockS5MaxDriver,
        world: &mut World,
        outcome: Result<(), Error>,
        now: u64,
    ) -> (request: Request)
        requires
            old(self).wf(),
            old(world).wf(),
        ensures
            final(self).wf(),
            final(world).wf(),
            lidar_step(
                *old(self),
                *driver,
                *old(world),
                outcome,
                now,
                *final(self),
                *final(world),
                request,
            ),
    {
        match self.phase {
            LidarPhase::Commanding => match outcome {
                Err(error) => Request::Finish(Err(error)),
                Ok(()) => {
                    if self.at + 1 < LIDAR_COMMANDS {
                        self.at += 1;
                        request_command(driver, world, lidar_command(self.at), now)
                    } else {
                        self.phase = LidarPhase::Settling;
                        Request::Settle
                    }
                },
            },
            LidarPhase::Settling => {
                if driver.lds_motor {
                    self.phase = LidarPhase::Starting;
                    Request::StartMotor
                } else {
                    Request::Finish(
                        Err(Error::Other("S5 Max LDS motor is unavailable".to_string())),
                    )
                }
            },
            LidarPhase::Starting => match outcome {
                Err(error) => {
                    self.failure = Some(error);
                    self.phase = LidarPhase::Undoing;
                    Request::StopMotor
                },
                Ok(()) => {
                    world.safety.set_lds_running(true);
                    Request::Finish(Ok(()))
                },
            },
            LidarPhase::Undoing => {
                let mut failure: Option<Error> = None;
                std::mem::swap(&mut failure, &mut self.failure);
                self.phase = LidarPhase::Stopping;
                match failure {
                    Some(error) => Request::Finish(Err(error)),
                    None => Request::Finish(Ok(())),
                }
            },
            LidarPhase::Stopping => {
                world.safety.set_lds_running(false);
                Request::Finish(outcome)
            },
        }
    }
}

/// Only the note whether the LDS runs has changed.
pub open spec fn only_lds_running(w: World, w2: World, running: bool) -> bool {
    &&& w2 == (World { safety: w2.safety, ..w })
    &&& w2.safety.targets == (ActuatorTargets { lds_running: running, ..w.safety.targets })
    &&& w2.safety.drive_lease_deadline == w.safety.drive_lease_deadline
}

/// What one step of turning the LDS on or off does.
pub open spec fn lidar_step(
    r: LidarRun,
    driver: RoborockS5MaxDriver,
    w: World,
    outcome: Result<(), Error>,
    now: u64,
    r2: LidarRun,
    w2: World,
    request: Request,
) -> bool {
    match r.phase {
        LidarPhase::Commanding => w2 == w && match outcome {
            Err(e) => request == Request::Finish(Err(e)) && r2 == r,
            Ok(()) => if r.at + 1 < LIDAR_COMMANDS {
                &&& r2 == (LidarRun { at: (r.at + 1) as usize, ..r })
                &&& requests_command(
                    driver,
                    w,
                    control::lidar_commands()[r.at + 1],
                    now,
                    request,
                )
            } else {
                r2 == (LidarRun { phase: LidarPhase::Settling, ..r }) && request is Settle
            },
        },
        LidarPhase::Settling => w2 == w && if driver.lds_motor {
            r2 == (LidarRun { phase: LidarPhase::Starting, ..r }) && request is StartMotor
        } else {
            r2 == r && (request matches Request::Finish(result) && error::fails_saying(
                result,
                "S5 Max LDS motor is unavailable"@,
            ))
        },
        LidarPhase::Starting => match outcome {
            Err(e) => {
                &&& r2 == (LidarRun { phase: LidarPhase::Undoing, failure: Some(e), ..r })
                &&& request is StopMotor
                &&& w2 == w
            },
            Ok(()) => r2 == r && request == Request::Finish(Ok(())) && only_lds_running(
                w,
                w2,
                true,
            ),
        },
        LidarPhase::Undoing => {
            &&& r2 == (LidarRun { phase: LidarPhase::Stopping, failure: None, ..r })
            &&& request == Request::Finish(Err(r.failure->0))
            &&& w2 == w
        },
        LidarPhase::Stopping => r2 == r && request == Request::Finish(outcome) && only_lds_running(
            w,
            w2,
            false,
        ),
    }
}

/// Where a shutdown stands.
#[derive(Debug, Clone, Copy, PartialEq, Eq, Structural)]
pub enum ShutdownPhase {
    Begin,
    EmergencyStop,
    StopMotor,
    /// The stops were attempted; is the charger to be turned on again?
    Charger,
    ChargerCommand,
    ChargerWait,
    /// The workers are told to end.
    Workers,
    JoinLds,
    JoinMcu,
    DisarmMotor,
    JoinWatchdog,
    Last,
    Closed,
}

/// What a shutdown asks for.
#[derive(Debug)]
pub enum ShutdownRequest {
    /// Nothing: go on.
    Continue,
    /// Hand this command to the MCU worker, and wait until it is acknowledged.
    Execute(ActuatorCommand),
    /// Wait until the charger has taken over.
    WaitForCharging,
    /// Stop the LDS motor.
    StopMotor,
    /// Tell all workers to end.
    RaiseShutdown,
    /// Wait for the LDS worker.
    JoinLds,
    /// Wait for the MCU worker.
    JoinMcu,
    /// Stop the LDS motor for good and release it.
    DisarmMotor,
    /// Wait for the watchdog worker.
    JoinWatchdog,
    /// The end.
    Finish(Result<(), Error>),
}

/// Shutting the driver down. Every part of it is attempted, and the first failure
/// is the one that is reported.
#[derive(Debug)]
pub struct ShutdownRun {
    pub phase: ShutdownPhase,
    /// The driver had failed before.
    pub faulted: bool,
    pub first_error: Option<Error>,
}

/// The first failure, after one more outcome.
pub open spec fn noting(first: Option<Error>, outcome: Result<(), Error>) -> Option<Error> {
    match (first, outcome) {
        (None, Err(e)) => Some(e),
        _ => first,
    }
}

impl ShutdownRun {
    /// Keeps the first failure.
    fn note(&mut self, outcome: Result<(), Error>)
        ensures
            *final(self) == (ShutdownRun {
                first_error: noting(old(self).first_error, outcome),
                ..*old(self)
            }),
    {
        if self.first_error.is_none() {
            if let Err(error) = outcome {
                self.first_error = Some(error);
            }
        }
    }

    pub fn new() -> (run: Self)
        ensures
            run == (ShutdownRun { phase: ShutdownPhase::Begin, faulted: false, first_error: None }),
    {
        ShutdownRun { phase: ShutdownPhase::Begin, faulted: false, first_error: None }
    }

    /// Goes on after what was asked for last.
    pub fn step(
        &mut self,
        driver: &mut RoborockS5MaxDriver,
        world: &mut World,
        outcome: Result<(), Error>,
        now: u64,
    ) -> (request: ShutdownRequest)
        requires
            old(world).wf(),
            old(self).phase != ShutdownPhase::Closed,
        ensures
            final(world).wf(),
            shutdown_step(
                *old(self),
                *old(driver),
                *old(world),
                outcome,
                now,
                *final(self),
                *final(driver),
                *final(world),
                request,
            ),
    {
        match self.phase {
            ShutdownPhase::Begin => {
                self.faulted = world.lifecycle.state() == DriverState::Fault;
                if !driver.initialized {
                    self.phase = ShutdownPhase::Workers;
                    ShutdownRequest::Continue
                } else if driver.mcu {
                    self.phase = ShutdownPhase::EmergencyStop;
                    ShutdownRequest::Execute(ActuatorCommand::EmergencyStop)
                } else {
                    self.phase = ShutdownPhase::EmergencyStop;
                    ShutdownRequest::Continue
                }
            },
            ShutdownPhase::EmergencyStop => {
                self.note(outcome);
                self.phase = ShutdownPhase::StopMotor;
                if driver.lds_motor {
                    ShutdownRequest::StopMotor
                } else {
                    ShutdownRequest::Continue
                }
            },
            ShutdownPhase::StopMotor => {
                self.note(outcome);
                world.safety.set_lds_running(false);
                self.phase = ShutdownPhase::Charger;
                ShutdownRequest::Continue
            },
            ShutdownPhase::Charger => {
                if !driver.restore_charging_on_shutdown || self.faulted {
                    self.phase = ShutdownPhase::Workers;
                    ShutdownRequest::Continue
                } else if driver.mcu {
                    self.phase = ShutdownPhase::ChargerCommand;
                    ShutdownRequest::Execute(ActuatorCommand::Charger(true))
                } else {
                    self.note(Err(Error::Other("S5 Max MCU is unavailable".to_string())));
                    self.phase = ShutdownPhase::Workers;
                    ShutdownRequest::Continue
                }
            },
            ShutdownPhase::ChargerCommand => match outcome {
                Ok(()) => {
                    self.phase = ShutdownPhase::ChargerWait;
                    ShutdownRequest::WaitForCharging
                },
                Err(error) => {
                    self.note(Err(error));
                    self.phase = ShutdownPhase::Workers;
                    ShutdownRequest::Continue
                },
            },
            ShutdownPhase::ChargerWait => {
                if outcome.is_ok() {
                    driver.restore_charging_on_shutdown = false;
                }
                self.note(outcome);
                self.phase = ShutdownPhase::Workers;
                ShutdownRequest::Continue
            },
            ShutdownPhase::Workers => {
                world.lifecycle.begin_stopping(now);
                self.phase = ShutdownPhase::JoinLds;
                ShutdownRequest::RaiseShutdown
            },
            ShutdownPhase::JoinLds => {
                self.phase = ShutdownPhase::JoinMcu;
                if driver.lds {
                    driver.lds = false;
                    ShutdownRequest::JoinLds
                } else {
                    ShutdownRequest::Continue
                }
            },
            ShutdownPhase::JoinMcu => {
                self.note(outcome);
                self.phase = ShutdownPhase::DisarmMotor;
                if driver.mcu {
                    driver.mcu = false;
                    ShutdownRequest::JoinMcu
                } else {
                    ShutdownRequest::Continue
                }
            },
            ShutdownPhase::DisarmMotor => {
                self.note(outcome);
                self.phase = ShutdownPhase::JoinWatchdog;
                if driver.lds_motor {
                    driver.lds_motor = false;
                    ShutdownRequest::DisarmMotor
                } else {
                    ShutdownRequest::Continue
                }
            },
            ShutdownPhase::JoinWatchdog => {
                self.note(outcome);
                self.phase = ShutdownPhase::Last;
                if driver.watchdog {
                    driver.watchdog = false;
                    ShutdownRequest::JoinWatchdog
                } else {
                    ShutdownRequest::Continue
                }
            },
            ShutdownPhase::Last => {
                self.note(outcome);
                driver.initialized = false;
                world.safety.reset_targets();
                self.phase = ShutdownPhase::Closed;
                let mut first: Option<Error> = None;
                std::mem::swap(&mut first, &mut self.first_error);
                match first {
                    Some(error) => {
                        let reason = join("shutdown: ", error.message());
                        world.lifecycle.fault(reason.as_str(), now);
                        ShutdownRequest::Finish(Err(error))
                    },
                    None => {
                        if self.faulted {
                            ShutdownRequest::Finish(Ok(()))
                        } else {
                            ShutdownRequest::Finish(world.lifecycle.mark_stopped(now))
                        }
                    },
                }
            },
            ShutdownPhase::Closed => ShutdownRequest::Continue,
        }
    }
}

/// The lifecycle after the driver begins to stop.
pub open spec fn begun_stopping(l: Lifecycle, l2: Lifecycle, now: u64) -> bool {
    let next = lifecycle::state_after(l.state, Step::BeginStopping)->0;
    if next == l.state {
        l2 == l
    } else {
        lifecycle::entered(l, l2, next, now)
    }
}

/// The lifecycle after the driver has stopped, and whether that was in order.
pub open spec fn stopped(l: Lifecycle, l2: Lifecycle, now: u64, result: Result<(), Error>) -> bool {
    match lifecycle::state_after(l.state, Step::MarkStopped) {
        Some(next) => result is Ok && (if next == DriverState::Fault {
            l2 == l
        } else {
            lifecycle::entered(l, l2, next, now)
        }),
        None => l2 == l && error::fails_saying(
            result,
            "S5 Max cannot enter stopped from "@ + l.state.text(),
        ),
    }
}

/// The next phase with the outcome noted, a request where the part is there, and
/// the part then gone.
pub open spec fn shutdown_part(
    r: ShutdownRun,
    outcome: Result<(), Error>,
    phase: ShutdownPhase,
    r2: ShutdownRun,
) -> bool {
    r2 == (ShutdownRun { phase, first_error: noting(r.first_error, outcome), ..r })
}

/// The end of a shutdown.
pub open spec fn shutdown_end(
    r: ShutdownRun,
    w: World,
    outcome: Result<(), Error>,
    now: u64,
    r2: ShutdownRun,
    w2: World,
    request: ShutdownRequest,
) -> bool {
    let first = noting(r.first_error, outcome);
    &&& r2 == (ShutdownRun { phase: ShutdownPhase::Closed, first_error: None, ..r })
    &&& w2 == (World { safety: w2.safety, lifecycle: w2.lifecycle, ..w })
    &&& w2.safety.targets == ActuatorTargets::at_rest()
    &&& w2.safety.drive_lease_deadline is None
    &&& match first {
        Some(e) => {
            &&& request == ShutdownRequest::Finish(Err(e))
            &&& lifecycle::faulted_with(w.lifecycle, w2.lifecycle, "shutdown: "@ + e@.text(), now)
        },
        None => if r.faulted {
            request == ShutdownRequest::Finish(Ok(())) && w2.lifecycle == w.lifecycle
        } else {
            request matches ShutdownRequest::Finish(result) && stopped(
                w.lifecycle,
                w2.lifecycle,
                now,
                result,
            )
        },
    }
}

/// What one step of a shutdown does.
pub open spec fn shutdown_step(
    r: ShutdownRun,
    d: RoborockS5MaxDriver,
    w: World,
    outcome: Result<(), Error>,
    now: u64,
    r2: ShutdownRun,
    d2: RoborockS5MaxDriver,
    w2: World,
    request: ShutdownRequest,
) -> bool {
    match r.phase {
        ShutdownPhase::Begin => {
            &&& d2 == d
            &&& w2 == w
            &&& r2 == (ShutdownRun {
                phase: if d.initialized {
                    ShutdownPhase::EmergencyStop
                } else {
                    ShutdownPhase::Workers
                },
                faulted: w.lifecycle.state == DriverState::Fault,
                ..r
            })
            &&& request == (if d.initialized && d.mcu {
                ShutdownRequest::Execute(ActuatorCommand::EmergencyStop)
            } else {
                ShutdownRequest::Continue
            })
        },
        ShutdownPhase::EmergencyStop => {
            &&& d2 == d
            &&& w2 == w
            &&& shutdown_part(r, outcome, ShutdownPhase::StopMotor, r2)
            &&& request == (if d.lds_motor {
                ShutdownRequest::StopMotor
            } else {
                ShutdownRequest::Continue
            })
        },
        ShutdownPhase::StopMotor => {
            &&& d2 == d
            &&& only_lds_running(w, w2, false)
            &&& shutdown_part(r, outcome, ShutdownPhase::Charger, r2)
            &&& request is Continue
        },
        ShutdownPhase::Charger => {
            &&& d2 == d
            &&& w2 == w
            &&& if !d.restore_charging_on_shutdown || r.faulted {
                r2 == (ShutdownRun { phase: ShutdownPhase::Workers, ..r }) && request is Continue
            } else if d.mcu {
                &&& r2 == (ShutdownRun { phase: ShutdownPhase::ChargerCommand, ..r })
                &&& request == ShutdownRequest::Execute(ActuatorCommand::Charger(true))
            } else {
                &&& request is Continue
                &&& r2.phase == ShutdownPhase::Workers
                &&& r2.faulted == r.faulted
                &&& match r.first_error {
                    Some(e) => r2.first_error == Some(e),
                    None => r2.first_error matches Some(e) && e@ == ErrorView::Other(
                        "S5 Max MCU is unavailable"@,
                    ),
                }
            }
        },
        ShutdownPhase::ChargerCommand => {
            &&& d2 == d
            &&& w2 == w
            &&& match outcome {
                Ok(()) => r2 == (ShutdownRun { phase: ShutdownPhase::ChargerWait, ..r })
                    && request is WaitForCharging,
                Err(_) => shutdown_part(r, outcome, ShutdownPhase::Workers, r2) && request
                    is Continue,
            }
        },
        ShutdownPhase::ChargerWait => {
            &&& d2 == (RoborockS5MaxDriver {
                restore_charging_on_shutdown: d.restore_charging_on_shutdown && outcome is Err,
                ..d
            })
            &&& w2 == w
            &&& shutdown_part(r, outcome, ShutdownPhase::Workers, r2)
            &&& request is Continue
        },
        ShutdownPhase::Workers => {
            &&& d2 == d
            &&& w2 == (World { lifecycle: w2.lifecycle, ..w })
            &&& begun_stopping(w.lifecycle, w2.lifecycle, now)
            &&& r2 == (ShutdownRun { phase: ShutdownPhase::JoinLds, ..r })
            &&& request is RaiseShutdown
        },
        ShutdownPhase::JoinLds => {
            &&& d2 == (RoborockS5MaxDriver { lds: false, ..d })
            &&& w2 == w
            &&& r2 == (ShutdownRun { phase: ShutdownPhase::JoinMcu, ..r })
            &&& request == (if d.lds {
                ShutdownRequest::JoinLds
            } else {
                ShutdownRequest::Continue
            })
        },
        ShutdownPhase::JoinMcu => {
            &&& d2 == (RoborockS5MaxDriver { mcu: false, ..d })
            &&& w2 == w
            &&& shutdown_part(r, outcome, ShutdownPhase::DisarmMotor, r2)
            &&& request == (if d.mcu {
                ShutdownRequest::JoinMcu
            } else {
                ShutdownRequest::Continue
            })
        },
        ShutdownPhase::DisarmMotor => {
            &&& d2 == (RoborockS5MaxDriver { lds_motor: false, ..d })
            &&& w2 == w
            &&& shutdown_part(r, outcome, ShutdownPhase::JoinWatchdog, r2)
            &&& request == (if d.lds_motor {
                ShutdownRequest::DisarmMotor
            } else {
                ShutdownRequest::Continue
            })
        },
        ShutdownPhase::JoinWatchdog => {
            &&& d2 == (RoborockS5MaxDriver { watchdog: false, ..d })
            &&& w2 == w
            &&& shutdown_part(r, outcome, ShutdownPhase::Last, r2)
            &&& request == (if d.watchdog {
                ShutdownRequest::JoinWatchdog
            } else {
                ShutdownRequest::Continue
            })
        },
        ShutdownPhase::Last => {
            &&& d2 == (RoborockS5MaxDriver { initialized: false, ..d })
            &&& shutdown_end(r, w, outcome, now, r2, w2, request)
        },
        ShutdownPhase::Closed => false,
    }
}

/// How far a shutdown has come.
pub open spec fn shutdown_rank(phase: ShutdownPhase) -> int {
    match phase {
        ShutdownPhase::Begin => 0,
        ShutdownPhase::EmergencyStop => 1,
        ShutdownPhase::StopMotor => 2,
        ShutdownPhase::Charger => 3,
        ShutdownPhase::ChargerCommand => 4,
        ShutdownPhase::ChargerWait => 5,
        ShutdownPhase::Workers => 6,
        ShutdownPhase::JoinLds => 7,
        ShutdownPhase::JoinMcu => 8,
        ShutdownPhase::DisarmMotor => 9,
        ShutdownPhase::JoinWatchdog => 10,
        ShutdownPhase::Last => 11,
        ShutdownPhase::Closed => 12,
    }
}

/// A shutdown always comes to its end, whatever fails on the way: each step goes
/// further, no part that has to be stopped or joined is left out, and the first
/// failure is kept to be reported.
pub proof fn shutdown_attempts_everything(
    r: ShutdownRun,
    d: RoborockS5MaxDriver,
    w: World,
    outcome: Result<(), Error>,
    now: u64,
    r2: ShutdownRun,
    d2: RoborockS5MaxDriver,
    w2: World,
    request: ShutdownRequest,
)
    requires
        shutdown_step(r, d, w, outcome, now, r2, d2, w2, request),
    ensures
        shutdown_rank(r2.phase) > shutdown_rank(r.phase),
        // From the workers on, no phase is skipped.
        shutdown_rank(r.phase) >= 6 ==> shutdown_rank(r2.phase) == shutdown_rank(r.phase) + 1,
        // An initialized driver attempts both stops first.
        r.phase == ShutdownPhase::Begin && d.initialized ==> r2.phase
            == ShutdownPhase::EmergencyStop && (d.mcu ==> request == ShutdownRequest::Execute(
            ActuatorCommand::EmergencyStop,
        )),
        r.phase == ShutdownPhase::EmergencyStop ==> r2.phase == ShutdownPhase::StopMotor && (
        d.lds_motor ==> request is StopMotor),
        r.phase == ShutdownPhase::JoinLds && d.lds ==> request is JoinLds,
        r.phase == ShutdownPhase::JoinMcu && d.mcu ==> request is JoinMcu,
        r.phase == ShutdownPhase::DisarmMotor && d.lds_motor ==> request is DisarmMotor,
        r.phase == ShutdownPhase::JoinWatchdog && d.watchdog ==> request is JoinWatchdog,
        // The first failure stays.
        r.first_error is Some && r2.phase != ShutdownPhase::Closed ==> r2.first_error
            == r.first_error,
        r.first_error is Some && r2.phase == ShutdownPhase::Closed ==> request
            == ShutdownRequest::Finish(Err(r.first_error->0)),
        // At the end everything is at rest.
        r2.phase == ShutdownPhase::Closed ==> w2.safety.targets == ActuatorTargets::at_rest()
            && !d2.initialized,
{
}

/// The LDS motor starts only after all commands before it were acknowledged and the
/// subsystems have settled, and a motor that did not start is stopped.
pub proof fn motor_starts_last(
    r: LidarRun,
    d: RoborockS5MaxDriver,
    w: World,
    outcome: Result<(), Error>,
    now: u64,
    r2: LidarRun,
    w2: World,
    request: Request,
)
    requires
        lidar_step(r, d, w, outcome, now, r2, w2, request),
    ensures
        request is StartMotor ==> r.phase == LidarPhase::Settling,
        r2.phase == LidarPhase::Settling && r.phase != LidarPhase::Settling ==> r.phase
            == LidarPhase::Commanding && r.at + 1 >= LIDAR_COMMANDS && outcome is Ok,
        r.phase == LidarPhase::Starting && outcome is Err ==> request is StopMotor,
        r.phase == LidarPhase::Commanding && outcome is Err ==> request is Finish,
{
}

/// Where the initialization stands.
#[derive(Debug, Clone, Copy, PartialEq, Eq, Structural)]
pub enum InitPhase {
    Begin,
    Owners,
    Watchdog,
    Motor,
    Mcu,
    Feedback,
    Lds,
    /// Something failed, and what was started is being shut down.
    Undoing,
    Closed,
}

/// What the initialization asks for.
#[derive(Debug)]
pub enum InitRequest {
    /// See that nobody else holds these devices.
    CheckOwners(Vec<String>),
    /// Lower the shutdown flag, and start the watchdog worker.
    StartWatchdog,
    /// Take hold of the LDS motor.
    OpenMotor,
    /// Start the MCU worker after this stock sequence, and wait for its startup.
    StartMcu(u8),
    /// Get a second handle of the LDS motor, for speed feedback.
    FeedbackHandle,
    /// Start the LDS worker.
    StartLds,
    /// Shut down what was started.
    ShutDown,
    /// The end.
    Finish(Result<(), Error>),
}

/// Starting the driver up.
#[derive(Debug)]
pub struct InitRun {
    pub phase: InitPhase,
    pub failure: Option<Error>,
}

/// Why the initialization does not even begin.
pub open spec fn init_refusal(d: RoborockS5MaxDriver) -> Option<ErrorView> {
    if d.initialized {
        Some(ErrorView::Other("Roborock S5 Max driver is already initialized"@))
    } else {
        match d.config.roborock_s5max {
            None => Some(missing_section()),
            Some(hardware) => if hardware.last_stock_sequence is None {
                Some(
                    ErrorView::Config(
                        "device.roborock_s5max.last_stock_sequence is required at runtime; use 0 only for ownership from MCU reset"@,
                    ),
                )
            } else {
                None
            },
        }
    }
}

/// The devices that nobody else may hold.
pub open spec fn selected_devices(hardware: Hardware) -> Seq<Seq<char>> {
    seq![
        hardware.mcu_port@,
        "/dev/uart_mcu"@,
        hardware.lds_port@,
        "/dev/uart_lds"@,
        hardware.lds_motor@,
        hardware.watchdog@,
    ]
}

/// The failure is recorded with a reason, and what was started is shut down.
pub open spec fn init_fails(
    w: World,
    error: ErrorView,
    reason: Seq<char>,
    now: u64,
    r2: InitRun,
    w2: World,
    request: InitRequest,
) -> bool {
    &&& r2.phase == InitPhase::Undoing
    &&& r2.failure matches Some(e) && e@ == error
    &&& w2 == (World { lifecycle: w2.lifecycle, ..w })
    &&& lifecycle::faulted_with(w.lifecycle, w2.lifecycle, reason, now)
    &&& request is ShutDown
}

/// What one step of the initialization does.
pub open spec fn init_step(
    r: InitRun,
    d: RoborockS5MaxDriver,
    w: World,
    outcome: Result<(), Error>,
    now: u64,
    r2: InitRun,
    d2: RoborockS5MaxDriver,
    w2: World,
    request: InitRequest,
) -> bool {
    match r.phase {
        InitPhase::Begin => {
            &&& d2 == d
            &&& w2 == w
            &&& match init_refusal(d) {
                Some(e) => {
                    &&& r2 == (InitRun { phase: InitPhase::Closed, failure: None })
                    &&& request matches InitRequest::Finish(result) && error::fails(result, e)
                },
                None => {
                    &&& r2 == (InitRun { phase: InitPhase::Owners, failure: None })
                    &&& request matches InitRequest::CheckOwners(list) && text::texts(list@)
                        == selected_devices(d.config.roborock_s5max->0)
                },
            }
        },
        InitPhase::Owners => match outcome {
            Err(e) => {
                &&& r2 == (InitRun { phase: InitPhase::Closed, failure: None })
                &&& d2 == d
                &&& w2 == w
                &&& request == InitRequest::Finish(Err(e))
            },
            Ok(()) => match lifecycle::state_after(w.lifecycle.state, Step::BeginSynchronizing) {
                None => {
                    &&& r2 == (InitRun { phase: InitPhase::Closed, failure: None })
                    &&& d2 == d
                    &&& w2 == w
                    &&& request matches InitRequest::Finish(result) && error::fails_saying(
                        result,
                        "S5 Max cannot initialize from lifecycle state "@
                            + w.lifecycle.state.text(),
                    )
                },
                Some(next) => {
                    &&& r2 == (InitRun { phase: InitPhase::Watchdog, failure: None })
                    &&& d2 == (RoborockS5MaxDriver { dock_state: true, ..d })
                    &&& w2 == (World {
                        lifecycle: w2.lifecycle,
                        sensors: w2.sensors,
                        ..w
                    })
                    &&& lifecycle::entered(w.lifecycle, w2.lifecycle, next, now)
                    &&& w2.sensors.created(
                        d.config.roborock_s5max->0.wheel_mm_per_tick,
                        d.config.roborock_s5max->0.wheel_track_m,
                        d.config.roborock_s5max->0.lds_forward_angle_deg,
                        now,
                    )
                    &&& request is StartWatchdog
                },
            },
        },
        InitPhase::Watchdog => match outcome {
            Err(e) => d2 == d && init_fails(
                w,
                e@,
                "watchdog startup: "@ + e@.text(),
                now,
                r2,
                w2,
                request,
            ),
            Ok(()) => {
                &&& r2 == (InitRun { phase: InitPhase::Motor, failure: None })
                &&& d2 == (RoborockS5MaxDriver { watchdog: true, ..d })
                &&& w2 == w
                &&& request is OpenMotor
            },
        },
        InitPhase::Motor => match outcome {
            Err(e) => d2 == d && init_fails(
                w,
                e@,
                "LDS motor ownership: "@ + e@.text(),
                now,
                r2,
                w2,
                request,
            ),
            Ok(()) => {
                &&& r2 == (InitRun { phase: InitPhase::Mcu, failure: None })
                &&& d2 == (RoborockS5MaxDriver { lds_motor: true, ..d })
                // A new session expects no acknowledgement of an earlier one.
                &&& w2 == (World { acks: w2.acks, ..w })
                &&& w2.acks@ == Map::<u8, acks::CommandAckView>::empty()
                &&& request == InitRequest::StartMcu(
                    d.config.roborock_s5max->0.last_stock_sequence->0,
                )
            },
        },
        InitPhase::Mcu => match outcome {
            Err(e) => d2 == d && init_fails(
                w,
                e@,
                "MCU startup: "@ + e@.text(),
                now,
                r2,
                w2,
                request,
            ),
            Ok(()) => {
                &&& d2 == (RoborockS5MaxDriver { mcu: true, ..d })
                &&& match lifecycle::state_after(w.lifecycle.state, Step::MarkReadOnlyReady) {
                    Some(next) => {
                        &&& r2 == (InitRun { phase: InitPhase::Feedback, failure: None })
                        &&& w2 == (World { lifecycle: w2.lifecycle, ..w })
                        &&& lifecycle::entered(w.lifecycle, w2.lifecycle, next, now)
                        &&& request is FeedbackHandle
                    },
                    None => {
                        let said = "invalid S5 Max lifecycle transition "@
                            + w.lifecycle.state.text() + " -> "@ + "read_only_ready"@
                            + "; expected "@ + "synchronizing"@;
                        init_fails(w, ErrorView::Other(said), said, now, r2, w2, request)
                    },
                }
            },
        },
        InitPhase::Feedback => match outcome {
            Err(e) => d2 == d && init_fails(
                w,
                e@,
                "LDS feedback ownership: "@ + e@.text(),
                now,
                r2,
                w2,
                request,
            ),
            Ok(()) => {
                &&& r2 == (InitRun { phase: InitPhase::Lds, failure: None })
                &&& d2 == d
                &&& w2 == w
                &&& request is StartLds
            },
        },
        InitPhase::Lds => match outcome {
            Err(e) => d2 == d && init_fails(
                w,
                e@,
                "LDS startup: "@ + e@.text(),
                now,
                r2,
                w2,
                request,
            ),
            Ok(()) => match lifecycle::state_after(w.lifecycle.state, Step::MarkOperational) {
                Some(next) => {
                    &&& r2 == (InitRun { phase: InitPhase::Closed, failure: None })
                    &&& d2 == (RoborockS5MaxDriver { lds: true, initialized: true, ..d })
                    &&& w2 == (World { lifecycle: w2.lifecycle, ..w })
                    &&& lifecycle::entered(w.lifecycle, w2.lifecycle, next, now)
                    &&& request == InitRequest::Finish(Ok(()))
                },
                None => {
                    let said = "invalid S5 Max lifecycle transition "@ + w.lifecycle.state.text()
                        + " -> "@ + "operational"@ + "; expected "@ + "read_only_ready"@;
                    &&& d2 == (RoborockS5MaxDriver { lds: true, ..d })
                    &&& init_fails(w, ErrorView::Other(said), said, now, r2, w2, request)
                },
            },
        },
        InitPhase::Undoing => {
            &&& r2 == (InitRun { phase: InitPhase::Closed, failure: None })
            &&& d2 == d
            &&& w2 == w
            &&& request == InitRequest::Finish(Err(r.failure->0))
        },
        InitPhase::Closed => false,
    }
}

/// The driver becomes operational only by a run in which every part was started in
/// its order, and a part that fails puts the driver into the fault state and has
/// what was started shut down.
pub proof fn initialization_is_all_or_nothing(
    r: InitRun,
    d: RoborockS5MaxDriver,
    w: World,
    outcome: Result<(), Error>,
    now: u64,
    r2: InitRun,
    d2: RoborockS5MaxDriver,
    w2: World,
    request: InitRequest,
)
    requires
        init_step(r, d, w, outcome, now, r2, d2, w2, request),
    ensures
        request == InitRequest::Finish(Ok(())) ==> r.phase == InitPhase::Lds && outcome is Ok
            && w2.lifecycle.state == DriverState::Operational && d2.initialized,
        d2.initialized && !d.initialized ==> request == InitRequest::Finish(Ok(())),
        outcome is Err && (r.phase == InitPhase::Watchdog || r.phase == InitPhase::Motor || r.phase
            == InitPhase::Mcu || r.phase == InitPhase::Feedback || r.phase == InitPhase::Lds)
            ==> request is ShutDown && w2.lifecycle.state == DriverState::Fault,
{
}

impl InitRun {
    pub open spec fn wf(&self, d: RoborockS5MaxDriver) -> bool {
        &&& self.phase == InitPhase::Undoing ==> self.failure is Some
        &&& self.phase == InitPhase::Owners || self.phase == InitPhase::Motor ==> (
        d.config.roborock_s5max matches Some(hardware) && hardware.last_stock_sequence is Some)
        &&& self.phase == InitPhase::Watchdog ==> (d.config.roborock_s5max matches Some(hardware)
            && hardware.last_stock_sequence is Some)
    }

    pub fn new() -> (run: Self)
        ensures
            run == (InitRun { phase: InitPhase::Begin, failure: None }),
            forall|d: RoborockS5MaxDriver| #[trigger] run.wf(d),
    {
        InitRun { phase: InitPhase::Begin, failure: None }
    }

    /// Records a failure with its reason.
    fn fail(&mut self, world: &mut World, error: Error, reason: String, now: u64) -> (request:
        InitRequest)
        requires
            old(world).wf(),
        ensures
            final(world).wf(),
            init_fails(*old(world), error@, reason@, now, *final(self), *final(world), request),
    {
        world.lifecycle.fault(reason.as_str(), now);
        self.failure = Some(error);
        self.phase = InitPhase::Undoing;
        InitRequest::ShutDown
    }

    fn close(&mut self, result: Result<(), Error>) -> (request: InitRequest)
        ensures
            *final(self) == (InitRun { phase: InitPhase::Closed, failure: None }),
            request == InitRequest::Finish(result),
    {
        self.phase = InitPhase::Closed;
        self.failure = None;
        InitRequest::Finish(result)
    }

    fn begin(&mut self, driver: &RoborockS5MaxDriver) -> (request: InitRequest)
        ensures
            match init_refusal(*driver) {
                Some(e) => {
                    &&& *final(self) == (InitRun { phase: InitPhase::Closed, failure: None })
                    &&& request matches InitRequest::Finish(result) && error::fails(result, e)
                },
                None => {
                    &&& *final(self) == (InitRun { phase: InitPhase::Owners, failure: None })
                    &&& request matches InitRequest::CheckOwners(list) && text::texts(list@)
                        == selected_devices(driver.config.roborock_s5max->0)
                },
            },
    {
        if driver.initialized {
            return self.close(
                Err(Error::Other("Roborock S5 Max driver is already initialized".to_string())),
            );
        }
        match &driver.config.roborock_s5max {
            None => self.close(
                Err(
                    Error::Config(
                        "roborock_s5max device requires [device.roborock_s5max] section".to_string(),
                    ),
                ),
            ),
            Some(hardware) => {
                if hardware.last_stock_sequence.is_none() {
                    return self.close(
                        Err(
                            Error::Config(
                                "device.roborock_s5max.last_stock_sequence is required at runtime; use 0 only for ownership from MCU reset".to_string(),
                            ),
                        ),
                    );
                }
                let mut list: Vec<String> = Vec::new();
                list.push(hardware.mcu_port.clone());
                list.push("/dev/uart_mcu".to_string());
                list.push(hardware.lds_port.clone());
                list.push("/dev/uart_lds".to_string());
                list.push(hardware.lds_motor.clone());
                list.push(hardware.watchdog.clone());
                assert(text::texts(list@) =~= selected_devices(*hardware));
                self.phase = InitPhase::Owners;
                self.failure = None;
                InitRequest::CheckOwners(list)
            },
        }
    }

    fn synchronize(&mut self, driver: &mut RoborockS5MaxDriver, world: &mut World, now: u64) -> (
    request: InitRequest)
        requires
            old(world).wf(),
            old(self).phase == InitPhase::Owners,
            old(self).wf(*old(driver)),
        ensures
            final(world).wf(),
            final(self).wf(*final(driver)),
            init_step(
                *old(self),
                *old(driver),
                *old(world),
                Ok::<(), Error>(()),
                now,
                *final(self),
                *final(driver),
                *final(world),
                request,
            ),
    {
        if let Err(error) = world.lifecycle.begin_synchronizing(now) {
            return self.close(Err(error));
        }
        if let Some(hardware) = &driver.config.roborock_s5max {
            world.sensors =
            SensorGroups::create(
                hardware.wheel_mm_per_tick,
                hardware.wheel_track_m,
                hardware.lds_forward_angle_deg,
                now,
            );
        }
        driver.dock_state = true;
        self.phase = InitPhase::Watchdog;
        self.failure = None;
        InitRequest::StartWatchdog
    }

    /// Goes on after what was asked for last.
    pub fn step(
        &mut self,
        driver: &mut RoborockS5MaxDriver,
        world: &mut World,
        outcome: Result<(), Error>,
        now: u64,
    ) -> (request: InitRequest)
        requires
            old(world).wf(),
            old(self).wf(*old(driver)),
            old(self).phase != InitPhase::Closed,
        ensures
            final(world).wf(),
            final(self).wf(*final(driver)),
            init_step(
                *old(self),
                *old(driver),
                *old(world),
                outcome,
                now,
                *final(self),
                *final(driver),
                *final(world),
                request,
            ),
    {
        match self.phase {
            InitPhase::Begin => self.begin(driver),
            InitPhase::Owners => match outcome {
                Err(error) => self.close(Err(error)),
                Ok(()) => self.synchronize(driver, world, now),
            },
            InitPhase::Watchdog => match outcome {
                Err(error) => {
                    let reason = join("watchdog startup: ", error.message());
                    self.fail(world, error, reason, now)
                },
                Ok(()) => {
                    driver.watchdog = true;
                    self.phase = InitPhase::Motor;
                    self.failure = None;
                    InitRequest::OpenMotor
                },
            },
            InitPhase::Motor => match outcome {
                Err(error) => {
                    let reason = join("LDS motor ownership: ", error.message());
                    self.fail(world, error, reason, now)
                },
                Ok(()) => {
                    let sequence: u8 = match &driver.config.roborock_s5max {
                        Some(hardware) => match hardware.last_stock_sequence {
                            Some(sequence) => sequence,
                            None => 0,
                        },
                        None => 0,
                    };
                    driver.lds_motor = true;
                    world.acks = CommandAckTracker::new();
                    self.phase = InitPhase::Mcu;
                    self.failure = None;
                    InitRequest::StartMcu(sequence)
                },
            },
            InitPhase::Mcu => match outcome {
                Err(error) => {
                    let reason = join("MCU startup: ", error.message());
                    self.fail(world, error, reason, now)
                },
                Ok(()) => {
                    driver.mcu = true;
                    match world.lifecycle.mark_read_only_ready(now) {
                        Ok(()) => {
                            self.phase = InitPhase::Feedback;
                            self.failure = None;
                            InitRequest::FeedbackHandle
                        },
                        Err(error) => {
                            let reason = error.message().to_string();
                            self.fail(world, error, reason, now)
                        },
                    }
                },
            },
            InitPhase::Feedback => match outcome {
                Err(error) => {
                    let reason = join("LDS feedback ownership: ", error.message());
                    self.fail(world, error, reason, now)
                },
                Ok(()) => {
                    self.phase = InitPhase::Lds;
                    self.failure = None;
                    InitRequest::StartLds
                },
            },
            InitPhase::Lds => match outcome {
                Err(error) => {
                    let reason = join("LDS startup: ", error.message());
                    self.fail(world, error, reason, now)
                },
                Ok(()) => {
                    driver.lds = true;
                    match world.lifecycle.mark_operational(now) {
                        Ok(()) => {
                            driver.initialized = true;
                            self.close(Ok(()))
                        },
                        Err(error) => {
                            let reason = error.message().to_string();
                            self.fail(world, error, reason, now)
                        },
                    }
                },
            },
            InitPhase::Undoing => {
                let mut failure: Option<Error> = None;
                std::mem::swap(&mut failure, &mut self.failure);
                match failure {
                    Some(error) => self.close(Err(error)),
                    None => self.close(Ok(())),
                }
            },
            InitPhase::Closed => InitRequest::ShutDown,
        }
    }
}

/// A target other than zero reaches the MCU worker only where the configuration allows
/// it, the driver is operational and the last safety report is 500 ms old at most; zero
/// always does. Both need the worker.
pub proof fn gate_guards_targets_only(
    d: RoborockS5MaxDriver,
    w: World,
    now: u64,
    hardware: Hardware,
)
    requires
        d.config.roborock_s5max == Some(hardware),
    ensures
        actuator_refusal(d, w, false, now) is None <==> d.mcu,
        actuator_refusal(d, w, true, now) is None <==> d.mcu && hardware.allow_actuation
            && w.lifecycle.state is Operational && (w.lifecycle.last_safety_report matches Some(last)
            && now <= last + 500_000_000),
{
}

/// Turning the charger off while the robot stands on the dock is remembered, and nothing
/// but turning it on again, confirmed, makes the driver forget it before a shutdown. What
/// fails changes nothing.
pub proof fn charging_off_is_remembered(
    r: ChargingRun,
    d: RoborockS5MaxDriver,
    outcome: Result<(), Error>,
    r2: ChargingRun,
    d2: RoborockS5MaxDriver,
    request: Request,
)
    requires
        charging_step(r, d, outcome, r2, d2, request),
    ensures
        outcome is Err ==> d2 == d && request is Finish && request->Finish_0 is Err,
        outcome is Ok && !r.enabled && r.was_docked ==> d2.restore_charging_on_shutdown,
        outcome is Ok && !r.enabled && !r.was_docked ==> d2.restore_charging_on_shutdown
            == d.restore_charging_on_shutdown,
        outcome is Ok && r.enabled && !r.confirming ==> request is WaitForCharging && r2.confirming
            && r2.enabled && d2 == d,
        outcome is Ok && r.enabled && r.confirming ==> !d2.restore_charging_on_shutdown && request
            is Finish && request->Finish_0 is Ok,
        d.restore_charging_on_shutdown && !d2.restore_charging_on_shutdown ==> outcome is Ok
            && r.enabled && r.confirming,
        d2.mcu == d.mcu && d2.initialized == d.initialized && d2.lds == d.lds,
{
}

/// What was remembered is made good at a shutdown: unless the driver had failed, the
/// charger is told to go on, and once that is confirmed it is forgotten. Where nothing
/// was remembered, or after a failure, the charger is left alone.
pub proof fn shutdown_restores_charging(
    r: ShutdownRun,
    d: RoborockS5MaxDriver,
    w: World,
    outcome: Result<(), Error>,
    now: u64,
    r2: ShutdownRun,
    d2: RoborockS5MaxDriver,
    w2: World,
    request: ShutdownRequest,
)
    requires
        shutdown_step(r, d, w, outcome, now, r2, d2, w2, request),
    ensures
        r.phase == ShutdownPhase::Charger && d.restore_charging_on_shutdown && !r.faulted && d.mcu
            ==> request == ShutdownRequest::Execute(ActuatorCommand::Charger(true)) && r2.phase
            == ShutdownPhase::ChargerCommand,
        r.phase == ShutdownPhase::Charger && d.restore_charging_on_shutdown && !r.faulted && !d.mcu
            ==> r2.first_error is Some && r2.phase == ShutdownPhase::Workers,
        r.phase == ShutdownPhase::Charger && (!d.restore_charging_on_shutdown || r.faulted)
            ==> request is Continue && r2.phase == ShutdownPhase::Workers,
        r.phase == ShutdownPhase::ChargerCommand && outcome is Ok ==> request is WaitForCharging
            && r2.phase == ShutdownPhase::ChargerWait,
        r.phase == ShutdownPhase::ChargerWait && outcome is Ok
            ==> !d2.restore_charging_on_shutdown,
        d.restore_charging_on_shutdown && !(r.phase == ShutdownPhase::ChargerWait && outcome is Ok)
            ==> d2.restore_charging_on_shutdown,
        request matches ShutdownRequest::Execute(command) ==> command
            == ActuatorCommand::EmergencyStop && r.phase == ShutdownPhase::Begin || command
            == ActuatorCommand::Charger(true) && r.phase == ShutdownPhase::Charger,
{
}

/// How a shutdown goes on and ends. Each part that is there is joined or released and is
/// gone after that; the stops come first, in an initialized driver. It ends with the
/// first failure, which also puts the driver into the fault state; without one a driver
/// that had failed stays so, and any other is stopped.
pub proof fn shutdown_releases_its_parts(
    r: ShutdownRun,
    d: RoborockS5MaxDriver,
    w: World,
    outcome: Result<(), Error>,
    now: u64,
    r2: ShutdownRun,
    d2: RoborockS5MaxDriver,
    w2: World,
    request: ShutdownRequest,
)
    requires
        shutdown_step(r, d, w, outcome, now, r2, d2, w2, request),
    ensures
        r.phase == ShutdownPhase::Begin ==> {
            &&& r2.faulted <==> w.lifecycle.state is Fault
            &&& d.initialized ==> r2.phase == ShutdownPhase::EmergencyStop
            &&& !d.initialized ==> r2.phase == ShutdownPhase::Workers && request is Continue
        },
        r.phase != ShutdownPhase::Begin ==> r2.faulted == r.faulted,
        r.phase == ShutdownPhase::StopMotor ==> !w2.safety.targets.lds_running && r2.phase
            == ShutdownPhase::Charger,
        r.phase == ShutdownPhase::Workers ==> request is RaiseShutdown && r2.phase
            == ShutdownPhase::JoinLds && (w.lifecycle.state is Operational
            ==> w2.lifecycle.state is Stopping),
        r.phase == ShutdownPhase::JoinLds ==> !d2.lds && r2.phase == ShutdownPhase::JoinMcu && (
        request is JoinLds <==> d.lds),
        r.phase == ShutdownPhase::JoinMcu ==> !d2.mcu && r2.phase == ShutdownPhase::DisarmMotor && (
        request is JoinMcu <==> d.mcu),
        r.phase == ShutdownPhase::DisarmMotor ==> !d2.lds_motor && r2.phase
            == ShutdownPhase::JoinWatchdog && (request is DisarmMotor <==> d.lds_motor),
        r.phase == ShutdownPhase::JoinWatchdog ==> !d2.watchdog && r2.phase == ShutdownPhase::Last
            && (request is JoinWatchdog <==> d.watchdog),
        r.phase == ShutdownPhase::Last ==> {
            &&& !d2.initialized && r2.phase == ShutdownPhase::Closed
            &&& w2.safety.targets.linear == 0 && w2.safety.targets.angular == 0
            &&& w2.safety.targets.fan == 0 && w2.safety.targets.main_brush == 0
            &&& w2.safety.targets.side_brush == 0 && w2.safety.targets.water_pump == 0
            &&& !w2.safety.targets.lds_running && w2.safety.drive_lease_deadline is None
            &&& r.first_error is Some || outcome is Err ==> w2.lifecycle.state is Fault && (
            request matches ShutdownRequest::Finish(result) && result is Err)
            &&& r.first_error is None && outcome is Ok && r.faulted ==> w2.lifecycle == w.lifecycle
                && (request matches ShutdownRequest::Finish(result) && result is Ok)
            &&& r.first_error is None && outcome is Ok && !r.faulted && w.lifecycle.state is Stopping
                ==> w2.lifecycle.state is Stopped && (request matches ShutdownRequest::Finish(result)
                && result is Ok)
        },
        r2.phase != ShutdownPhase::Closed && r.first_error is None && (r.phase
            == ShutdownPhase::EmergencyStop || r.phase == ShutdownPhase::StopMotor || r.phase
            == ShutdownPhase::ChargerCommand || r.phase == ShutdownPhase::ChargerWait || r.phase
            == ShutdownPhase::JoinMcu || r.phase == ShutdownPhase::DisarmMotor || r.phase
            == ShutdownPhase::JoinWatchdog) ==> r2.first_error == (match outcome {
            Ok(_) => None,
            Err(e) => Some(e),
        }),
{
}

/// The LDS starts only off the dock: targets are allowed, a dock state is known, it is
/// zero, and no charger was turned off on the dock.
pub proof fn lidar_starts_off_the_dock(d: RoborockS5MaxDriver, w: World, now: u64, hardware: Hardware)
    requires
        d.config.roborock_s5max == Some(hardware),
    ensures
        lidar_refusal(d, w, now) is None <==> hardware.allow_actuation && w.lifecycle.state
            is Operational && (w.lifecycle.last_safety_report matches Some(last) && now <= last
            + 500_000_000) && d.dock_state && w.sensors.dock_state == 0
            && !d.restore_charging_on_shutdown,
{
}

/// Turning the LDS on, step by step. Each acknowledged command is followed by the next of
/// the seventeen, the last by 250 ms of rest, that by the motor. A motor that started
/// counts as running; one that did not is stopped, and its own failure is the end.
/// Turning it off ends with how the stop went, and it does not count as running any more.
/// Nothing else that is shared changes.
pub proof fn lidar_goes_step_by_step(
    r: LidarRun,
    d: RoborockS5MaxDriver,
    w: World,
    outcome: Result<(), Error>,
    now: u64,
    r2: LidarRun,
    w2: World,
    request: Request,
)
    requires
        r.wf(),
        lidar_step(r, d, w, outcome, now, r2, w2, request),
        d.config.roborock_s5max is Some,
        d.mcu,
    ensures
        r.phase == LidarPhase::Commanding && outcome is Ok && r.at < 16 ==> request
            == Request::Execute(control::lidar_commands()[r.at + 1]) && r2.at == r.at + 1 && r2.phase
            == LidarPhase::Commanding,
        r.phase == LidarPhase::Commanding && outcome is Ok && r.at == 16 ==> request is Settle
            && r2.phase == LidarPhase::Settling,
        r.phase == LidarPhase::Commanding ==> (outcome matches Err(e) ==> request
            == Request::Finish(Err(e))),
        r.phase == LidarPhase::Settling && d.lds_motor ==> request is StartMotor && r2.phase
            == LidarPhase::Starting,
        r.phase == LidarPhase::Settling && !d.lds_motor ==> (request matches Request::Finish(result)
            && result is Err),
        r.phase == LidarPhase::Starting && outcome is Ok ==> w2.safety.targets.lds_running && (
        request matches Request::Finish(result) && result is Ok),
        r.phase == LidarPhase::Starting ==> (outcome matches Err(e) ==> request is StopMotor
            && r2.phase == LidarPhase::Undoing && r2.failure == Some(e) && w2 == w),
        r.phase == LidarPhase::Undoing ==> request == Request::Finish(Err(r.failure->0)),
        r.phase == LidarPhase::Stopping ==> !w2.safety.targets.lds_running && request
            == Request::Finish(outcome),
        w2.safety.targets.linear == w.safety.targets.linear && w2.safety.targets.angular
            == w.safety.targets.angular && w2.safety.targets.fan == w.safety.targets.fan,
        w2.safety.targets.main_brush == w.safety.targets.main_brush && w2.safety.targets.side_brush
            == w.safety.targets.side_brush && w2.safety.targets.water_pump
            == w.safety.targets.water_pump,
        w2.safety.drive_lease_deadline == w.safety.drive_lease_deadline,
        w2.lifecycle == w.lifecycle && w2.sensors == w.sensors && w2.acks == w.acks,
{
}

/// Starting up, step by step: first that nobody else holds the two UARTs, under either
/// name, the motor and the watchdog; then the watchdog, the motor, the MCU with the
/// configured sequence, and the LDS. Each part counts as there once it was started. What
/// fails on the way ends in the fault state, is shut down again, and is what the startup
/// ends with.
pub proof fn startup_goes_step_by_step(
    r: InitRun,
    d: RoborockS5MaxDriver,
    w: World,
    outcome: Result<(), Error>,
    now: u64,
    r2: InitRun,
    d2: RoborockS5MaxDriver,
    w2: World,
    request: InitRequest,
    hardware: Hardware,
    sequence: u8,
)
    requires
        r.wf(d),
        init_step(r, d, w, outcome, now, r2, d2, w2, request),
        d.config.roborock_s5max == Some(hardware),
        hardware.last_stock_sequence == Some(sequence),
    ensures
        r.phase == InitPhase::Begin && d.initialized ==> (request matches InitRequest::Finish(result)
            && result is Err) && d2 == d && w2 == w,
        r.phase == InitPhase::Begin && !d.initialized ==> {
            &&& r2.phase == InitPhase::Owners && d2 == d && w2 == w
            &&& request matches InitRequest::CheckOwners(list) && list@.len() == 6 && list@[0]@
                == hardware.mcu_port@ && list@[1]@ == "/dev/uart_mcu"@ && list@[2]@
                == hardware.lds_port@ && list@[3]@ == "/dev/uart_lds"@ && list@[4]@
                == hardware.lds_motor@ && list@[5]@ == hardware.watchdog@
        },
        r.phase == InitPhase::Owners && outcome is Err ==> d2 == d && w2 == w && (
        request matches InitRequest::Finish(result) && result is Err),
        r.phase == InitPhase::Owners && outcome is Ok && (w.lifecycle.state is Created
            || w.lifecycle.state is Stopped) ==> {
            &&& request is StartWatchdog && r2.phase == InitPhase::Watchdog && d2.dock_state
            &&& w2.lifecycle.state is Synchronizing && w2.lifecycle.last_safety_report is None
            &&& w2.sensors.dock_state == 65535
            &&& w2.sensors.created(
                hardware.wheel_mm_per_tick,
                hardware.wheel_track_m,
                hardware.lds_forward_angle_deg,
                now,
            )
        },
        r.phase == InitPhase::Watchdog && outcome is Ok ==> request is OpenMotor && r2.phase
            == InitPhase::Motor && d2.watchdog && w2 == w,
        r.phase == InitPhase::Motor && outcome is Ok ==> request == InitRequest::StartMcu(sequence)
            && r2.phase == InitPhase::Mcu && d2.lds_motor && w2.acks@.dom()
            == Set::<u8>::empty(),
        r.phase == InitPhase::Mcu && outcome is Ok && w.lifecycle.state is Synchronizing ==> request
            is FeedbackHandle && r2.phase == InitPhase::Feedback && d2.mcu && w2.lifecycle.state
            is ReadOnlyReady,
        r.phase == InitPhase::Feedback && outcome is Ok ==> request is StartLds && r2.phase
            == InitPhase::Lds && d2 == d && w2 == w,
        r.phase == InitPhase::Lds && outcome is Ok && w.lifecycle.state is ReadOnlyReady ==> d2.lds
            && d2.initialized && w2.lifecycle.state is Operational && r2.phase == InitPhase::Closed
            && (request matches InitRequest::Finish(result) && result is Ok),
        r.phase == InitPhase::Watchdog || r.phase == InitPhase::Motor || r.phase == InitPhase::Mcu
            || r.phase == InitPhase::Feedback || r.phase == InitPhase::Lds ==> (
        outcome matches Err(e) ==> request is ShutDown && r2.phase == InitPhase::Undoing && (
        r2.failure matches Some(kept) && kept@ == e@) && w2.lifecycle.state is Fault && d2 == d),
        r.phase == InitPhase::Undoing ==> request == InitRequest::Finish(Err(r.failure->0)) && r2.phase
            == InitPhase::Closed,
{
    if r.phase == InitPhase::Begin && !d.initialized {
        let list = request->CheckOwners_0;
        assert(text::texts(list@).len() == 6);
        assert(text::texts(list@)[0] == list@[0]@);
        assert(text::texts(list@)[1] == list@[1]@);
        assert(text::texts(list@)[2] == list@[2]@);
        assert(text::texts(list@)[3] == list@[3]@);
        assert(text::texts(list@)[4] == list@[4]@);
        assert(text::texts(list@)[5] == list@[5]@);
    }
}

} // verus!
