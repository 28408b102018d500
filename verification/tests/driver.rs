use roborock_s5max::acks::CommandAckTracker;
use roborock_s5max::commands::OPERATIONAL_SUBSYSTEMS;
use roborock_s5max::control::check_drive;
use roborock_s5max::control::component_control;
use roborock_s5max::control::send_command;
use roborock_s5max::control::Command;
use roborock_s5max::control::ComponentAction;
use roborock_s5max::control::Control;
use roborock_s5max::control::Dispatch;
use roborock_s5max::control::DriveNumber;
use roborock_s5max::driver::ChargingRun;
use roborock_s5max::driver::DeviceConfig;
use roborock_s5max::driver::Hardware;
use roborock_s5max::driver::InitRequest;
use roborock_s5max::driver::InitRun;
use roborock_s5max::driver::LidarRun;
use roborock_s5max::driver::Request;
use roborock_s5max::driver::RoborockS5MaxDriver;
use roborock_s5max::driver::ShutdownRequest;
use roborock_s5max::driver::ShutdownRun;
use roborock_s5max::driver::Wait;
use roborock_s5max::error::Error;
use roborock_s5max::groups::NamedValues;
use roborock_s5max::groups::SensorValue;
use roborock_s5max::guard::ActuatorCommand;
use roborock_s5max::lifecycle::DriverState;
use roborock_s5max::lifecycle::Lifecycle;
use roborock_s5max::safety::SafetyController;
use roborock_s5max::sensors::SensorGroups;
use roborock_s5max::session::World;

fn hardware() -> Hardware {
    Hardware {
        mcu_port: "/dev/ttyS2".to_string(),
        lds_port: "/dev/ttyS1".to_string(),
        lds_motor: "/dev/lds".to_string(),
        watchdog: "/dev/watchdog".to_string(),
        last_stock_sequence: Some(0x7e),
        allow_actuation: true,
        wheel_mm_per_tick: 0.798f32.to_bits(),
        wheel_track_m: 0.229f32.to_bits(),
        lds_forward_angle_deg: 261.2f32.to_bits(),
    }
}

fn new_driver() -> RoborockS5MaxDriver {
    RoborockS5MaxDriver::new(DeviceConfig {
        name: "robot".to_string(),
        roborock_s5max: Some(hardware()),
    })
    .unwrap()
}

fn new_world() -> World {
    World {
        safety: SafetyController::new(),
        lifecycle: Lifecycle::new(0),
        sensors: SensorGroups::create(0, 0, 0, 0),
        acks: CommandAckTracker::new(),
    }
}

fn failure(said: &str) -> Result<(), Error> {
    Err(Error::Other(said.to_string()))
}

/// Starts everything up; the step that is asked for `fail` times out.
fn start(
    driver: &mut RoborockS5MaxDriver,
    world: &mut World,
    fail: &str,
) -> (Vec<String>, Result<(), Error>) {
    let mut run = InitRun::new();
    let mut asked = Vec::new();
    let mut outcome = Ok(());
    loop {
        let request = run.step(driver, world, outcome, 100);
        let name = match &request {
            InitRequest::Finish(_) => String::new(),
            other => format!("{other:?}"),
        };
        if let InitRequest::Finish(result) = request {
            return (asked, result);
        }
        outcome = if !fail.is_empty() && name.starts_with(fail) { failure("no") } else { Ok(()) };
        asked.push(name);
    }
}

#[test]
fn a_configuration_needs_hardware() {
    let error = RoborockS5MaxDriver::new(DeviceConfig {
        name: "robot".to_string(),
        roborock_s5max: None,
    })
    .unwrap_err();
    assert_eq!(
        error,
        Error::Config("roborock_s5max device requires [device.roborock_s5max] section".to_string())
    );
}

#[test]
fn initialization_starts_everything_in_order() {
    let mut driver = new_driver();
    let mut world = new_world();
    world.acks.expect(0x10, &[1], 0);
    let (asked, result) = start(&mut driver, &mut world, "");
    assert!(result.is_ok());
    assert_eq!(
        asked,
        [
            "CheckOwners([\"/dev/ttyS2\", \"/dev/uart_mcu\", \"/dev/ttyS1\", \"/dev/uart_lds\", \
             \"/dev/lds\", \"/dev/watchdog\"])",
            "StartWatchdog",
            "OpenMotor",
            "StartMcu(126)",
            "FeedbackHandle",
            "StartLds",
        ]
    );
    assert!(driver.initialized);
    assert_eq!(world.lifecycle.state(), DriverState::Operational);
    assert!(world.acks.take_due_retries(1_000_000_000).is_empty());
    let (asked, result) = start(&mut driver, &mut world, "");
    assert!(asked.is_empty());
    assert_eq!(
        result.unwrap_err().message(),
        "Roborock S5 Max driver is already initialized"
    );
}

#[test]
fn a_failed_start_is_undone() {
    for (part, reason) in [
        ("StartWatchdog", "watchdog startup: no"),
        ("OpenMotor", "LDS motor ownership: no"),
        ("StartMcu", "MCU startup: no"),
        ("FeedbackHandle", "LDS feedback ownership: no"),
        ("StartLds", "LDS startup: no"),
    ] {
        let mut driver = new_driver();
        let mut world = new_world();
        let (asked, result) = start(&mut driver, &mut world, part);
        assert_eq!(asked.last().unwrap(), "ShutDown");
        assert_eq!(result.unwrap_err().message(), "no");
        assert_eq!(world.lifecycle.last_fault.as_deref(), Some(reason));
        assert!(!driver.initialized);
    }
    let mut driver = new_driver();
    let mut world = new_world();
    let (asked, result) = start(&mut driver, &mut world, "CheckOwners");
    assert_eq!(asked.len(), 1);
    assert!(result.is_err());
    assert_eq!(world.lifecycle.state(), DriverState::Created);
}

#[test]
fn the_stock_sequence_is_required() {
    let mut config = hardware();
    config.last_stock_sequence = None;
    let mut driver = RoborockS5MaxDriver::new(DeviceConfig {
        name: "robot".to_string(),
        roborock_s5max: Some(config),
    })
    .unwrap();
    let (asked, result) = start(&mut driver, &mut new_world(), "");
    assert!(asked.is_empty());
    assert!(matches!(result, Err(Error::Config(_))));
}

fn shut_down(
    driver: &mut RoborockS5MaxDriver,
    world: &mut World,
    failing: &[&str],
) -> (Vec<String>, Result<(), Error>) {
    let mut run = ShutdownRun::new();
    let mut asked = Vec::new();
    let mut outcome = Ok(());
    loop {
        let request = run.step(driver, world, outcome, 200);
        let name = format!("{request:?}");
        match request {
            ShutdownRequest::Finish(result) => return (asked, result),
            ShutdownRequest::Continue => outcome = Ok(()),
            _ => {
                outcome = if failing.iter().any(|part| name.starts_with(part)) {
                    failure(&name)
                } else {
                    Ok(())
                };
                asked.push(name);
            }
        }
    }
}

#[test]
fn shutdown_attempts_every_part_whatever_fails() {
    let mut driver = new_driver();
    let mut world = new_world();
    start(&mut driver, &mut world, "").1.unwrap();
    driver.restore_charging_on_shutdown = true;
    let (asked, result) = shut_down(&mut driver, &mut world, &["StopMotor", "JoinLds"]);
    assert_eq!(
        asked,
        [
            "Execute(EmergencyStop)",
            "StopMotor",
            "Execute(Charger(true))",
            "WaitForCharging",
            "RaiseShutdown",
            "JoinLds",
            "JoinMcu",
            "DisarmMotor",
            "JoinWatchdog",
        ]
    );
    assert_eq!(result.unwrap_err().message(), "StopMotor");
    assert_eq!(world.lifecycle.last_fault.as_deref(), Some("shutdown: StopMotor"));
    assert!(!driver.restore_charging_on_shutdown);
    assert!(!driver.initialized);
}

#[test]
fn a_clean_shutdown_allows_a_restart() {
    let mut driver = new_driver();
    let mut world = new_world();
    start(&mut driver, &mut world, "").1.unwrap();
    shut_down(&mut driver, &mut world, &[]).1.unwrap();
    assert_eq!(world.lifecycle.state(), DriverState::Stopped);
    start(&mut driver, &mut world, "").1.unwrap();
    assert_eq!(world.lifecycle.state(), DriverState::Operational);
    world.lifecycle.fault("gone", 150);
    driver.restore_charging_on_shutdown = true;
    let (asked, result) = shut_down(&mut driver, &mut world, &[]);
    assert!(result.is_ok());
    assert!(!asked.contains(&"Execute(Charger(true))".to_string()));
    assert_eq!(world.lifecycle.state(), DriverState::Fault);
    let (asked, result) = shut_down(&mut driver, &mut world, &[]);
    assert_eq!(asked, ["RaiseShutdown"]);
    assert!(result.is_ok());
}

fn operational() -> (RoborockS5MaxDriver, World) {
    let mut driver = new_driver();
    let mut world = new_world();
    start(&mut driver, &mut world, "").1.unwrap();
    world.lifecycle.mark_safety_report(100);
    (driver, world)
}

#[test]
fn actuators_are_refused_with_a_reason() {
    let (mut driver, mut world) = operational();
    assert!(driver.execute_actuator(&world, true, 100).is_ok());
    assert_eq!(
        driver.execute_actuator(&world, true, 600_000_000).unwrap_err().message(),
        "S5 Max safety telemetry is stale; nonzero target rejected"
    );
    assert!(driver.execute_actuator(&world, false, 600_000_000).is_ok());
    driver.mcu = false;
    assert_eq!(
        driver.execute_actuator(&world, false, 100).unwrap_err().message(),
        "S5 Max MCU is not initialized"
    );
    world.lifecycle.begin_stopping(101);
    assert_eq!(
        driver.execute_actuator(&world, true, 100).unwrap_err().message(),
        "S5 Max is not in the operational lifecycle state"
    );
    driver.config.roborock_s5max.as_mut().unwrap().allow_actuation = false;
    assert_eq!(
        driver.execute_actuator(&world, true, 100).unwrap_err().message(),
        "S5 Max actuation is disabled by configuration"
    );
    driver.config.roborock_s5max = None;
    assert_eq!(
        driver.execute_actuator(&world, true, 100).unwrap_err().message(),
        "missing Roborock S5 Max hardware configuration"
    );
}

#[test]
fn the_charger_has_to_confirm() {
    let (mut driver, mut world) = operational();
    world.sensors.dock_state = 2;
    let (mut run, request) = ChargingRun::begin(&driver, &world, false, 100);
    assert!(matches!(request, Request::Execute(ActuatorCommand::Charger(false))));
    assert!(matches!(run.step(&mut driver, Ok(())), Request::Finish(Ok(()))));
    assert!(driver.restore_charging_on_shutdown);

    let (mut run, request) = ChargingRun::begin(&driver, &world, true, 100);
    assert!(matches!(request, Request::Execute(ActuatorCommand::Charger(true))));
    assert!(matches!(run.step(&mut driver, Ok(())), Request::WaitForCharging));
    assert!(matches!(driver.wait_for_charging(&world, 500, 499), Wait::Again));
    let Wait::Failed(error) = driver.wait_for_charging(&world, 500, 500) else {
        panic!("expected a timeout");
    };
    assert_eq!(
        error.message(),
        "S5 Max charging transition was not confirmed; dock_state=2"
    );
    world.sensors.dock_state = 1;
    assert!(matches!(driver.wait_for_charging(&world, 500, 499), Wait::Confirmed));
    assert!(matches!(run.step(&mut driver, Ok(())), Request::Finish(Ok(()))));
    assert!(!driver.restore_charging_on_shutdown);
}

#[test]
fn the_lidar_starts_off_the_dock_only() {
    let (driver, mut world) = operational();
    world.sensors.dock_state = 1;
    let (_, request) = LidarRun::enable(&driver, &world, false, 100);
    let Request::Finish(Err(error)) = request else {
        panic!("expected a refusal");
    };
    assert_eq!(
        error.message(),
        "S5 Max LDS start requires physical undock; dock_state=1"
    );
    assert!(matches!(
        LidarRun::enable(&driver, &world, true, 100).1,
        Request::Finish(Ok(()))
    ));

    world.sensors.dock_state = 0;
    let (mut run, mut request) = LidarRun::enable(&driver, &world, false, 100);
    let mut commands = Vec::new();
    while let Request::Execute(command) = request {
        commands.push(command);
        request = run.step(&driver, &mut world, Ok(()), 100);
    }
    let mut expected = vec![
        ActuatorCommand::Charger(false),
        ActuatorCommand::WakeMcu,
        ActuatorCommand::StopDrive,
    ];
    expected.extend(OPERATIONAL_SUBSYSTEMS.iter().map(|s| ActuatorCommand::EnableSubsystem(*s)));
    assert_eq!(commands, expected);
    assert!(matches!(request, Request::Settle));
    assert!(matches!(run.step(&driver, &mut world, Ok(()), 100), Request::StartMotor));
    assert!(matches!(run.step(&driver, &mut world, failure("stuck"), 100), Request::StopMotor));
    let Request::Finish(Err(error)) = run.step(&driver, &mut world, Ok(()), 100) else {
        panic!("expected the failure");
    };
    assert_eq!(error.message(), "stuck");
    assert!(!world.safety.targets().lds_running);

    let (mut run, request) = LidarRun::disable(&driver, &mut world);
    assert!(matches!(request, Request::StopMotor));
    assert!(matches!(run.step(&driver, &mut world, Ok(()), 100), Request::Finish(Ok(()))));
}

fn speed_config(value: SensorValue) -> NamedValues {
    let mut values = NamedValues::new();
    values.set("speed", value);
    values
}

#[test]
fn motor_speeds_have_defaults_and_limits() {
    for (id, default, command) in [
        ("vacuum", 100, ActuatorCommand::Fan(100)),
        ("main_brush", 71, ActuatorCommand::MainBrush(71)),
        ("side_brush", 30, ActuatorCommand::SideBrush(30)),
    ] {
        assert_eq!(
            component_control(id, &ComponentAction::Enable { config: None }).unwrap(),
            Control::Actuate { command, nonzero: true },
            "{default}"
        );
        let Ok(Control::Actuate { nonzero, .. }) = component_control(id, &ComponentAction::Disable)
        else {
            panic!("expected a stop");
        };
        assert!(!nonzero);
    }
    let configure = |value| ComponentAction::Configure { config: speed_config(value) };
    assert!(component_control("vacuum", &configure(SensorValue::U16(100))).is_ok());
    assert_eq!(
        component_control("vacuum", &configure(SensorValue::U32(101))).unwrap_err().message(),
        "speed must be from 0 to 100"
    );
    assert_eq!(
        component_control("vacuum", &configure(SensorValue::I32(5))).unwrap_err().message(),
        "speed must be an unsigned integer from 0 to 100"
    );
    assert_eq!(
        component_control("vacuum", &ComponentAction::Reset).unwrap_err().message(),
        "Reset is only supported for drive emergency stop"
    );
    assert_eq!(
        component_control(
            "vacuum",
            &ComponentAction::Configure { config: NamedValues::new() }
        )
        .unwrap_err()
        .message(),
        "speed is required"
    );
    assert!(matches!(
        component_control("water_pump", &ComponentAction::Enable { config: None }),
        Err(Error::NotImplemented(_))
    ));
    assert_eq!(
        component_control("water_pump", &ComponentAction::Disable).unwrap(),
        Control::Actuate {
            command: ActuatorCommand::WaterPump { on_interval: 0, off_interval: 0xff },
            nonzero: false,
        }
    );
}

#[test]
fn drives_are_checked() {
    let mut config = NamedValues::new();
    config.set("linear", SensorValue::F32(0.25f32.to_bits()));
    let incomplete = ComponentAction::Configure { config: config.copy() };
    assert_eq!(
        component_control("drive", &incomplete).unwrap_err().message(),
        "drive Configure requires numeric angular"
    );
    config.set("angular", SensorValue::F64((-1.5f64).to_bits()));
    assert_eq!(
        component_control("drive", &ComponentAction::Configure { config }).unwrap(),
        Control::Drive {
            linear: DriveNumber::Single(0.25f32.to_bits()),
            angular: DriveNumber::Double((-1.5f64).to_bits()),
        }
    );
    assert_eq!(
        component_control("drive", &ComponentAction::Reset).unwrap(),
        Control::Actuate { command: ActuatorCommand::EmergencyStop, nonzero: false }
    );
    assert_eq!(
        component_control("drive", &ComponentAction::Enable { config: None }).unwrap(),
        Control::Nothing
    );
    for (linear, angular) in [(0.30f32, 1.60f32), (-0.30, -1.60), (0.0, 0.0)] {
        let nonzero = check_drive(linear.to_bits(), angular.to_bits()).unwrap();
        assert_eq!(nonzero, linear != 0.0 || angular != 0.0);
    }
    for (linear, angular) in [
        (0.300_001f32, 0.0f32),
        (0.0, 1.600_001),
        (f32::NAN, 0.0),
        (0.0, f32::NEG_INFINITY),
    ] {
        assert_eq!(
            check_drive(linear.to_bits(), angular.to_bits()).unwrap_err(),
            Error::InvalidParameter(
                "drive exceeds S5 Max limits (0.30 m/s, 1.60 rad/s)".to_string()
            )
        );
    }
}

#[test]
fn unknown_components_are_quoted() {
    assert_eq!(
        component_control("arm \"left\"\n", &ComponentAction::Disable).unwrap_err().message(),
        "unsupported S5 Max component \"arm \\\"left\\\"\\n\""
    );
    assert_eq!(
        component_control("lidar", &ComponentAction::Reset).unwrap_err().message(),
        "S5 Max lidar supports only Enable and Disable"
    );
    assert_eq!(
        component_control("charger", &ComponentAction::Reset).unwrap_err().message(),
        "S5 Max charger supports only Enable and Disable"
    );
}

#[test]
fn commands_are_dispatched() {
    assert!(matches!(send_command(&Command::Shutdown), Ok(Dispatch::ShutDown)));
    assert!(matches!(
        send_command(&Command::ComponentControl {
            id: "lidar".to_string(),
            action: ComponentAction::Enable { config: None },
        }),
        Ok(Dispatch::Control(Control::Lidar(true)))
    ));
    assert_eq!(
        send_command(&Command::Unsupported).unwrap_err(),
        Error::NotImplemented("unsupported Roborock S5 Max command".to_string())
    );
}
