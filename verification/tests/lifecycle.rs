use roborock_s5max::groups::SensorValue;
use roborock_s5max::lifecycle::DriverState;
use roborock_s5max::lifecycle::Lifecycle;
use roborock_s5max::lifecycle::SAFETY_REPORT_TIMEOUT;
use roborock_s5max::safety::ActuatorTargets;
use roborock_s5max::safety::SafetyController;
use roborock_s5max::safety::DRIVE_LEASE_DURATION;

const MILLISECOND: u64 = 1_000_000;

#[test]
fn enforces_the_explicit_lifecycle() {
    let mut lifecycle = Lifecycle::new(0);
    assert_eq!(lifecycle.state(), DriverState::Created);
    assert!(lifecycle.mark_operational(1).is_err());
    lifecycle.begin_synchronizing(2).unwrap();
    lifecycle.mark_read_only_ready(3).unwrap();
    lifecycle.mark_operational(4).unwrap();
    lifecycle.begin_stopping(5);
    lifecycle.mark_stopped(6).unwrap();
    assert_eq!(lifecycle.state(), DriverState::Stopped);
}

#[test]
fn tracks_fresh_safety_reports_and_fault_reason() {
    let mut lifecycle = Lifecycle::new(0);
    let now = 1_000_000_000;
    assert!(!lifecycle.safety_reports_fresh(now));
    lifecycle.mark_safety_report(now);
    assert!(lifecycle.safety_reports_fresh(now + SAFETY_REPORT_TIMEOUT));
    assert!(!lifecycle.safety_reports_fresh(now + SAFETY_REPORT_TIMEOUT + MILLISECOND));

    lifecycle.fault("test fault", now);
    assert_eq!(lifecycle.state(), DriverState::Fault);
    let data = &lifecycle.sensor_data;
    assert!(matches!(
        data.values.get("last_fault"),
        Some(SensorValue::Text(value)) if value == "test fault"
    ));
}

#[test]
fn targets_start_and_reset_to_zero() {
    let mut safety = SafetyController::new();
    assert_eq!(safety.targets(), ActuatorTargets::default());
    let now = 5_000_000_000;
    safety.arm_drive_lease(0.1f32.to_bits(), (-0.2f32).to_bits(), now);
    assert!(!safety.take_expired_drive_lease(now + DRIVE_LEASE_DURATION - MILLISECOND));
    assert!(safety.take_expired_drive_lease(now + DRIVE_LEASE_DURATION));
    assert_eq!(safety.targets(), ActuatorTargets::default());
}

#[test]
fn zero_drive_target_does_not_arm_deadman() {
    let mut safety = SafetyController::new();
    let now = 5_000_000_000;

    safety.arm_drive_lease(0.0f32.to_bits(), 0.0f32.to_bits(), now);

    assert!(!safety.take_expired_drive_lease(now + DRIVE_LEASE_DURATION));
    assert_eq!(safety.targets(), ActuatorTargets::default());
}

#[test]
fn nonzero_gate_requires_config_state_and_fresh_telemetry() {
    let mut lifecycle = Lifecycle::new(0);
    let safety = SafetyController::new();
    let now = 5_000_000_000;
    assert!(safety.nonzero_allowed(&lifecycle, false, now).is_err());
    assert!(safety.nonzero_allowed(&lifecycle, true, now).is_err());
    lifecycle.begin_synchronizing(1).unwrap();
    lifecycle.mark_read_only_ready(2).unwrap();
    lifecycle.mark_operational(3).unwrap();
    assert!(safety.nonzero_allowed(&lifecycle, true, now).is_err());
    lifecycle.mark_safety_report(now);
    assert!(safety.nonzero_allowed(&lifecycle, true, now).is_ok());
}

#[test]
fn refused_steps_say_why() {
    let mut lifecycle = Lifecycle::new(0);
    assert_eq!(
        lifecycle.mark_read_only_ready(1).unwrap_err().message(),
        "invalid S5 Max lifecycle transition created -> read_only_ready; expected synchronizing"
    );
    assert_eq!(
        lifecycle.mark_operational(1).unwrap_err().message(),
        "invalid S5 Max lifecycle transition created -> operational; expected read_only_ready"
    );
    lifecycle.begin_synchronizing(2).unwrap();
    assert_eq!(
        lifecycle.begin_synchronizing(3).unwrap_err().message(),
        "S5 Max cannot initialize from lifecycle state synchronizing"
    );
    assert_eq!(
        lifecycle.mark_stopped(4).unwrap_err().message(),
        "S5 Max cannot enter stopped from synchronizing"
    );
}

#[test]
fn a_fault_is_final_and_a_restart_forgets_reports() {
    let mut lifecycle = Lifecycle::new(0);
    lifecycle.mark_safety_report(1);
    lifecycle.mark_stopped(2).unwrap();
    lifecycle.begin_synchronizing(3).unwrap();
    assert!(!lifecycle.safety_reports_fresh(3));
    lifecycle.fault("gone", 4);
    lifecycle.begin_stopping(5);
    assert!(lifecycle.mark_stopped(6).is_ok());
    assert!(lifecycle.begin_synchronizing(7).is_err());
    assert_eq!(lifecycle.state(), DriverState::Fault);
    assert_eq!(lifecycle.sensor_data.values.get("faulted"), Some(&SensorValue::Bool(true)));
}

#[test]
fn driver_states_have_names() {
    let names: Vec<&str> = [
        DriverState::Created,
        DriverState::Synchronizing,
        DriverState::ReadOnlyReady,
        DriverState::Operational,
        DriverState::Stopping,
        DriverState::Stopped,
        DriverState::Fault,
    ]
    .iter()
    .map(|state| state.name())
    .collect();
    assert_eq!(
        names,
        [
            "created",
            "synchronizing",
            "read_only_ready",
            "operational",
            "stopping",
            "stopped",
            "fault"
        ]
    );
}

#[test]
fn driving_needs_renewal() {
    let mut safety = SafetyController::new();
    let speed = 0.1f32.to_bits();
    safety.arm_drive_lease(speed, 0, 0);
    safety.arm_drive_lease(speed, 0, DRIVE_LEASE_DURATION - 1);
    assert!(!safety.take_expired_drive_lease(DRIVE_LEASE_DURATION));
    assert_eq!(safety.targets().linear, speed);
    assert!(safety.take_expired_drive_lease(2 * DRIVE_LEASE_DURATION));
    assert_eq!(safety.targets().linear, 0);
    safety.set_fan(50);
    safety.set_main_brush(51);
    safety.set_side_brush(52);
    safety.set_water_pump(53);
    safety.set_lds_running(true);
    safety.arm_drive_lease(0, speed, 0);
    safety.clear_drive_target();
    let targets = safety.targets();
    assert_eq!((targets.linear, targets.angular), (0, 0));
    assert_eq!((targets.fan, targets.main_brush), (50, 51));
    assert_eq!((targets.side_brush, targets.water_pump), (52, 53));
    assert!(targets.lds_running);
    safety.reset_targets();
    assert_eq!(safety.targets(), ActuatorTargets::default());
}

#[test]
fn a_refused_transition_publishes_nothing() {
    let mut lifecycle = Lifecycle::new(1);
    let before = lifecycle.sensor_data.snapshot();
    assert!(lifecycle.mark_operational(2).is_err());
    assert!(lifecycle.mark_read_only_ready(3).is_err());
    assert_eq!(lifecycle.state(), DriverState::Created);
    assert_eq!(lifecycle.sensor_data, before);
}
