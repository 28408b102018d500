//! Actuator target state, freshness gate, and drive deadman lease.
//!
//! Times are nanoseconds of a monotonic clock.

use crate::error;
use crate::error::Error;
use crate::error::ErrorView;
use crate::ieee;
use crate::ieee::is_zero;
use crate::lifecycle;
use crate::lifecycle::DriverState;
use crate::lifecycle::Lifecycle;
use vstd::prelude::*;

verus! {

/// How long a drive target holds without being renewed.
pub const DRIVE_LEASE_DURATION: u64 = 250_000_000;

/// What the actuators were last told to do. The drive targets are IEEE-754 bit
/// patterns.
#[derive(Debug, Clone, Copy, PartialEq, Eq)]
pub struct ActuatorTargets {
    pub linear: u32,
    pub angular: u32,
    pub fan: u8,
    pub main_brush: u8,
    pub side_brush: u8,
    pub water_pump: u8,
    pub lds_running: bool,
}

impl ActuatorTargets {
    /// Everything at rest.
    pub open spec fn at_rest() -> Self {
        ActuatorTargets {
            linear: 0,
            angular: 0,
            fan: 0,
            main_brush: 0,
            side_brush: 0,
            water_pump: 0,
            lds_running: false,
        }
    }

    /// The drive targets are zero.
    pub open spec fn stands(self) -> bool {
        ieee::zero(self.linear) && ieee::zero(self.angular)
    }
}

impl Default for ActuatorTargets {
    fn default() -> (targets: Self)
        ensures
            targets == ActuatorTargets::at_rest(),
    {
        ActuatorTargets {
            linear: 0,
            angular: 0,
            fan: 0,
            main_brush: 0,
            side_brush: 0,
            water_pump: 0,
            lds_running: false,
        }
    }
}

/// Why a target other than zero is refused, if it is.
pub open spec fn refusal(
    allow_actuation: bool,
    state: DriverState,
    last_safety_report: Option<u64>,
    now: u64,
) -> Option<ErrorView> {
    if !allow_actuation {
        Some(ErrorView::InvalidParameter("S5 Max actuation is disabled by configuration"@))
    } else if state != DriverState::Operational {
        Some(ErrorView::Other("S5 Max is not in the operational lifecycle state"@))
    } else if !lifecycle::fresh(last_safety_report, now) {
        Some(ErrorView::Other("S5 Max safety telemetry is stale; nonzero target rejected"@))
    } else {
        None
    }
}

/// A target other than zero is accepted exactly where the configuration allows it,
/// the driver is operational, and safety reports are fresh. A driver that has
/// failed, and one that no report reached since it started, accepts none.
pub proof fn gate_needs_everything(
    allow_actuation: bool,
    state: DriverState,
    last_safety_report: Option<u64>,
    now: u64,
)
    ensures
        refusal(allow_actuation, state, last_safety_report, now) is None <==> allow_actuation
            && state == DriverState::Operational && lifecycle::fresh(last_safety_report, now),
        state == DriverState::Fault ==> refusal(allow_actuation, state, last_safety_report, now)
            is Some,
        last_safety_report is None ==> refusal(allow_actuation, state, last_safety_report, now)
            is Some,
{
}

/// What is said where a target is refused, in this order: that the configuration
/// forbids it, that the driver is not operational, that the last safety report is more
/// than 500 ms old or never came. It is accepted exactly where none of these holds.
pub proof fn refusals_come_in_order(
    allow_actuation: bool,
    state: DriverState,
    last_safety_report: Option<u64>,
    now: u64,
)
    ensures
        ({
            let refused = refusal(allow_actuation, state, last_safety_report, now);
            let recent = last_safety_report matches Some(last) && now <= last + 500_000_000;
            &&& !allow_actuation ==> refused == Some(
                ErrorView::InvalidParameter("S5 Max actuation is disabled by configuration"@),
            )
            &&& allow_actuation && !(state is Operational) ==> refused == Some(
                ErrorView::Other("S5 Max is not in the operational lifecycle state"@),
            )
            &&& allow_actuation && state is Operational && !recent ==> refused == Some(
                ErrorView::Other("S5 Max safety telemetry is stale; nonzero target rejected"@),
            )
            &&& refused is None <==> allow_actuation && state is Operational && recent
        }),
{
}

/// Targets and the drive lease.
#[derive(Debug)]
pub struct SafetyController {
    pub targets: ActuatorTargets,
    /// When the drive target lapses.
    pub drive_lease_deadline: Option<u64>,
}

impl SafetyController {
    /// The robot moves exactly while a lease is running.
    pub open spec fn wf(&self) -> bool {
        self.targets.stands() <==> self.drive_lease_deadline is None
    }

    pub fn new() -> (safety: Self)
        ensures
            safety.wf(),
            safety.targets == ActuatorTargets::at_rest(),
            safety.drive_lease_deadline is None,
    {
        SafetyController { targets: ActuatorTargets::default(), drive_lease_deadline: None }
    }

    pub fn targets(&self) -> (targets: ActuatorTargets)
        ensures
            targets == self.targets,
    {
        self.targets
    }

    pub fn reset_targets(&mut self)
        ensures
            final(self).wf(),
            final(self).targets == ActuatorTargets::at_rest(),
            final(self).drive_lease_deadline is None,
    {
        self.targets = ActuatorTargets::default();
        self.drive_lease_deadline = None;
    }

    /// Whether a target other than zero may be set: actuation is configured, the
    /// driver is operational, and safety reports are fresh.
    pub fn nonzero_allowed(&self, lifecycle: &Lifecycle, allow_actuation: bool, now: u64) -> (result:
        Result<(), Error>)
        ensures
            match refusal(allow_actuation, lifecycle.state, lifecycle.last_safety_report, now) {
                Some(e) => error::fails(result, e),
                None => result is Ok,
            },
    {
        if !allow_actuation {
            return Err(
                Error::InvalidParameter("S5 Max actuation is disabled by configuration".to_string()),
            );
        }
        if lifecycle.state() != DriverState::Operational {
            return Err(
                Error::Other("S5 Max is not in the operational lifecycle state".to_string()),
            );
        }
        if !lifecycle.safety_reports_fresh(now) {
            return Err(
                Error::Other(
                    "S5 Max safety telemetry is stale; nonzero target rejected".to_string(),
                ),
            );
        }
        Ok(())
    }

    /// Notes a drive target, and starts its lease unless it is zero.
    pub fn arm_drive_lease(&mut self, linear: u32, angular: u32, now: u64)
        requires
            now + DRIVE_LEASE_DURATION <= u64::MAX,
        ensures
            final(self).wf(),
            final(self).targets == (ActuatorTargets { linear, angular, ..old(self).targets }),
            final(self).drive_lease_deadline == (if ieee::zero(linear) && ieee::zero(angular) {
                None
            } else {
                Some((now + DRIVE_LEASE_DURATION) as u64)
            }),
            final(self).drive_lease_deadline matches Some(until) ==> until == now + 250_000_000,
            final(self).drive_lease_deadline is None <==> linear % 0x8000_0000 == 0 && angular
                % 0x8000_0000 == 0,
    {
        self.targets.linear = linear;
        self.targets.angular = angular;
        self.drive_lease_deadline = if is_zero(linear) && is_zero(angular) {
            None
        } else {
            Some(now + DRIVE_LEASE_DURATION)
        };
    }

    pub fn clear_drive_target(&mut self)
        ensures
            final(self).wf(),
            final(self).targets == (ActuatorTargets { linear: 0, angular: 0, ..old(self).targets }),
            final(self).drive_lease_deadline is None,
    {
        self.targets.linear = 0;
        self.targets.angular = 0;
        self.drive_lease_deadline = None;
    }

    pub fn set_fan(&mut self, target: u8)
        ensures
            old(self).wf() ==> final(self).wf(),
            final(self).targets == (ActuatorTargets { fan: target, ..old(self).targets }),
            final(self).drive_lease_deadline == old(self).drive_lease_deadline,
    {
        self.targets.fan = target;
    }

    pub fn set_main_brush(&mut self, target: u8)
        ensures
            old(self).wf() ==> final(self).wf(),
            final(self).targets == (ActuatorTargets { main_brush: target, ..old(self).targets }),
            final(self).drive_lease_deadline == old(self).drive_lease_deadline,
    {
        self.targets.main_brush = target;
    }

    pub fn set_side_brush(&mut self, target: u8)
        ensures
            old(self).wf() ==> final(self).wf(),
            final(self).targets == (ActuatorTargets { side_brush: target, ..old(self).targets }),
            final(self).drive_lease_deadline == old(self).drive_lease_deadline,
    {
        self.targets.side_brush = target;
    }

    pub fn set_water_pump(&mut self, target: u8)
        ensures
            old(self).wf() ==> final(self).wf(),
            final(self).targets == (ActuatorTargets { water_pump: target, ..old(self).targets }),
            final(self).drive_lease_deadline == old(self).drive_lease_deadline,
    {
        self.targets.water_pump = target;
    }

    pub fn set_lds_running(&mut self, running: bool)
        ensures
            old(self).wf() ==> final(self).wf(),
            final(self).targets == (ActuatorTargets { lds_running: running, ..old(self).targets }),
            final(self).drive_lease_deadline == old(self).drive_lease_deadline,
    {
        self.targets.lds_running = running;
    }

    /// Ends a lease that has lapsed, with the drive targets at zero.
    pub fn take_expired_drive_lease(&mut self, now: u64) -> (expired: bool)
        ensures
            old(self).wf() ==> final(self).wf(),
            expired == lapsed(old(self).drive_lease_deadline, now),
            expired ==> final(self).targets == (ActuatorTargets {
                linear: 0,
                angular: 0,
                ..old(self).targets
            }) && final(self).drive_lease_deadline is None,
            !expired ==> *final(self) == *old(self),
            expired <==> (old(self).drive_lease_deadline matches Some(until) && until <= now),
    {
        let expired = match self.drive_lease_deadline {
            Some(deadline) => now >= deadline,
            None => false,
        };
        if expired {
            self.clear_drive_target();
        }
        expired
    }
}

/// A lease has lapsed at `now`.
pub open spec fn lapsed(deadline: Option<u64>, now: u64) -> bool {
    deadline matches Some(d) && now >= d
}

/// Whatever drive target is set, the robot stands still, or its lease lapses, once
/// the lease time is over.
pub proof fn motion_needs_renewal(safety: SafetyController, armed: u64, now: u64)
    requires
        safety.wf(),
        safety.drive_lease_deadline matches Some(d) ==> d <= armed + DRIVE_LEASE_DURATION,
        now >= armed + DRIVE_LEASE_DURATION,
    ensures
        safety.targets.stands() || lapsed(safety.drive_lease_deadline, now),
{
}

} // verus!
