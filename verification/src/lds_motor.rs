//! The LDS motor controller: what it is told, and what is known of it.

use vstd::prelude::*;

verus! {

pub const LDS_MOTOR_SET_SPEED: u32 = 0x4004_f810;

pub const LDS_MOTOR_SET_CURRENT_SPEED: u32 = 0x4004_f812;

pub const LDS_MOTOR_START: u32 = 0x4004_f813;

pub const LDS_MOTOR_STOP: u32 = 0x4004_f814;

pub const LDS_MOTOR_SET_PRODUCT_ID: u32 = 0x4004_f826;

/// 300 RPM.
pub const TARGET_RPM_X100: i32 = 30_000;

pub const PRODUCT_ID: i32 = 1;

pub const START_VALUE: i32 = 20_000;

/// How long the motor is left alone after a stop, in milliseconds.
pub const STOP_SETTLE_MILLIS: u64 = 50;

/// One ioctl of the motor controller, its argument, and what it does.
#[derive(Debug, Clone, Copy, PartialEq, Eq)]
pub struct MotorRequest {
    pub request: u32,
    pub value: i32,
    pub operation: &'static str,
}

/// What is known of the motor.
#[derive(Debug, Clone, Copy, PartialEq, Eq)]
pub struct MotorState {
    /// It has to be stopped before it is let go.
    pub armed: bool,
    pub running: bool,
}

/// The requests that start the motor: target speed, product, start.
pub open spec fn start_requests() -> Seq<(u32, i32)> {
    seq![
        (LDS_MOTOR_SET_SPEED, TARGET_RPM_X100),
        (LDS_MOTOR_SET_PRODUCT_ID, PRODUCT_ID),
        (LDS_MOTOR_START, START_VALUE),
    ]
}

/// What the requests that start the motor do.
pub open spec fn start_operations() -> Seq<Seq<char>> {
    seq!["set target speed"@, "set product ID"@, "start"@]
}

/// The motor is told 300 RPM in hundredths, then product one, and is then started; each
/// request by its own number.
pub proof fn motor_is_told_its_speed_first()
    ensures
        start_requests().len() == 3,
        start_requests()[0] == (0x4004_f810u32, 30_000i32),
        start_requests()[1] == (0x4004_f826u32, 1i32),
        start_requests()[2] == (0x4004_f813u32, 20_000i32),
        start_operations().len() == 3,
        start_operations()[0] == "set target speed"@,
        start_operations()[1] == "set product ID"@,
        start_operations()[2] == "start"@,
{
}

impl MotorState {
    /// The motor was just taken hold of.
    pub fn new() -> (state: Self)
        ensures
            state == (MotorState { armed: true, running: false }),
    {
        MotorState { armed: true, running: false }
    }

    pub fn is_running(&self) -> (yes: bool)
        ensures
            yes == self.running,
    {
        self.running
    }

    /// The request at `at` of those that configure and start the motor. After the
    /// last one has gone through, the motor runs.
    pub fn configure_and_start(&mut self, at: usize) -> (request: Option<MotorRequest>)
        ensures
            if at < 3 {
                &&& *final(self) == *old(self)
                &&& request matches Some(r) && (r.request, r.value) == start_requests()[at as int]
                    && r.operation@ == start_operations()[at as int]
            } else {
                &&& *final(self) == (MotorState { running: true, ..*old(self) })
                &&& request is None
            },
    {
        if at == 0 {
            Some(
                MotorRequest {
                    request: LDS_MOTOR_SET_SPEED,
                    value: TARGET_RPM_X100,
                    operation: "set target speed",
                },
            )
        } else if at == 1 {
            Some(
                MotorRequest {
                    request: LDS_MOTOR_SET_PRODUCT_ID,
                    value: PRODUCT_ID,
                    operation: "set product ID",
                },
            )
        } else if at == 2 {
            Some(
                MotorRequest { request: LDS_MOTOR_START, value: START_VALUE, operation: "start" },
            )
        } else {
            self.running = true;
            None
        }
    }

    /// The request that stops the motor. It no longer counts as running, whatever
    /// becomes of the request.
    pub fn stop(&mut self) -> (request: MotorRequest)
        ensures
            *final(self) == (MotorState { running: false, ..*old(self) }),
            request.request == LDS_MOTOR_STOP,
            request.request == 0x4004_f814,
            request.value == 0,
            request.operation@ == "stop"@,
    {
        self.running = false;
        MotorRequest { request: LDS_MOTOR_STOP, value: 0, operation: "stop" }
    }

    /// After a last stop: a motor that was stopped may be let go, another one has to
    /// be stopped again.
    pub fn stop_and_disarm(&mut self, stopped: bool)
        ensures
            *final(self) == (MotorState { armed: old(self).armed && !stopped, ..*old(self) }),
            stopped ==> !final(self).armed,
            !stopped ==> final(self).armed == old(self).armed,
    {
        if stopped {
            self.armed = false;
        }
    }
}

} // verus!
