//! Explicit S5 Max driver lifecycle and telemetry-freshness state.
//!
//! Times are nanoseconds of a monotonic clock.

use crate::error;
use crate::error::Error;
use crate::groups::SensorGroupData;
use crate::groups::SensorValue;
use crate::groups::SensorValueView;
use crate::text::join;
use crate::text::join3;
use vstd::prelude::*;

verus! {

/// How old the last safety report may be.
pub const SAFETY_REPORT_TIMEOUT: u64 = 500_000_000;

#[derive(Debug, Clone, Copy, PartialEq, Eq, Structural)]
pub enum DriverState {
    Created,
    Synchronizing,
    ReadOnlyReady,
    Operational,
    Stopping,
    Stopped,
    Fault,
}

impl DriverState {
    pub open spec fn text(self) -> Seq<char> {
        match self {
            DriverState::Created => "created"@,
            DriverState::Synchronizing => "synchronizing"@,
            DriverState::ReadOnlyReady => "read_only_ready"@,
            DriverState::Operational => "operational"@,
            DriverState::Stopping => "stopping"@,
            DriverState::Stopped => "stopped"@,
            DriverState::Fault => "fault"@,
        }
    }

    pub fn name(self) -> (name: &'static str)
        ensures
            name@ == self.text(),
    {
        match self {
            DriverState::Created => "created",
            DriverState::Synchronizing => "synchronizing",
            DriverState::ReadOnlyReady => "read_only_ready",
            DriverState::Operational => "operational",
            DriverState::Stopping => "stopping",
            DriverState::Stopped => "stopped",
            DriverState::Fault => "fault",
        }
    }
}

/// A request to the lifecycle.
pub enum Step {
    BeginSynchronizing,
    MarkReadOnlyReady,
    MarkOperational,
    BeginStopping,
    MarkStopped,
}

/// The state after a step; none where the step is refused.
pub open spec fn state_after(state: DriverState, step: Step) -> Option<DriverState> {
    match (step, state) {
        (Step::BeginSynchronizing, DriverState::Created) => Some(DriverState::Synchronizing),
        (Step::BeginSynchronizing, DriverState::Stopped) => Some(DriverState::Synchronizing),
        (Step::MarkReadOnlyReady, DriverState::Synchronizing) => Some(DriverState::ReadOnlyReady),
        (Step::MarkOperational, DriverState::ReadOnlyReady) => Some(DriverState::Operational),
        (Step::BeginStopping, DriverState::Synchronizing) => Some(DriverState::Stopping),
        (Step::BeginStopping, DriverState::ReadOnlyReady) => Some(DriverState::Stopping),
        (Step::BeginStopping, DriverState::Operational) => Some(DriverState::Stopping),
        (Step::BeginStopping, other) => Some(other),
        (Step::MarkStopped, DriverState::Created) => Some(DriverState::Stopped),
        (Step::MarkStopped, DriverState::Stopping) => Some(DriverState::Stopped),
        (Step::MarkStopped, DriverState::Stopped) => Some(DriverState::Stopped),
        (Step::MarkStopped, DriverState::Fault) => Some(DriverState::Fault),
        _ => None,
    }
}

/// The state after several steps, where a refused one changes nothing.
pub open spec fn state_after_all(state: DriverState, steps: Seq<Step>) -> DriverState
    decreases steps.len(),
{
    if steps.len() == 0 {
        state
    } else {
        let before = state_after_all(state, steps.drop_last());
        match state_after(before, steps.last()) {
            Some(next) => next,
            None => before,
        }
    }
}

/// No step leads out of the fault state.
pub proof fn fault_is_final(steps: Seq<Step>)
    ensures
        state_after_all(DriverState::Fault, steps) == DriverState::Fault,
    decreases steps.len(),
{
    if steps.len() > 0 {
        fault_is_final(steps.drop_last());
    }
}

/// The driver becomes operational only by way of synchronizing and of being ready,
/// in this order.
pub proof fn operational_needs_synchronization(state: DriverState, step: Step)
    ensures
        state_after(state, step) == Some(DriverState::Operational) ==> state
            == DriverState::ReadOnlyReady && step is MarkOperational,
        state_after(state, step) == Some(DriverState::ReadOnlyReady) ==> state
            == DriverState::Synchronizing && step is MarkReadOnlyReady,
        state_after(state, step) == Some(DriverState::Synchronizing) ==> (state
            == DriverState::Created || state == DriverState::Stopped) && step
            is BeginSynchronizing,
{
}

/// A run that makes a new driver operational asked it, in this order, to synchronize,
/// to be ready and to be operational.
pub proof fn operation_takes_three_steps(steps: Seq<Step>)
    requires
        state_after_all(DriverState::Created, steps) == DriverState::Operational,
    ensures
        exists|i: int, j: int, k: int|
            0 <= i < j < k < steps.len() && (#[trigger] steps[i]) is BeginSynchronizing && (
            #[trigger] steps[j]) is MarkReadOnlyReady && (#[trigger] steps[k]) is MarkOperational,
{
    let created = DriverState::Created;
    let k = last_entered(created, DriverState::Operational, steps);
    let j = last_entered(created, DriverState::ReadOnlyReady, steps.take(k));
    let i = last_entered(created, DriverState::Synchronizing, steps.take(k).take(j));
    assert(steps.take(k)[j] == steps[j]);
    assert(steps.take(k).take(j)[i] == steps[i]);
}

/// The step that led into the state in which several steps end.
proof fn last_entered(from: DriverState, to: DriverState, steps: Seq<Step>) -> (at: int)
    requires
        state_after_all(from, steps) == to,
        from != to,
    ensures
        0 <= at < steps.len(),
        state_after_all(from, steps.take(at)) != to,
        state_after(state_after_all(from, steps.take(at)), steps[at]) == Some(to),
    decreases steps.len(),
{
    let front = steps.drop_last();
    assert(steps.len() > 0);
    if state_after_all(from, front) == to {
        let at = last_entered(from, to, front);
        assert(front.take(at) =~= steps.take(at));
        at
    } else {
        assert(steps.take(steps.len() - 1) =~= front);
        steps.len() - 1
    }
}

/// The status group after a change of state.
pub open spec fn with_status(
    values: Map<Seq<char>, SensorValueView>,
    state: DriverState,
    fault: Option<Seq<char>>,
) -> Map<Seq<char>, SensorValueView> {
    let v1 = values.insert("state"@, SensorValueView::Text(state.text())).insert(
        "faulted"@,
        SensorValueView::Bool(state == DriverState::Fault),
    );
    match fault {
        Some(reason) => v1.insert("last_fault"@, SensorValueView::Text(reason)),
        None => v1,
    }
}

/// The text of an optional reason.
pub open spec fn reason_text(reason: Option<String>) -> Option<Seq<char>> {
    match reason {
        Some(text) => Some(text@),
        None => None,
    }
}

/// Lifecycle state, fault reason and telemetry freshness of the driver, together
/// with the group in which they are published.
#[derive(Debug)]
pub struct Lifecycle {
    pub state: DriverState,
    pub last_fault: Option<String>,
    pub last_safety_report: Option<u64>,
    pub sensor_data: SensorGroupData,
}

/// `after` is `before` in another state, which was published at `now`. A new start
/// forgets the fault and the reports before it.
pub open spec fn entered(before: Lifecycle, after: Lifecycle, state: DriverState, now: u64) -> bool {
    &&& after.state == state
    &&& after.last_fault == (if state == DriverState::Synchronizing {
        None
    } else {
        before.last_fault
    })
    &&& after.last_safety_report == (if state == DriverState::Synchronizing {
        None
    } else {
        before.last_safety_report
    })
    &&& after.sensor_data.name == before.sensor_data.name
    &&& after.sensor_data.values@ == with_status(
        before.sensor_data.values@,
        state,
        reason_text(after.last_fault),
    )
    &&& after.sensor_data.last_update == Some(now)
}

/// The lifecycle failed for `reason`.
pub open spec fn faulted_with(l: Lifecycle, l2: Lifecycle, reason: Seq<char>, now: u64) -> bool {
    &&& l2.state == DriverState::Fault
    &&& l2.last_fault matches Some(text) && text@ == reason
    &&& l2.last_safety_report == l.last_safety_report
    &&& l2.sensor_data.name == l.sensor_data.name
    &&& l2.sensor_data.values@ == with_status(
        l.sensor_data.values@,
        DriverState::Fault,
        Some(reason),
    )
    &&& l2.sensor_data.last_update == Some(now)
}

/// Every state has its own name.
pub proof fn states_have_their_names(state: DriverState)
    ensures
        state is Created ==> state.text() == "created"@,
        state is Synchronizing ==> state.text() == "synchronizing"@,
        state is ReadOnlyReady ==> state.text() == "read_only_ready"@,
        state is Operational ==> state.text() == "operational"@,
        state is Stopping ==> state.text() == "stopping"@,
        state is Stopped ==> state.text() == "stopped"@,
        state is Fault ==> state.text() == "fault"@,
{
}

/// The status group shows the state by its name, whether it is the fault state, and the
/// last reason where there is one; what else it holds stays.
pub proof fn status_shows_the_state(
    values: Map<Seq<char>, SensorValueView>,
    state: DriverState,
    fault: Option<Seq<char>>,
)
    ensures
        with_status(values, state, fault).contains_pair(
            "state"@,
            SensorValueView::Text(state.text()),
        ),
        with_status(values, state, fault).contains_pair(
            "faulted"@,
            SensorValueView::Bool(state is Fault),
        ),
        fault matches Some(reason) ==> with_status(values, state, fault).contains_pair(
            "last_fault"@,
            SensorValueView::Text(reason),
        ),
        fault is None ==> with_status(values, state, fault).contains_key("last_fault"@)
            == values.contains_key("last_fault"@) && with_status(values, state, fault)["last_fault"@]
            == values["last_fault"@],
        forall|name: Seq<char>|
            name != "state"@ && name != "faulted"@ && name != "last_fault"@ ==> (
            #[trigger] with_status(values, state, fault).contains_key(name) == values.contains_key(
                name,
            ) && with_status(values, state, fault)[name] == values[name]),
{
    reveal_strlit("state");
    reveal_strlit("faulted");
    reveal_strlit("last_fault");
    assert("state"@.len() == 5 && "faulted"@.len() == 7 && "last_fault"@.len() == 10);
}

/// Starting anew forgets the fault and the last safety report; every other change of
/// state keeps both. A fault keeps the last safety report and replaces the reason.
pub proof fn only_a_new_start_forgets(
    before: Lifecycle,
    after: Lifecycle,
    state: DriverState,
    reason: Seq<char>,
    now: u64,
)
    ensures
        entered(before, after, state, now) ==> {
            &&& after.state == state
            &&& state is Synchronizing ==> after.last_fault is None && after.last_safety_report
                is None
            &&& !(state is Synchronizing) ==> after.last_fault == before.last_fault
                && after.last_safety_report == before.last_safety_report
            &&& after.sensor_data.last_update == Some(now)
            &&& after.sensor_data.values@ == with_status(
                before.sensor_data.values@,
                state,
                match after.last_fault {
                    Some(text) => Some(text@),
                    None => None,
                },
            )
        },
        faulted_with(before, after, reason, now) ==> {
            &&& after.state is Fault
            &&& after.last_fault matches Some(text) && text@ == reason
            &&& after.last_safety_report == before.last_safety_report
            &&& after.sensor_data.values@ == with_status(
                before.sensor_data.values@,
                DriverState::Fault,
                Some(reason),
            )
            &&& after.sensor_data.last_update == Some(now)
        },
{
}

/// Stopping: a driver that runs starts to stop, any other stays as it is. It is stopped
/// only from there, or where it never ran; a fault stays.
pub proof fn running_drivers_stop_first(state: DriverState)
    ensures
        ({
            let running = state is Synchronizing || state is ReadOnlyReady || state is Operational;
            &&& running ==> state_after(state, Step::BeginStopping) == Some(DriverState::Stopping)
            &&& !running ==> state_after(state, Step::BeginStopping) == Some(state)
            &&& running <==> state_after(state, Step::MarkStopped) is None
            &&& state_after(state, Step::MarkStopped) matches Some(next) ==> (if state is Fault {
                next is Fault
            } else {
                next is Stopped
            })
        }),
        state_after(state, Step::BeginSynchronizing) is Some <==> state is Created || state is Stopped,
        state_after(state, Step::MarkReadOnlyReady) is Some <==> state is Synchronizing,
        state_after(state, Step::MarkOperational) is Some <==> state is ReadOnlyReady,
{
}

/// The lifecycle was asked to go from one state to another: it does so from that state
/// alone, and otherwise refuses.
pub open spec fn moved(
    before: Lifecycle,
    from: DriverState,
    to: DriverState,
    now: u64,
    after: Lifecycle,
    result: Result<(), Error>,
) -> bool {
    if before.state == from {
        result is Ok && entered(before, after, to, now)
    } else {
        after == before && error::fails_saying(
            result,
            "invalid S5 Max lifecycle transition "@ + before.state.text() + " -> "@ + to.text()
                + "; expected "@ + from.text(),
        )
    }
}

/// A transition succeeds exactly from the state it starts from and then ends in its
/// target; one that is refused changes nothing and publishes nothing.
pub proof fn transitions_need_their_state(
    before: Lifecycle,
    from: DriverState,
    to: DriverState,
    now: u64,
    after: Lifecycle,
    result: Result<(), Error>,
)
    requires
        moved(before, from, to, now, after, result),
    ensures
        result is Ok <==> before.state == from,
        result is Ok ==> after.state == to,
        result is Err ==> after.state == before.state && after == before,
{
}

/// Safety reports are fresh at `now`.
pub open spec fn fresh(last_safety_report: Option<u64>, now: u64) -> bool {
    last_safety_report matches Some(last) && now - last <= SAFETY_REPORT_TIMEOUT
}

/// Reports are fresh for 500 ms after the last one, that moment included; without one
/// they never are.
pub proof fn reports_stay_fresh_for_half_a_second(last_safety_report: Option<u64>, now: u64)
    ensures
        fresh(last_safety_report, now) <==> (last_safety_report matches Some(last) && now <= last
            + 500_000_000),
{
}

impl Lifecycle {
    pub fn new(now: u64) -> (lifecycle: Self)
        ensures
            lifecycle.state == DriverState::Created,
            lifecycle.last_fault is None,
            lifecycle.last_safety_report is None,
            lifecycle.sensor_data.name@ == "driver_status"@,
            lifecycle.sensor_data.values@ == with_status(
                Map::empty(),
                DriverState::Created,
                None,
            ),
            lifecycle.sensor_data.last_update == Some(now),
    {
        let mut lifecycle = Lifecycle {
            state: DriverState::Created,
            last_fault: None,
            last_safety_report: None,
            sensor_data: SensorGroupData::new("driver_status"),
        };
        lifecycle.publish(now);
        lifecycle
    }

    pub fn state(&self) -> (state: DriverState)
        ensures
            state == self.state,
    {
        self.state
    }

    pub fn begin_synchronizing(&mut self, now: u64) -> (result: Result<(), Error>)
        ensures
            match state_after(old(self).state, Step::BeginSynchronizing) {
                Some(next) => result is Ok && entered(*old(self), *final(self), next, now),
                None => *final(self) == *old(self) && error::fails_saying(
                    result,
                    "S5 Max cannot initialize from lifecycle state "@ + old(self).state.text(),
                ),
            },
    {
        if self.state != DriverState::Created && self.state != DriverState::Stopped {
            return Err(
                Error::Other(
                    join("S5 Max cannot initialize from lifecycle state ", self.state.name()),
                ),
            );
        }
        self.set_state(DriverState::Synchronizing, now);
        Ok(())
    }

    pub fn mark_read_only_ready(&mut self, now: u64) -> (result: Result<(), Error>)
        ensures
            moved(
                *old(self),
                DriverState::Synchronizing,
                DriverState::ReadOnlyReady,
                now,
                *final(self),
                result,
            ),
            state_after(old(self).state, Step::MarkReadOnlyReady) == (if result is Ok {
                Some(final(self).state)
            } else {
                None
            }),
    {
        self.transition(DriverState::Synchronizing, DriverState::ReadOnlyReady, now)
    }

    pub fn mark_operational(&mut self, now: u64) -> (result: Result<(), Error>)
        ensures
            moved(
                *old(self),
                DriverState::ReadOnlyReady,
                DriverState::Operational,
                now,
                *final(self),
                result,
            ),
            state_after(old(self).state, Step::MarkOperational) == (if result is Ok {
                Some(final(self).state)
            } else {
                None
            }),
    {
        self.transition(DriverState::ReadOnlyReady, DriverState::Operational, now)
    }

    /// Starts to stop. A driver that is not running stays as it is.
    pub fn begin_stopping(&mut self, now: u64)
        ensures
            ({
                let next = state_after(old(self).state, Step::BeginStopping)->0;
                if next == old(self).state {
                    *final(self) == *old(self)
                } else {
                    entered(*old(self), *final(self), next, now)
                }
            }),
    {
        match self.state {
            DriverState::Synchronizing | DriverState::ReadOnlyReady | DriverState::Operational => {
                self.set_state(DriverState::Stopping, now);
            },
            _ => {},
        }
    }

    pub fn mark_stopped(&mut self, now: u64) -> (result: Result<(), Error>)
        ensures
            match state_after(old(self).state, Step::MarkStopped) {
                Some(next) => result is Ok && (if next == DriverState::Fault {
                    *final(self) == *old(self)
                } else {
                    entered(*old(self), *final(self), next, now)
                }),
                None => *final(self) == *old(self) && error::fails_saying(
                    result,
                    "S5 Max cannot enter stopped from "@ + old(self).state.text(),
                ),
            },
    {
        match self.state {
            DriverState::Created | DriverState::Stopped | DriverState::Stopping => {
                self.set_state(DriverState::Stopped, now);
                Ok(())
            },
            DriverState::Fault => Ok(()),
            state => Err(Error::Other(join("S5 Max cannot enter stopped from ", state.name()))),
        }
    }

    /// Enters the fault state, from any state.
    pub fn fault(&mut self, reason: &str, now: u64)
        ensures
            faulted_with(*old(self), *final(self), reason@, now),
    {
        self.state = DriverState::Fault;
        self.last_fault = Some(reason.to_string());
        self.publish(now);
    }

    pub fn mark_safety_report(&mut self, now: u64)
        ensures
            *final(self) == (Lifecycle { last_safety_report: Some(now), ..*old(self) }),
    {
        self.last_safety_report = Some(now);
    }

    pub fn safety_reports_fresh(&self, now: u64) -> (yes: bool)
        ensures
            yes == fresh(self.last_safety_report, now),
    {
        match self.last_safety_report {
            Some(last) => now <= last || now - last <= SAFETY_REPORT_TIMEOUT,
            None => false,
        }
    }

    fn transition(&mut self, from: DriverState, to: DriverState, now: u64) -> (result: Result<
        (),
        Error,
    >)
        ensures
            moved(*old(self), from, to, now, *final(self), result),
    {
        if self.state != from {
            let start = join3(
                "invalid S5 Max lifecycle transition ",
                self.state.name(),
                " -> ",
            );
            let middle = join3(start.as_str(), to.name(), "; expected ");
            return Err(Error::Other(join(middle.as_str(), from.name())));
        }
        self.set_state(to, now);
        Ok(())
    }

    fn set_state(&mut self, state: DriverState, now: u64)
        ensures
            entered(*old(self), *final(self), state, now),
    {
        self.state = state;
        if state == DriverState::Synchronizing {
            self.last_fault = None;
            self.last_safety_report = None;
        }
        self.publish(now);
    }

    /// Publishes state and fault reason.
    fn publish(&mut self, now: u64)
        ensures
            final(self).state == old(self).state,
            final(self).last_fault == old(self).last_fault,
            final(self).last_safety_report == old(self).last_safety_report,
            final(self).sensor_data.name == old(self).sensor_data.name,
            final(self).sensor_data.values@ == with_status(
                old(self).sensor_data.values@,
                old(self).state,
                reason_text(old(self).last_fault),
            ),
            final(self).sensor_data.last_update == Some(now),
    {
        self.sensor_data.set("state", SensorValue::Text(self.state.name().to_string()));
        self.sensor_data.set("faulted", SensorValue::Bool(self.state == DriverState::Fault));
        if let Some(fault) = &self.last_fault {
            self.sensor_data.set("last_fault", SensorValue::Text(fault.clone()));
        }
        self.sensor_data.touch(now);
    }
}

} // verus!
