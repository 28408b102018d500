//! Taking hold of the hardware watchdog, and feeding it.
//!
//! The watchdog resets the machine unless it is fed. It is let go by Linux's magic
//! close, as the stock software does. Times are nanoseconds of a monotonic clock.

use crate::error;
use crate::error::Error;
use crate::error::ErrorView;
use crate::lifecycle;
use crate::lifecycle::DriverState;
use crate::lifecycle::Lifecycle;
use crate::text::join;
use crate::text::join3;
use crate::worker;
use crate::worker::spawn_failure;
use crate::worker::Worker;
use vstd::prelude::*;

verus! {

/// After how many seconds without being fed the watchdog resets the machine.
pub const TIMEOUT_SECONDS: i32 = 16;

pub const KEEPALIVE_INTERVAL: u64 = 2_000_000_000;

/// How long the worker sleeps between two looks at the clock, in milliseconds.
pub const SLEEP_MILLIS: u64 = 20;

/// The ioctl that feeds the watchdog.
pub const WDIOC_KEEPALIVE: u32 = 0x8004_5705;

/// The ioctl that sets its timeout.
pub const WDIOC_SETTIMEOUT: u32 = 0xc004_5706;

#[derive(Debug, Clone, Copy, PartialEq, Eq, Structural)]
pub enum WatchdogStartPhase {
    Opening,
    SettingTimeout,
    Feeding,
    Spawning,
    Closed,
}

/// What came of what was asked for.
#[derive(Debug)]
pub enum WatchdogStartEvent {
    /// The device was opened; if not, the words of the operating system.
    Opened(Result<(), String>),
    /// The timeout was set, or not.
    TimeoutSet(Result<(), Error>),
    /// The watchdog was fed, or not.
    Fed(Result<(), Error>),
    /// The thread was made; if not, the words of the operating system.
    Spawned(Result<(), String>),
}

/// What the start of the watchdog asks for.
#[derive(Debug)]
pub enum WatchdogStartRequest {
    Open,
    /// Set the timeout to this many seconds.
    SetTimeout(i32),
    Feed,
    Spawn,
    /// The end. After a failure, what was opened is let go.
    Finish(Result<(), Error>),
}

/// The event answers what was asked for in this phase.
pub open spec fn answers_start(phase: WatchdogStartPhase, event: WatchdogStartEvent) -> bool {
    match phase {
        WatchdogStartPhase::Opening => event is Opened,
        WatchdogStartPhase::SettingTimeout => event is TimeoutSet,
        WatchdogStartPhase::Feeding => event is Fed,
        WatchdogStartPhase::Spawning => event is Spawned,
        WatchdogStartPhase::Closed => false,
    }
}

/// Starting to look after the watchdog.
#[derive(Debug)]
pub struct WatchdogStart {
    pub phase: WatchdogStartPhase,
}

/// The start is over, with this failure.
pub open spec fn start_refused(
    s2: WatchdogStart,
    request: WatchdogStartRequest,
    e: ErrorView,
) -> bool {
    &&& s2.phase == WatchdogStartPhase::Closed
    &&& request matches WatchdogStartRequest::Finish(result) && error::fails(result, e)
}

impl WatchdogStart {
    pub fn begin() -> (started: (Self, WatchdogStartRequest))
        ensures
            started.0.phase == WatchdogStartPhase::Opening,
            started.1 is Open,
    {
        (WatchdogStart { phase: WatchdogStartPhase::Opening }, WatchdogStartRequest::Open)
    }

    fn close(&mut self, result: Result<(), Error>) -> (request: WatchdogStartRequest)
        ensures
            final(self).phase == WatchdogStartPhase::Closed,
            request == WatchdogStartRequest::Finish(result),
    {
        self.phase = WatchdogStartPhase::Closed;
        WatchdogStartRequest::Finish(result)
    }

    /// Goes on after what came of the last request: the device is opened, given its
    /// timeout and fed once before there is a worker to feed it.
    pub fn step(&mut self, path: &str, event: WatchdogStartEvent) -> (request: WatchdogStartRequest)
        requires
            answers_start(old(self).phase, event),
        ensures
            match event {
                WatchdogStartEvent::Opened(Ok(())) => {
                    &&& final(self).phase == WatchdogStartPhase::SettingTimeout
                    &&& request == WatchdogStartRequest::SetTimeout(TIMEOUT_SECONDS)
                },
                WatchdogStartEvent::Opened(Err(why)) => start_refused(
                    *final(self),
                    request,
                    ErrorView::Other(
                        "open S5 Max watchdog "@ + path@ + ": "@ + why@
                            + "; stop WatchDoge before takeover"@,
                    ),
                ),
                WatchdogStartEvent::TimeoutSet(Ok(())) => {
                    &&& final(self).phase == WatchdogStartPhase::Feeding
                    &&& request is Feed
                },
                WatchdogStartEvent::TimeoutSet(Err(e)) => start_refused(*final(self), request, e@),
                WatchdogStartEvent::Fed(Ok(())) => {
                    &&& final(self).phase == WatchdogStartPhase::Spawning
                    &&& request is Spawn
                },
                WatchdogStartEvent::Fed(Err(e)) => start_refused(*final(self), request, e@),
                WatchdogStartEvent::Spawned(Ok(())) => {
                    &&& final(self).phase == WatchdogStartPhase::Closed
                    &&& request matches WatchdogStartRequest::Finish(result) && result is Ok
                },
                WatchdogStartEvent::Spawned(Err(why)) => start_refused(
                    *final(self),
                    request,
                    worker::not_spawned(Worker::Watchdog, why@),
                ),
            },
            request matches WatchdogStartRequest::SetTimeout(seconds) ==> seconds == 16
                && old(self).phase == WatchdogStartPhase::Opening,
            request is Spawn ==> old(self).phase == WatchdogStartPhase::Feeding,
    {
        match event {
            WatchdogStartEvent::Opened(Ok(())) => {
                self.phase = WatchdogStartPhase::SettingTimeout;
                WatchdogStartRequest::SetTimeout(TIMEOUT_SECONDS)
            },
            WatchdogStartEvent::Opened(Err(why)) => {
                let start = join3("open S5 Max watchdog ", path, ": ");
                let said = join3(start.as_str(), why.as_str(), "; stop WatchDoge before takeover");
                self.close(Err(Error::Other(said)))
            },
            WatchdogStartEvent::TimeoutSet(Ok(())) => {
                self.phase = WatchdogStartPhase::Feeding;
                WatchdogStartRequest::Feed
            },
            WatchdogStartEvent::TimeoutSet(Err(error)) => self.close(Err(error)),
            WatchdogStartEvent::Fed(Ok(())) => {
                self.phase = WatchdogStartPhase::Spawning;
                WatchdogStartRequest::Spawn
            },
            WatchdogStartEvent::Fed(Err(error)) => self.close(Err(error)),
            WatchdogStartEvent::Spawned(Ok(())) => self.close(Ok(())),
            WatchdogStartEvent::Spawned(Err(why)) => self.close(
                Err(spawn_failure(Worker::Watchdog, why.as_str())),
            ),
        }
    }
}

#[derive(Debug, Clone, Copy, PartialEq, Eq, Structural)]
pub enum WatchdogPhase {
    Looking,
    Feeding,
    Sleeping,
    Closed,
}

#[derive(Debug)]
pub enum WatchdogEvent {
    /// Whether the driver is shutting down.
    Shutdown(bool),
    /// The watchdog was fed; if not, the words of the operating system.
    Fed(Result<(), String>),
    Slept,
}

#[derive(Debug)]
pub enum WatchdogRequest {
    /// Look whether the driver is shutting down.
    AskShutdown,
    Feed,
    Sleep,
    /// Let the watchdog go.
    Release,
    /// Tell all workers to end, and let the watchdog go.
    Fail(Error),
}

/// The event answers what was asked for in this phase.
pub open spec fn answers(phase: WatchdogPhase, event: WatchdogEvent) -> bool {
    match phase {
        WatchdogPhase::Looking => event is Shutdown,
        WatchdogPhase::Feeding => event is Fed,
        WatchdogPhase::Sleeping => event is Slept,
        WatchdogPhase::Closed => false,
    }
}

/// Looking after the watchdog.
#[derive(Debug)]
pub struct WatchdogRun {
    pub phase: WatchdogPhase,
    /// When the clock was looked at last.
    pub looked: u64,
    /// When the watchdog is to be fed next.
    pub next_keepalive: u64,
}

/// What one step does.
pub open spec fn watch_step(
    r: WatchdogRun,
    l: Lifecycle,
    path: Seq<char>,
    event: WatchdogEvent,
    now: u64,
    r2: WatchdogRun,
    l2: Lifecycle,
    request: WatchdogRequest,
) -> bool {
    match event {
        WatchdogEvent::Shutdown(true) => {
            &&& r2 == (WatchdogRun { phase: WatchdogPhase::Closed, ..r })
            &&& l2 == l
            &&& request is Release
        },
        WatchdogEvent::Shutdown(false) => {
            &&& l2 == l
            &&& if now >= r.next_keepalive {
                &&& r2 == (WatchdogRun { phase: WatchdogPhase::Feeding, looked: now, ..r })
                &&& request is Feed
            } else {
                &&& r2 == (WatchdogRun { phase: WatchdogPhase::Sleeping, looked: now, ..r })
                &&& request is Sleep
            }
        },
        WatchdogEvent::Fed(Ok(())) => {
            &&& r2 == (WatchdogRun {
                phase: WatchdogPhase::Sleeping,
                next_keepalive: (r.looked + KEEPALIVE_INTERVAL) as u64,
                ..r
            })
            &&& l2 == l
            &&& request is Sleep
        },
        WatchdogEvent::Fed(Err(why)) => {
            let said = "watchdog keepalive "@ + path + ": "@ + why@;
            &&& r2 == (WatchdogRun { phase: WatchdogPhase::Closed, ..r })
            &&& lifecycle::faulted_with(l, l2, said, now)
            &&& request matches WatchdogRequest::Fail(e) && e@ == ErrorView::Other(said)
        },
        WatchdogEvent::Slept => {
            &&& r2 == (WatchdogRun { phase: WatchdogPhase::Looking, ..r })
            &&& l2 == l
            &&& request is AskShutdown
        },
    }
}

/// The watchdog is fed as soon as it is seen to be due, it is let go only when the
/// driver shuts down, and one that cannot be fed puts the driver into the fault state.
pub proof fn watchdog_is_kept_or_fails(
    r: WatchdogRun,
    l: Lifecycle,
    path: Seq<char>,
    event: WatchdogEvent,
    now: u64,
    r2: WatchdogRun,
    l2: Lifecycle,
    request: WatchdogRequest,
)
    requires
        answers(r.phase, event),
        watch_step(r, l, path, event, now, r2, l2, request),
    ensures
        event matches WatchdogEvent::Shutdown(down) ==> (request is Feed <==> !down && now
            >= r.next_keepalive),
        request is Release <==> event == WatchdogEvent::Shutdown(true),
        request is Fail <==> (event matches WatchdogEvent::Fed(fed) && fed is Err),
        request is Fail ==> l2.state == DriverState::Fault,
        request !is Fail ==> l2 == l,
{
}

/// Feeding makes the next one due two seconds after the look at the clock that led to it;
/// nothing else moves that time. Between two looks there is always a sleep.
pub proof fn watchdog_is_fed_every_two_seconds(
    r: WatchdogRun,
    l: Lifecycle,
    path: Seq<char>,
    event: WatchdogEvent,
    now: u64,
    r2: WatchdogRun,
    l2: Lifecycle,
    request: WatchdogRequest,
)
    requires
        r.wf(),
        answers(r.phase, event),
        watch_step(r, l, path, event, now, r2, l2, request),
    ensures
        event matches WatchdogEvent::Fed(Ok(_)) ==> r2.next_keepalive == r.looked + 2_000_000_000
            && request is Sleep && r2.phase == WatchdogPhase::Sleeping,
        !(event matches WatchdogEvent::Fed(Ok(_))) ==> r2.next_keepalive == r.next_keepalive,
        event == WatchdogEvent::Shutdown(false) ==> r2.looked == now && (if now
            >= r.next_keepalive {
            request is Feed && r2.phase == WatchdogPhase::Feeding
        } else {
            request is Sleep && r2.phase == WatchdogPhase::Sleeping
        }),
        event != WatchdogEvent::Shutdown(false) ==> r2.looked == r.looked,
        event is Slept ==> request is AskShutdown && r2.phase == WatchdogPhase::Looking,
{
}

impl WatchdogRun {
    pub open spec fn wf(&self) -> bool {
        self.looked + KEEPALIVE_INTERVAL <= u64::MAX
    }

    /// The worker starts at `now`, just after the watchdog was fed.
    pub fn begin(now: u64) -> (started: (Self, WatchdogRequest))
        requires
            now + KEEPALIVE_INTERVAL <= u64::MAX,
        ensures
            started.0 == (WatchdogRun {
                phase: WatchdogPhase::Looking,
                looked: now,
                next_keepalive: (now + KEEPALIVE_INTERVAL) as u64,
            }),
            started.0.wf(),
            started.1 is AskShutdown,
    {
        let run = WatchdogRun {
            phase: WatchdogPhase::Looking,
            looked: now,
            next_keepalive: now + KEEPALIVE_INTERVAL,
        };
        (run, WatchdogRequest::AskShutdown)
    }

    /// Goes on after what came of the last request.
    pub fn step(&mut self, lifecycle: &mut Lifecycle, path: &str, event: WatchdogEvent, now: u64) -> (
    request: WatchdogRequest)
        requires
            old(self).wf(),
            answers(old(self).phase, event),
            now + KEEPALIVE_INTERVAL <= u64::MAX,
        ensures
            final(self).wf(),
            watch_step(
                *old(self),
                *old(lifecycle),
                path@,
                event,
                now,
                *final(self),
                *final(lifecycle),
                request,
            ),
    {
        match event {
            WatchdogEvent::Shutdown(down) => {
                if down {
                    self.phase = WatchdogPhase::Closed;
                    return WatchdogRequest::Release;
                }
                self.looked = now;
                if now >= self.next_keepalive {
                    self.phase = WatchdogPhase::Feeding;
                    WatchdogRequest::Feed
                } else {
                    self.phase = WatchdogPhase::Sleeping;
                    WatchdogRequest::Sleep
                }
            },
            WatchdogEvent::Fed(Ok(())) => {
                self.next_keepalive = self.looked + KEEPALIVE_INTERVAL;
                self.phase = WatchdogPhase::Sleeping;
                WatchdogRequest::Sleep
            },
            WatchdogEvent::Fed(Err(why)) => {
                let start = join3("watchdog keepalive ", path, ": ");
                let said = join(start.as_str(), why.as_str());
                lifecycle.fault(said.as_str(), now);
                self.phase = WatchdogPhase::Closed;
                WatchdogRequest::Fail(Error::Other(said))
            },
            WatchdogEvent::Slept => {
                self.phase = WatchdogPhase::Looking;
                WatchdogRequest::AskShutdown
            },
        }
    }
}

} // verus!
