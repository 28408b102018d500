//! The MCU session: what the single owner of the MCU UART does next.
//!
//! The session never touches the UART, a clock or a channel. Each step takes what
//! happened last and says what to do now; whoever owns the UART does that and comes
//! back with the result. Times are nanoseconds of a monotonic clock.

use crate::acks;
use crate::acks::AckRetryWindow;
use crate::acks::CommandAckTracker;
use crate::acks::RecentAckRequests;
use crate::acks::MAX_SYNC_ATTEMPTS;
use crate::bytes::copy_range;
use crate::commands;
use crate::commands::acknowledgement_frame;
use crate::commands::heartbeat_frame;
use crate::commands::next_tx_sequence;
use crate::commands::sensor_sync_query_frame;
use crate::commands::ACK_REPORT;
use crate::decoder;
use crate::decoder::FrameDecoder;
use crate::error::Error;
use crate::error::ErrorView;
use crate::groups::SensorGroupData;
use crate::guard;
use crate::guard::ActuatorCommand;
use crate::guard::CommandRun;
use crate::guard::McuSafetyGuard;
use crate::guard::RunStep;
use crate::guard::StopRun;
use crate::lifecycle::Lifecycle;
use crate::lifecycle::SAFETY_REPORT_TIMEOUT;
use crate::packet;
use crate::packet::Frame;
use crate::packet::FrameView;
use crate::packet::REPORT_FOOTER_LENGTH;
use crate::packet::REPORT_FOOTER_MESSAGE;
use crate::reports;
use crate::reports::ReportFooter;
use crate::safety;
use crate::safety::ActuatorTargets;
use crate::safety::SafetyController;
use crate::sensors;
use crate::sensors::SensorGroups;
use crate::text;
use crate::text::decimal_text;
use crate::text::join;
use crate::text::join3;
use vstd::prelude::*;

verus! {

pub const HEARTBEAT_INTERVAL: u64 = 1_000_000_000;

/// How long the MCU may take to synchronize.
pub const WORKER_STARTUP_TIMEOUT: u64 = 1_500_000_000;

/// No clock reading lies later than this.
pub const CLOCK_MAX: u64 = 0xffff_ffff_0000_0000;

pub const ACK_LENGTH: u8 = 1;

pub const DOCK_STATUS_REPORT: u8 = 0x20;

pub const BATTERY_STATUS_REPORT: u8 = 0x08;

pub const DUSTBIN_STATUS_REPORT: u8 = 0x24;

pub const DOCK_VOLTAGE_STATUS_REPORT: u8 = 0x0f;

/// The frame holds the whole sensor snapshot: dock, battery, dustbin and dock
/// voltage.
pub open spec fn holds_snapshot(f: FrameView) -> bool {
    &&& f.report_data(DOCK_STATUS_REPORT, 2) is Some
    &&& f.report_data(BATTERY_STATUS_REPORT, 10) is Some
    &&& f.report_data(DUSTBIN_STATUS_REPORT, 2) is Some
    &&& f.report_data(DOCK_VOLTAGE_STATUS_REPORT, 2) is Some
}

pub fn contains_sensor_snapshot(frame: &Frame) -> (yes: bool)
    ensures
        yes == holds_snapshot(frame@),
{
    frame.embedded_report(DOCK_STATUS_REPORT, 2).is_some() && frame.embedded_report(
        BATTERY_STATUS_REPORT,
        10,
    ).is_some() && frame.embedded_report(DUSTBIN_STATUS_REPORT, 2).is_some()
        && frame.embedded_report(DOCK_VOLTAGE_STATUS_REPORT, 2).is_some()
}

pub fn report_requests_ack(footer: Option<ReportFooter>) -> (yes: bool)
    ensures
        yes == (footer matches Some(f) && f.reports_pending),
{
    match footer {
        Some(footer) => footer.reports_pending,
        None => false,
    }
}

/// Hands out the notice about the startup, unless one was handed out before.
pub fn notify_startup(pending: &mut bool, result: Result<(), Error>) -> (notice: Option<
    Result<(), Error>,
>)
    ensures
        !*final(pending),
        notice == (if *old(pending) {
            Some(result)
        } else {
            None
        }),
{
    if *pending {
        *pending = false;
        Some(result)
    } else {
        None
    }
}

/// What the session shares with the rest of the driver.
pub struct World {
    pub safety: SafetyController,
    pub lifecycle: Lifecycle,
    pub sensors: SensorGroups,
    pub acks: CommandAckTracker,
}

impl World {
    pub open spec fn wf(&self) -> bool {
        self.safety.wf() && self.acks.wf()
    }
}

/// Where the session stands.
#[derive(Debug, Clone, Copy, PartialEq, Eq, Structural)]
pub enum Phase {
    /// Nothing was sent yet.
    Start,
    /// The first heartbeat is being written.
    StartHeartbeat,
    /// The first sensor synchronization is being written.
    StartSync,
    /// The start of a pass: is the driver shutting down?
    Top,
    /// The notice of a shutdown during startup is out.
    Ending,
    /// Is there a command?
    Commands,
    /// The next frame of a command.
    RunNext,
    RunWriting,
    /// The next frame of the stop set that a command asked for.
    StopNext,
    StopWriting,
    /// A command was answered.
    Replied,
    /// A command was answered with its failure.
    ReplyFailed,
    /// The next command to be sent again.
    RetryNext,
    RetryWriting,
    /// Has the drive lease lapsed?
    Lease,
    LeaseWriting,
    /// Are safety reports fresh?
    Freshness,
    /// Is a heartbeat due?
    Heartbeat,
    HeartbeatWriting,
    /// Is the synchronization to be sent again?
    SyncRetry,
    SyncWriting,
    /// Did the synchronization go unanswered?
    Exhausted,
    /// Did the startup take too long?
    Deadline,
    /// The notice of a failed startup is out.
    Failing,
    /// Are there bytes?
    Polling,
    Reading,
    /// The next frame that was read.
    FrameNext,
    /// Does it want an acknowledgement?
    FrameAck,
    FrameAckWriting,
    /// Is the startup complete?
    FrameStartup,
    /// The session is over; the stop set comes next.
    FinalStop,
    FinalStopNext,
    FinalStopWriting,
    /// The stop set failed and is sent once more.
    RetryStopNext,
    RetryStopWriting,
    /// All is said.
    Closed,
}

/// What happened.
#[derive(Debug)]
pub enum Event {
    /// What was asked for is done.
    Proceed,
    /// The frame was written.
    Written,
    /// The frame could not be written.
    WriteFailed(Error),
    /// Whether the driver is shutting down.
    Shutdown(bool),
    /// The next command in the queue, if there is one.
    Command(Option<ActuatorCommand>),
    /// Whether there are bytes to be read.
    Polled(Result<bool, Error>),
    /// The bytes that were read.
    Received(Result<Vec<u8>, Error>),
}

/// What to do now.
#[derive(Debug)]
pub enum Action {
    /// Nothing: go on.
    Continue,
    /// Write this frame.
    Write(Vec<u8>),
    /// Look whether the driver is shutting down.
    AskShutdown,
    /// Look for a command.
    AskCommand,
    /// Answer the command: which sequences the MCU has to acknowledge, or why it
    /// failed.
    Reply(Result<Vec<u8>, Error>),
    /// Tell how the startup went.
    Notify(Result<(), Error>),
    /// Wait for bytes, 20 ms at most.
    Poll,
    /// Read what is there.
    Read,
    /// Stream this snapshot of the status group.
    Stream(SensorGroupData),
    /// End, with this result.
    Finish(Result<(), Error>),
}

/// The state of the session.
pub struct Session {
    pub phase: Phase,
    pub guard: McuSafetyGuard,
    /// When the pass started.
    pub now: u64,
    /// Nobody was told yet how the startup went.
    pub startup_pending: bool,
    pub startup_deadline: u64,
    pub next_heartbeat: u64,
    pub sync_sequence: u8,
    pub sync_frame: Vec<u8>,
    pub sync_retry: AckRetryWindow,
    pub sync_acknowledged: bool,
    pub snapshot_received: bool,
    pub safety_report_deadline: Option<u64>,
    pub decoder: FrameDecoder,
    pub recent: RecentAckRequests,
    pub binary_frame_index: u32,
    /// The command on its way.
    pub run: CommandRun,
    /// The stop set on its way.
    pub stop: Option<StopRun>,
    /// The commands to be sent again in this pass, and how many were.
    pub retries: Vec<(u8, Vec<u8>, u8)>,
    pub retry_at: usize,
    /// The frames that were read in this pass, and how many were dealt with.
    pub frames: Vec<Frame>,
    pub frame_at: usize,
    /// The sequence that the frame at hand wants acknowledged.
    pub frame_ack: Option<u8>,
    /// Why the session ends, if it fails.
    pub failure: Option<Error>,
}

/// What is missing while the startup is not complete.
pub open spec fn startup_missing(sync_acknowledged: bool, snapshot_received: bool) -> Seq<char> {
    if sync_acknowledged {
        "sensor snapshot"@
    } else if snapshot_received {
        "sync acknowledgement"@
    } else {
        "sync acknowledgement and sensor snapshot"@
    }
}

/// What is said of a startup that took too long.
pub open spec fn startup_timeout(sync_acknowledged: bool, snapshot_received: bool) -> Seq<char> {
    "MCU startup timed out waiting for "@ + startup_missing(sync_acknowledged, snapshot_received)
}

/// What is told of a startup that took too long names what is missing, and only that.
pub proof fn timeout_names_what_is_missing()
    ensures
        startup_timeout(false, false) == "MCU startup timed out waiting for "@
            + "sync acknowledgement and sensor snapshot"@,
        startup_timeout(false, true) == "MCU startup timed out waiting for "@
            + "sync acknowledgement"@,
        startup_timeout(true, false) == "MCU startup timed out waiting for "@ + "sensor snapshot"@,
{
}

/// A frame that counts: no text log, and not damaged.
pub open spec fn sound(f: FrameView) -> bool {
    !f.is_log && f.crc_valid && f.raw.len() == f.payload.len() + 3 + f.escape_overhead
}

/// The footer of a frame.
pub open spec fn footer_of_frame(f: FrameView) -> Option<ReportFooter> {
    match f.report_data(REPORT_FOOTER_MESSAGE, REPORT_FOOTER_LENGTH) {
        Some(d) => Some(reports::footer_of(d)),
        None => None,
    }
}

/// The sequence that a frame wants acknowledged.
pub open spec fn wanted_ack(f: FrameView) -> Option<u8> {
    match footer_of_frame(f) {
        Some(footer) => if footer.reports_pending {
            Some(footer.sequence)
        } else {
            None
        },
        None => None,
    }
}

/// The sequence that a frame acknowledges.
pub open spec fn given_ack(f: FrameView) -> Option<u8> {
    if f.message == ACK_REPORT && f.command == ACK_LENGTH && f.payload.len() >= 3 {
        Some(f.payload[2])
    } else {
        None
    }
}

/// A frame as a request for an acknowledgement.
pub open spec fn request_of(f: FrameView, frame_index: u32) -> acks::AckRequestView {
    acks::AckRequestView {
        frame_index,
        sequence: wanted_ack(f)->0,
        payload: f.payload,
    }
}

/// The commands that wait, after the acknowledgement of one of them.
pub open spec fn acknowledged(
    waiting: Map<u8, acks::CommandAckView>,
    sequence: u8,
) -> Map<u8, acks::CommandAckView> {
    if waiting.contains_key(sequence) {
        waiting.insert(
            sequence,
            acks::CommandAckView { acknowledged: true, ..waiting[sequence] },
        )
    } else {
        waiting
    }
}

/// The frame was seen before.
pub open spec fn seen_before(s: Session, f: FrameView) -> bool {
    wanted_ack(f) is Some && acks::duplicate(
        s.recent@,
        request_of(f, next_index(s.binary_frame_index)),
    )
}

/// The index of the next frame.
pub open spec fn next_index(index: u32) -> u32 {
    if index == u32::MAX {
        0
    } else {
        (index + 1) as u32
    }
}

/// The shared state is as it was, but for the targets and the drive lease.
pub open spec fn only_safety(
    w: World,
    w2: World,
    targets: ActuatorTargets,
    lease: Option<u64>,
) -> bool {
    &&& w2 == (World { safety: w2.safety, ..w })
    &&& w2.safety.targets == targets
    &&& w2.safety.drive_lease_deadline == lease
}

/// The shared state is as it was, but for the commands that wait.
pub open spec fn only_acks(w: World, w2: World, waiting: Map<u8, acks::CommandAckView>) -> bool {
    &&& w2 == (World { acks: w2.acks, ..w })
    &&& w2.acks@ == waiting
}

/// The session ends because of `error`.
pub open spec fn fails_with(
    s: Session,
    w: World,
    error: ErrorView,
    s2: Session,
    w2: World,
    action: Action,
) -> bool {
    &&& action is Continue
    &&& s2 == (Session { phase: Phase::FinalStop, failure: s2.failure, ..s })
    &&& s2.failure matches Some(e) && e@ == error
    &&& w2 == w
}

/// Only the phase changes, and there is nothing to do.
pub open spec fn moves_on(
    s: Session,
    w: World,
    phase: Phase,
    s2: Session,
    w2: World,
    action: Action,
) -> bool {
    action is Continue && s2 == (Session { phase, ..s }) && w2 == w
}

/// Only the phase changes after a frame was written; if it was not, the session
/// fails.
pub open spec fn moves_on_if_written(
    s: Session,
    w: World,
    event: Event,
    phase: Phase,
    s2: Session,
    w2: World,
    action: Action,
) -> bool {
    match event {
        Event::WriteFailed(e) => fails_with(s, w, e@, s2, w2, action),
        _ => moves_on(s, w, phase, s2, w2, action),
    }
}

/// A pass starts: the question is whether the driver is shutting down.
pub open spec fn starts_pass(s: Session, s2: Session, action: Action) -> bool {
    action is AskShutdown && s2 == (Session { phase: Phase::Top, ..s })
}

pub open spec fn start_step(s: Session, w: World, s2: Session, w2: World, action: Action) -> bool {
    &&& action matches Action::Write(frame) && commands::command_encodes(
        s.guard.next_sequence,
        commands::HEARTBEAT,
        false,
        seq![0u8, 0, 0, 0],
        Ok::<Vec<u8>, String>(frame),
    )
    &&& s2 == (Session { phase: Phase::StartHeartbeat, guard: s.guard.advanced(), ..s })
    &&& w2 == w
}

pub open spec fn start_heartbeat_step(
    s: Session,
    w: World,
    event: Event,
    clock: u64,
    s2: Session,
    w2: World,
    action: Action,
) -> bool {
    match event {
        Event::WriteFailed(e) => fails_with(s, w, e@, s2, w2, action),
        _ => {
            &&& action matches Action::Write(frame) && commands::command_encodes(
                s.guard.next_sequence,
                commands::SYNC_SENSOR_STATUS,
                true,
                Seq::empty(),
                Ok::<Vec<u8>, String>(frame),
            ) && s2.sync_frame@ == frame@
            &&& s2 == (Session {
                phase: Phase::StartSync,
                guard: s.guard.advanced(),
                next_heartbeat: (clock + HEARTBEAT_INTERVAL) as u64,
                sync_sequence: s.guard.next_sequence,
                sync_frame: s2.sync_frame,
                ..s
            })
            &&& w2 == w
        },
    }
}

pub open spec fn start_sync_step(
    s: Session,
    w: World,
    event: Event,
    clock: u64,
    s2: Session,
    w2: World,
    action: Action,
) -> bool {
    match event {
        Event::WriteFailed(e) => fails_with(s, w, e@, s2, w2, action),
        _ => {
            &&& action is AskShutdown
            &&& s2 == (Session {
                phase: Phase::Top,
                sync_retry: AckRetryWindow {
                    attempts: 1,
                    next_retry: (clock + acks::ACK_TIMEOUT) as u64,
                },
                ..s
            })
            &&& w2 == w
        },
    }
}

pub open spec fn top_step(
    s: Session,
    w: World,
    event: Event,
    clock: u64,
    s2: Session,
    w2: World,
    action: Action,
) -> bool {
    &&& w2 == w
    &&& match event {
        Event::Shutdown(true) => if s.startup_pending {
            &&& action matches Action::Notify(Err(e)) && e@ == ErrorView::Other(
                "MCU shutdown during startup"@,
            )
            &&& s2 == (Session { phase: Phase::Ending, startup_pending: false, ..s })
        } else {
            action is Continue && s2 == (Session { phase: Phase::FinalStop, ..s })
        },
        _ => action is AskCommand && s2 == (Session { phase: Phase::Commands, now: clock, ..s }),
    }
}

pub open spec fn commands_step(
    s: Session,
    w: World,
    event: Event,
    s2: Session,
    w2: World,
    action: Action,
) -> bool {
    &&& action is Continue
    &&& match event {
        Event::Command(Some(command)) => if command is EmergencyStop {
            &&& w2 == w
            &&& s2 == (Session {
                phase: Phase::StopNext,
                guard: s.guard.advanced_by_stop(),
                stop: s2.stop,
                ..s
            })
            &&& s2.stop matches Some(run) && run.first_sequence() == s.guard.next_sequence
                && run.outcomes() == Seq::<Option<Seq<char>>>::empty()
        } else {
            &&& w2 == w
            &&& s2 == (Session { phase: Phase::RunNext, run: s2.run, ..s })
            &&& s2.run.command == command
            &&& s2.run.sends@ == guard::plan(command, s.guard.wheel_subsystem_enabled)
            &&& s2.run.at == 0
            &&& s2.run.acknowledgements@ == Seq::<u8>::empty()
        },
        _ => {
            &&& only_acks(w, w2, acks::after_retries(w.acks@, s.now))
            &&& s2 == (Session {
                phase: Phase::RetryNext,
                retries: s2.retries,
                retry_at: 0,
                ..s
            })
            &&& s2.retries@.map_values(
                |r: (u8, Vec<u8>, u8)|
                    acks::RetryView { sequence: r.0, frame: r.1@, attempt: r.2 },
            ) == acks::due_below(w.acks@, s.now, 256)
        },
    }
}

pub open spec fn run_next_step(
    s: Session,
    w: World,
    clock: u64,
    s2: Session,
    w2: World,
    action: Action,
) -> bool {
    if s.run.at == s.run.sends@.len() {
        &&& action matches Action::Reply(Ok(sequences)) && sequences@ == s.run.acknowledgements@
        &&& s2 == (Session { phase: Phase::Replied, ..s })
        &&& only_safety(
            w,
            w2,
            guard::targets_after(s.run.command, w.safety.targets),
            guard::lease_after(s.run.command, w.safety.drive_lease_deadline, clock),
        )
    } else {
        let send = s.run.sends@[s.run.at as int];
        let sequence = s.guard.next_sequence;
        if send.encodable() {
            &&& action matches Action::Write(frame) && send.encodes(
                sequence,
                Ok::<Vec<u8>, String>(frame),
            ) && only_acks(w, w2, guard::expecting(w.acks@, send, sequence, frame@, clock))
            &&& s2 == (Session {
                phase: Phase::RunWriting,
                guard: s.guard.advanced(),
                run: CommandRun { sequence, ..s.run },
                ..s
            })
        } else {
            &&& action matches Action::Reply(Err(e)) && e@ == ErrorView::Other(send.refusal())
            &&& s2 == (Session {
                phase: Phase::ReplyFailed,
                guard: s.guard.advanced(),
                run: CommandRun { sequence, ..s.run },
                ..s
            })
            &&& w2 == w
        }
    }
}

pub open spec fn run_writing_step(
    s: Session,
    w: World,
    event: Event,
    s2: Session,
    w2: World,
    action: Action,
) -> bool {
    let send = s.run.sends@[s.run.at as int];
    match event {
        Event::WriteFailed(e) => {
            &&& action matches Action::Reply(Err(said)) && said@ == e@
            &&& s2 == (Session { phase: Phase::ReplyFailed, ..s })
            &&& only_acks(
                w,
                w2,
                if send.wants_ack() {
                    w.acks@.remove(s.run.sequence)
                } else {
                    w.acks@
                },
            )
        },
        _ => {
            &&& action is Continue
            &&& w2 == w
            &&& s2 == (Session {
                phase: Phase::RunNext,
                guard: s.guard.noting(send),
                run: s2.run,
                ..s
            })
            &&& s2.run.command == s.run.command
            &&& s2.run.sends == s.run.sends
            &&& s2.run.at == s.run.at + 1
            &&& s2.run.acknowledgements@ == (if send.wants_ack() {
                s.run.acknowledgements@.push(s.run.sequence)
            } else {
                s.run.acknowledgements@
            })
        },
    }
}

/// The next frame of a stop set is written.
pub open spec fn writes_stop_frame(
    s: Session,
    w: World,
    phase: Phase,
    s2: Session,
    w2: World,
    action: Action,
) -> bool {
    let run = s.stop->0;
    &&& action matches Action::Write(frame) && guard::stop_encodes(
        run.outcomes().len() as int,
        commands::sequence_later(run.first_sequence(), run.outcomes().len()),
        Ok::<Vec<u8>, String>(frame),
    )
    &&& s2 == (Session { phase, ..s })
    &&& w2 == w
}

/// A frame of a stop set was attempted; the next one follows in any case.
pub open spec fn notes_stop_frame(
    s: Session,
    w: World,
    event: Event,
    phase: Phase,
    s2: Session,
    w2: World,
    action: Action,
) -> bool {
    &&& action is Continue
    &&& w2 == w
    &&& s2 == (Session { phase, stop: s2.stop, ..s })
    &&& s2.stop matches Some(run) && run.first_sequence() == s.stop->0.first_sequence()
        && run.outcomes() == s.stop->0.outcomes().push(
        match event {
            Event::WriteFailed(e) => Some(e@.text()),
            _ => None,
        },
    )
}

/// All frames of a stop set were attempted: everything is at rest.
pub open spec fn ends_stop(w: World, w2: World) -> bool {
    only_safety(w, w2, ActuatorTargets::at_rest(), None)
}

pub open spec fn stop_next_step(
    s: Session,
    w: World,
    s2: Session,
    w2: World,
    action: Action,
) -> bool {
    let outcomes = s.stop->0.outcomes();
    if outcomes.len() < 5 {
        writes_stop_frame(s, w, Phase::StopWriting, s2, w2, action)
    } else {
        &&& ends_stop(w, w2)
        &&& if guard::no_failures(outcomes) {
            &&& action matches Action::Reply(Ok(sequences)) && sequences@.len() == 0
            &&& s2 == (Session { phase: Phase::Replied, stop: None, ..s })
        } else {
            &&& action matches Action::Reply(Err(e)) && e@ == ErrorView::Other(
                guard::stop_failures(outcomes),
            )
            &&& s2 == (Session { phase: Phase::ReplyFailed, stop: None, ..s })
        }
    }
}

pub open spec fn retry_next_step(
    s: Session,
    w: World,
    s2: Session,
    w2: World,
    action: Action,
) -> bool {
    if s.retry_at < s.retries@.len() {
        &&& action matches Action::Write(frame) && frame@ == s.retries@[s.retry_at as int].1@
        &&& s2 == (Session { phase: Phase::RetryWriting, ..s })
        &&& w2 == w
    } else {
        moves_on(s, w, Phase::Lease, s2, w2, action)
    }
}

pub open spec fn retry_writing_step(
    s: Session,
    w: World,
    event: Event,
    s2: Session,
    w2: World,
    action: Action,
) -> bool {
    match event {
        Event::WriteFailed(e) => fails_with(s, w, e@, s2, w2, action),
        _ => {
            &&& action is Continue
            &&& s2 == (Session {
                phase: Phase::RetryNext,
                retry_at: (s.retry_at + 1) as usize,
                ..s
            })
            &&& w2 == w
        },
    }
}

pub open spec fn lease_step(s: Session, w: World, s2: Session, w2: World, action: Action) -> bool {
    if safety::lapsed(w.safety.drive_lease_deadline, s.now) {
        &&& action matches Action::Write(frame) && commands::wheel_command_encodes(
            s.guard.next_sequence,
            0,
            0,
            true,
            Ok::<Vec<u8>, String>(frame),
        )
        &&& s2 == (Session { phase: Phase::LeaseWriting, guard: s.guard.advanced(), ..s })
        &&& only_safety(
            w,
            w2,
            ActuatorTargets { linear: 0, angular: 0, ..w.safety.targets },
            None,
        )
    } else {
        moves_on(s, w, Phase::Freshness, s2, w2, action)
    }
}

/// The safety reports are overdue.
pub open spec fn overdue(deadline: Option<u64>, now: u64) -> bool {
    deadline matches Some(d) && now >= d
}

pub open spec fn freshness_step(
    s: Session,
    w: World,
    s2: Session,
    w2: World,
    action: Action,
) -> bool {
    if overdue(s.safety_report_deadline, s.now) {
        fails_with(
            s,
            w,
            ErrorView::Other("S5 Max safety reports stale for more than 500ms"@),
            s2,
            w2,
            action,
        )
    } else {
        moves_on(s, w, Phase::Heartbeat, s2, w2, action)
    }
}

pub open spec fn heartbeat_step(
    s: Session,
    w: World,
    s2: Session,
    w2: World,
    action: Action,
) -> bool {
    if s.now >= s.next_heartbeat {
        &&& action matches Action::Write(frame) && commands::command_encodes(
            s.guard.next_sequence,
            commands::HEARTBEAT,
            false,
            seq![0u8, 0, 0, 0],
            Ok::<Vec<u8>, String>(frame),
        )
        &&& s2 == (Session { phase: Phase::HeartbeatWriting, guard: s.guard.advanced(), ..s })
        &&& w2 == w
    } else {
        moves_on(s, w, Phase::SyncRetry, s2, w2, action)
    }
}

pub open spec fn heartbeat_writing_step(
    s: Session,
    w: World,
    event: Event,
    s2: Session,
    w2: World,
    action: Action,
) -> bool {
    match event {
        Event::WriteFailed(e) => fails_with(s, w, e@, s2, w2, action),
        _ => {
            &&& action is Continue
            &&& s2 == (Session {
                phase: Phase::SyncRetry,
                next_heartbeat: (s.now + HEARTBEAT_INTERVAL) as u64,
                ..s
            })
            &&& w2 == w
        },
    }
}

pub open spec fn sync_retry_step(
    s: Session,
    w: World,
    s2: Session,
    w2: World,
    action: Action,
) -> bool {
    if !s.sync_acknowledged && s.sync_retry.retry_due(s.now) {
        &&& action matches Action::Write(frame) && frame@ == s.sync_frame@
        &&& s2 == (Session {
            phase: Phase::SyncWriting,
            sync_retry: AckRetryWindow {
                attempts: (s.sync_retry.attempts + 1) as u8,
                next_retry: (s.now + acks::ACK_TIMEOUT) as u64,
            },
            ..s
        })
        &&& w2 == w
    } else {
        moves_on(s, w, Phase::Exhausted, s2, w2, action)
    }
}

pub open spec fn exhausted_step(
    s: Session,
    w: World,
    s2: Session,
    w2: World,
    action: Action,
) -> bool {
    if s.startup_pending && !s.sync_acknowledged && s.sync_retry.attempts == MAX_SYNC_ATTEMPTS
        && s.now >= s.sync_retry.next_retry {
        &&& action matches Action::Notify(Err(e)) && e@ == ErrorView::Other(
            "MCU did not acknowledge sensor sync after "@ + text::decimal(
                s.sync_retry.attempts as nat,
            ) + " attempts"@,
        )
        &&& s2 == (Session {
            phase: Phase::Failing,
            startup_pending: false,
            failure: s2.failure,
            ..s
        })
        &&& s2.failure matches Some(f) && f@ == ErrorView::Other(
            "MCU sensor-sync acknowledgement exhausted"@,
        )
        &&& w2 == w
    } else {
        moves_on(s, w, Phase::Deadline, s2, w2, action)
    }
}

pub open spec fn deadline_step(
    s: Session,
    w: World,
    s2: Session,
    w2: World,
    action: Action,
) -> bool {
    &&& w2 == w
    &&& if s.startup_pending && s.now >= s.startup_deadline {
        let said = startup_timeout(s.sync_acknowledged, s.snapshot_received);
        &&& action matches Action::Notify(Err(e)) && e@ == ErrorView::Other(said)
        &&& s2 == (Session {
            phase: Phase::Failing,
            startup_pending: false,
            failure: s2.failure,
            ..s
        })
        &&& s2.failure matches Some(f) && f@ == ErrorView::Other(said)
    } else {
        action is Poll && s2 == (Session { phase: Phase::Polling, ..s })
    }
}

pub open spec fn polling_step(
    s: Session,
    w: World,
    event: Event,
    s2: Session,
    w2: World,
    action: Action,
) -> bool {
    match event {
        Event::Polled(Err(e)) => fails_with(s, w, e@, s2, w2, action),
        Event::Polled(Ok(true)) => action is Read && s2 == (Session { phase: Phase::Reading, ..s })
            && w2 == w,
        _ => starts_pass(s, s2, action) && w2 == w,
    }
}

pub open spec fn reading_step(
    s: Session,
    w: World,
    event: Event,
    s2: Session,
    w2: World,
    action: Action,
) -> bool {
    match event {
        Event::Received(Ok(bytes)) => {
            let found = decoder::decoded(s.decoder.pending() + bytes@);
            &&& action is Continue
            &&& s2 == (Session {
                phase: Phase::FrameNext,
                decoder: s2.decoder,
                frames: s2.frames,
                frame_at: 0,
                ..s
            })
            &&& packet::frame_views(s2.frames@) == found.0
            &&& s2.decoder.pending() == found.1
            &&& w2 == w
        },
        Event::Received(Err(e)) => fails_with(s, w, e@, s2, w2, action),
        _ => true,
    }
}

/// A sound frame is dealt with. Its acknowledgement of a command counts in any case;
/// what it reports counts only where it is no duplicate.
pub open spec fn accepts_frame(
    s: Session,
    w: World,
    f: FrameView,
    clock: u64,
    s2: Session,
    w2: World,
    action: Action,
) -> bool {
    let seen = seen_before(s, f);
    &&& s2 == (Session {
        phase: Phase::FrameAck,
        binary_frame_index: next_index(s.binary_frame_index),
        recent: s2.recent,
        sync_acknowledged: s.sync_acknowledged || given_ack(f) == Some(s.sync_sequence),
        snapshot_received: s.snapshot_received || (holds_snapshot(f) && !seen),
        safety_report_deadline: if f.is_state() && !seen {
            Some((s.now + SAFETY_REPORT_TIMEOUT) as u64)
        } else {
            s.safety_report_deadline
        },
        frame_ack: wanted_ack(f),
        ..s
    })
    &&& s2.recent@ == (if wanted_ack(f) is Some {
        acks::after_request(s.recent@, request_of(f, next_index(s.binary_frame_index)))
    } else {
        s.recent@
    })
    &&& w2.acks@ == (match given_ack(f) {
        Some(sequence) => acknowledged(w.acks@, sequence),
        None => w.acks@,
    })
    &&& w2.safety == w.safety
    &&& w2.lifecycle == (if f.is_state() && !seen {
        Lifecycle { last_safety_report: Some(s.now), ..w.lifecycle }
    } else {
        w.lifecycle
    })
    &&& if seen {
        w2.sensors == w.sensors && action is Continue
    } else {
        &&& w2.sensors.after_frame(w.sensors, f, clock)
        &&& if sensors::reports_state(f) {
            &&& action matches Action::Stream(group) && group.name@ == w.sensors.sensor_status.name@
                && group.values@ == sensors::with_state(w.sensors.sensor_status.values@, f.payload)
                && group.last_update == Some(clock)
        } else {
            action is Continue
        }
    }
}

pub open spec fn frame_next_step(
    s: Session,
    w: World,
    clock: u64,
    s2: Session,
    w2: World,
    action: Action,
) -> bool {
    if s.frame_at == s.frames@.len() {
        starts_pass(s, s2, action) && w2 == w
    } else {
        let f = s.frames@[s.frame_at as int]@;
        if sound(f) {
            accepts_frame(s, w, f, clock, s2, w2, action)
        } else {
            &&& action is Continue
            &&& s2 == (Session { frame_at: (s.frame_at + 1) as usize, ..s })
            &&& w2 == w
        }
    }
}

pub open spec fn frame_ack_step(
    s: Session,
    w: World,
    s2: Session,
    w2: World,
    action: Action,
) -> bool {
    match s.frame_ack {
        Some(received) => {
            &&& action matches Action::Write(frame) && commands::command_encodes(
                s.guard.next_sequence,
                commands::ACK_REPORT,
                false,
                seq![received],
                Ok::<Vec<u8>, String>(frame),
            )
            &&& s2 == (Session { phase: Phase::FrameAckWriting, guard: s.guard.advanced(), ..s })
            &&& w2 == w
        },
        None => moves_on(s, w, Phase::FrameStartup, s2, w2, action),
    }
}

pub open spec fn frame_startup_step(
    s: Session,
    w: World,
    s2: Session,
    w2: World,
    action: Action,
) -> bool {
    &&& w2 == w
    &&& if s.startup_pending && s.sync_acknowledged && s.snapshot_received {
        &&& action == Action::Notify(Ok(()))
        &&& s2 == (Session {
            phase: Phase::FrameNext,
            frame_at: (s.frame_at + 1) as usize,
            startup_pending: false,
            safety_report_deadline: Some((s.now + SAFETY_REPORT_TIMEOUT) as u64),
            ..s
        })
    } else {
        &&& action is Continue
        &&& s2 == (Session {
            phase: Phase::FrameNext,
            frame_at: (s.frame_at + 1) as usize,
            ..s
        })
    }
}

/// A stop set starts, with the next five sequences.
pub open spec fn begins_stop(
    s: Session,
    w: World,
    phase: Phase,
    s2: Session,
    w2: World,
    action: Action,
) -> bool {
    &&& action is Continue
    &&& w2 == w
    &&& s2 == (Session { phase, guard: s.guard.advanced_by_stop(), stop: s2.stop, ..s })
    &&& s2.stop matches Some(run) && run.first_sequence() == s.guard.next_sequence
        && run.outcomes() == Seq::<Option<Seq<char>>>::empty()
}

/// Why a session ends whose stop set failed with `stop`.
pub open spec fn combined_failure(failure: Option<Error>, stop: Seq<char>) -> ErrorView {
    match failure {
        Some(session) => ErrorView::Other(
            session@.text() + "; ordered safety stop also failed: "@ + stop,
        ),
        None => ErrorView::Other(stop),
    }
}

pub open spec fn final_stop_next_step(
    s: Session,
    w: World,
    s2: Session,
    w2: World,
    action: Action,
) -> bool {
    let outcomes = s.stop->0.outcomes();
    if outcomes.len() < 5 {
        writes_stop_frame(s, w, Phase::FinalStopWriting, s2, w2, action)
    } else if guard::no_failures(outcomes) {
        &&& ends_stop(w, w2)
        &&& s2 == (Session { phase: Phase::Closed, stop: None, failure: None, ..s })
        &&& match s.failure {
            Some(e) => action == Action::Finish(Err(e)),
            None => action == Action::Finish(Ok(())),
        }
    } else {
        &&& action is Continue
        &&& ends_stop(w, w2)
        &&& s2 == (Session {
            phase: Phase::RetryStopNext,
            guard: s.guard.advanced_by_stop(),
            stop: s2.stop,
            failure: s2.failure,
            ..s
        })
        &&& s2.stop matches Some(run) && run.first_sequence() == s.guard.next_sequence
            && run.outcomes() == Seq::<Option<Seq<char>>>::empty()
        &&& s2.failure matches Some(e) && e@ == combined_failure(
            s.failure,
            guard::stop_failures(outcomes),
        )
    }
}

pub open spec fn retry_stop_next_step(
    s: Session,
    w: World,
    s2: Session,
    w2: World,
    action: Action,
) -> bool {
    if s.stop->0.outcomes().len() < 5 {
        writes_stop_frame(s, w, Phase::RetryStopWriting, s2, w2, action)
    } else {
        &&& ends_stop(w, w2)
        &&& s2 == (Session { phase: Phase::Closed, stop: None, failure: None, ..s })
        &&& match s.failure {
            Some(e) => action == Action::Finish(Err(e)),
            None => action == Action::Finish(Ok(())),
        }
    }
}

/// What one step does.
pub open spec fn transition(
    s: Session,
    w: World,
    event: Event,
    clock: u64,
    s2: Session,
    w2: World,
    action: Action,
) -> bool {
    match s.phase {
        Phase::Start => start_step(s, w, s2, w2, action),
        Phase::StartHeartbeat => start_heartbeat_step(s, w, event, clock, s2, w2, action),
        Phase::StartSync => start_sync_step(s, w, event, clock, s2, w2, action),
        Phase::Top => top_step(s, w, event, clock, s2, w2, action),
        Phase::Ending => moves_on(s, w, Phase::FinalStop, s2, w2, action),
        Phase::Commands => commands_step(s, w, event, s2, w2, action),
        Phase::RunNext => run_next_step(s, w, clock, s2, w2, action),
        Phase::RunWriting => run_writing_step(s, w, event, s2, w2, action),
        Phase::StopNext => stop_next_step(s, w, s2, w2, action),
        Phase::StopWriting => notes_stop_frame(s, w, event, Phase::StopNext, s2, w2, action),
        Phase::Replied => action is AskCommand && s2 == (Session { phase: Phase::Commands, ..s })
            && w2 == w,
        Phase::ReplyFailed => fails_with(
            s,
            w,
            ErrorView::Other("S5 Max actuator command failed"@),
            s2,
            w2,
            action,
        ),
        Phase::RetryNext => retry_next_step(s, w, s2, w2, action),
        Phase::RetryWriting => retry_writing_step(s, w, event, s2, w2, action),
        Phase::Lease => lease_step(s, w, s2, w2, action),
        Phase::LeaseWriting => moves_on_if_written(
            s,
            w,
            event,
            Phase::Freshness,
            s2,
            w2,
            action,
        ),
        Phase::Freshness => freshness_step(s, w, s2, w2, action),
        Phase::Heartbeat => heartbeat_step(s, w, s2, w2, action),
        Phase::HeartbeatWriting => heartbeat_writing_step(s, w, event, s2, w2, action),
        Phase::SyncRetry => sync_retry_step(s, w, s2, w2, action),
        Phase::SyncWriting => moves_on_if_written(
            s,
            w,
            event,
            Phase::Exhausted,
            s2,
            w2,
            action,
        ),
        Phase::Exhausted => exhausted_step(s, w, s2, w2, action),
        Phase::Deadline => deadline_step(s, w, s2, w2, action),
        Phase::Failing => moves_on(s, w, Phase::FinalStop, s2, w2, action),
        Phase::Polling => polling_step(s, w, event, s2, w2, action),
        Phase::Reading => reading_step(s, w, event, s2, w2, action),
        Phase::FrameNext => frame_next_step(s, w, clock, s2, w2, action),
        Phase::FrameAck => frame_ack_step(s, w, s2, w2, action),
        Phase::FrameAckWriting => moves_on_if_written(
            s,
            w,
            event,
            Phase::FrameStartup,
            s2,
            w2,
            action,
        ),
        Phase::FrameStartup => frame_startup_step(s, w, s2, w2, action),
        Phase::FinalStop => begins_stop(s, w, Phase::FinalStopNext, s2, w2, action),
        Phase::FinalStopNext => final_stop_next_step(s, w, s2, w2, action),
        Phase::FinalStopWriting => notes_stop_frame(
            s,
            w,
            event,
            Phase::FinalStopNext,
            s2,
            w2,
            action,
        ),
        Phase::RetryStopNext => retry_stop_next_step(s, w, s2, w2, action),
        Phase::RetryStopWriting => notes_stop_frame(
            s,
            w,
            event,
            Phase::RetryStopNext,
            s2,
            w2,
            action,
        ),
        Phase::Closed => false,
    }
}

/// The event answers what was asked in this phase.
pub open spec fn answers(phase: Phase, event: Event) -> bool {
    match phase {
        Phase::StartHeartbeat
        | Phase::StartSync
        | Phase::RunWriting
        | Phase::StopWriting
        | Phase::RetryWriting
        | Phase::LeaseWriting
        | Phase::HeartbeatWriting
        | Phase::SyncWriting
        | Phase::FrameAckWriting
        | Phase::FinalStopWriting
        | Phase::RetryStopWriting => event is Written || event is WriteFailed,
        Phase::Top => event is Shutdown,
        Phase::Commands => event is Command,
        Phase::Polling => event is Polled,
        Phase::Reading => event is Received,
        Phase::Closed => false,
        _ => event is Proceed,
    }
}

/// A frame of a stop set is being written.
pub open spec fn writes_stop(phase: Phase) -> bool {
    phase == Phase::StopWriting || phase == Phase::FinalStopWriting || phase
        == Phase::RetryStopWriting
}

/// A stop set is on its way.
pub open spec fn stopping(phase: Phase) -> bool {
    writes_stop(phase) || phase == Phase::StopNext || phase == Phase::FinalStopNext || phase
        == Phase::RetryStopNext
}

/// A frame is being dealt with.
pub open spec fn in_frame(phase: Phase) -> bool {
    phase == Phase::FrameAck || phase == Phase::FrameAckWriting || phase == Phase::FrameStartup
}

/// The stop set after the session, or the end, was reached.
pub open spec fn over(phase: Phase) -> bool {
    ||| phase == Phase::FinalStop
    ||| phase == Phase::FinalStopNext
    ||| phase == Phase::FinalStopWriting
    ||| phase == Phase::RetryStopNext
    ||| phase == Phase::RetryStopWriting
    ||| phase == Phase::Closed
}

impl Session {
    pub open spec fn wf(&self) -> bool {
        &&& self.guard.wf()
        &&& self.now <= CLOCK_MAX
        &&& self.sync_retry.wf()
        &&& self.run.wf()
        &&& self.phase == Phase::RunWriting ==> self.run.at < self.run.sends@.len()
        &&& stopping(self.phase) ==> (self.stop matches Some(run) && run.wf() && (writes_stop(
            self.phase,
        ) ==> run.outcomes().len() < 5))
        &&& self.retry_at <= self.retries@.len()
        &&& self.phase == Phase::RetryWriting ==> self.retry_at < self.retries@.len()
        &&& self.frame_at <= self.frames@.len()
        &&& in_frame(self.phase) ==> self.frame_at < self.frames@.len()
        &&& self.startup_pending && self.sync_acknowledged && self.snapshot_received ==> in_frame(
            self.phase,
        ) || over(self.phase)
    }

    /// A session that takes over after the stock sequence `last_stock_sequence`.
    pub fn new(last_stock_sequence: u8, clock: u64) -> (session: Self)
        requires
            clock <= CLOCK_MAX,
        ensures
            session.wf(),
            session.phase == Phase::Start,
            session.guard.next_sequence == commands::sequence_after(last_stock_sequence),
            !session.guard.wheel_subsystem_enabled,
            session.now == clock,
            session.startup_pending,
            session.startup_deadline == clock + WORKER_STARTUP_TIMEOUT,
            session.startup_deadline == clock + 1_500_000_000,
            session.guard.next_sequence == (if last_stock_sequence == 255 {
                1int
            } else {
                last_stock_sequence + 1
            }),
            !session.sync_acknowledged,
            !session.snapshot_received,
            session.safety_report_deadline is None,
            session.decoder.pending() == Seq::<u8>::empty(),
            session.recent@ == Seq::<acks::AckRequestView>::empty(),
            session.binary_frame_index == 0,
            session.failure is None,
    {
        let first_sequence = next_tx_sequence(last_stock_sequence);
        Session {
            phase: Phase::Start,
            guard: McuSafetyGuard::new(first_sequence),
            now: clock,
            startup_pending: true,
            startup_deadline: clock + WORKER_STARTUP_TIMEOUT,
            next_heartbeat: clock,
            sync_sequence: 0,
            sync_frame: Vec::new(),
            sync_retry: AckRetryWindow::after_initial_send(clock),
            sync_acknowledged: false,
            snapshot_received: false,
            safety_report_deadline: None,
            decoder: FrameDecoder::new(),
            recent: RecentAckRequests::new(),
            binary_frame_index: 0,
            run: CommandRun::new(ActuatorCommand::EmergencyStop, false),
            stop: None,
            retries: Vec::new(),
            retry_at: 0,
            frames: Vec::new(),
            frame_at: 0,
            frame_ack: None,
            failure: None,
        }
    }

    /// Ends the session because of `error`.
    fn fail(&mut self, error: Error) -> (action: Action)
        ensures
            action is Continue,
            *final(self) == (Session {
                phase: Phase::FinalStop,
                failure: Some(error),
                ..*old(self)
            }),
    {
        self.failure = Some(error);
        self.phase = Phase::FinalStop;
        Action::Continue
    }

    fn go(&mut self, phase: Phase) -> (action: Action)
        ensures
            action is Continue,
            *final(self) == (Session { phase, ..*old(self) }),
    {
        self.phase = phase;
        Action::Continue
    }

    /// The heartbeat, with the next sequence.
    fn heartbeat(&mut self) -> (frame: Vec<u8>)
        requires
            old(self).guard.wf(),
        ensures
            *final(self) == (Session { guard: old(self).guard.advanced(), ..*old(self) }),
            final(self).guard.wf(),
            commands::command_encodes(
                old(self).guard.next_sequence,
                commands::HEARTBEAT,
                false,
                seq![0u8, 0, 0, 0],
                Ok::<Vec<u8>, String>(frame),
            ),
    {
        let sequence = self.guard.take_sequence();
        match heartbeat_frame(sequence) {
            Ok(frame) => frame,
            Err(_) => Vec::new(),
        }
    }

    fn on_start_heartbeat(&mut self, event: Event, clock: u64) -> (action: Action)
        requires
            old(self).wf(),
            clock <= CLOCK_MAX,
            old(self).phase == Phase::StartHeartbeat,
        ensures
            final(self).wf(),
            forall|w: World| #[trigger]
                start_heartbeat_step(*old(self), w, event, clock, *final(self), w, action),
    {
        if let Event::WriteFailed(error) = event {
            return self.fail(error);
        }
        self.next_heartbeat = clock + HEARTBEAT_INTERVAL;
        let sequence = self.guard.take_sequence();
        self.sync_sequence = sequence;
        let frame: Vec<u8> = match sensor_sync_query_frame(sequence) {
            Ok(frame) => frame,
            Err(_) => Vec::new(),
        };
        let copy = copy_range(frame.as_slice(), 0, frame.len());
        assert(copy@ =~= frame@);
        self.sync_frame = copy;
        self.phase = Phase::StartSync;
        Action::Write(frame)
    }

    fn on_top(&mut self, event: Event, clock: u64) -> (action: Action)
        requires
            old(self).wf(),
            clock <= CLOCK_MAX,
            old(self).phase == Phase::Top,
            event is Shutdown,
        ensures
            final(self).wf(),
            forall|w: World| #[trigger]
                top_step(*old(self), w, event, clock, *final(self), w, action),
    {
        match event {
            Event::Shutdown(true) => {
                let notice = notify_startup(
                    &mut self.startup_pending,
                    Err(Error::Other("MCU shutdown during startup".to_string())),
                );
                match notice {
                    Some(result) => {
                        self.phase = Phase::Ending;
                        Action::Notify(result)
                    },
                    None => self.go(Phase::FinalStop),
                }
            },
            _ => {
                self.now = clock;
                self.phase = Phase::Commands;
                Action::AskCommand
            },
        }
    }

    fn on_commands(&mut self, world: &mut World, event: Event) -> (action: Action)
        requires
            old(self).wf(),
            old(world).wf(),
            old(self).phase == Phase::Commands,
        ensures
            final(self).wf(),
            final(world).wf(),
            commands_step(*old(self), *old(world), event, *final(self), *final(world), action),
    {
        match event {
            Event::Command(Some(command)) => {
                if let ActuatorCommand::EmergencyStop = command {
                    let run = StopRun::begin(&mut self.guard);
                    self.stop = Some(run);
                    self.go(Phase::StopNext)
                } else {
                    self.run = CommandRun::new(command, self.guard.wheel_subsystem_enabled);
                    self.go(Phase::RunNext)
                }
            },
            _ => {
                self.retries = world.acks.take_due_retries(self.now);
                self.retry_at = 0;
                self.go(Phase::RetryNext)
            },
        }
    }

    fn on_run_next(&mut self, world: &mut World, clock: u64) -> (action: Action)
        requires
            old(self).wf(),
            old(world).wf(),
            clock <= CLOCK_MAX,
            old(self).phase == Phase::RunNext,
        ensures
            final(self).wf(),
            final(world).wf(),
            run_next_step(*old(self), *old(world), clock, *final(self), *final(world), action),
    {
        match self.run.next(&mut self.guard, &mut world.acks, clock) {
            RunStep::Write(frame) => {
                self.phase = Phase::RunWriting;
                Action::Write(frame)
            },
            RunStep::Failed(error) => {
                self.phase = Phase::ReplyFailed;
                Action::Reply(Err(error))
            },
            RunStep::Complete => {
                self.run.settle(&mut world.safety, clock);
                let list = &self.run.acknowledgements;
                let sequences = copy_range(list.as_slice(), 0, list.len());
                assert(sequences@ =~= list@);
                self.phase = Phase::Replied;
                Action::Reply(Ok(sequences))
            },
        }
    }

    fn on_run_writing(&mut self, world: &mut World, event: Event) -> (action: Action)
        requires
            old(self).wf(),
            old(world).wf(),
            old(self).phase == Phase::RunWriting,
        ensures
            final(self).wf(),
            final(world).wf(),
            run_writing_step(*old(self), *old(world), event, *final(self), *final(world), action),
    {
        if let Event::WriteFailed(error) = event {
            self.run.write_failed(&mut world.acks);
            self.phase = Phase::ReplyFailed;
            return Action::Reply(Err(error));
        }
        self.run.written(&mut self.guard);
        self.go(Phase::RunNext)
    }

    /// The next frame of the stop set on its way.
    fn stop_frame(&self) -> (frame: Option<Vec<u8>>)
        requires
            self.stop matches Some(run) && run.wf(),
        ensures
            if self.stop->0.outcomes().len() < 5 {
                frame matches Some(f) && guard::stop_encodes(
                    self.stop->0.outcomes().len() as int,
                    commands::sequence_later(
                        self.stop->0.first_sequence(),
                        self.stop->0.outcomes().len(),
                    ),
                    Ok::<Vec<u8>, String>(f),
                )
            } else {
                frame is None
            },
    {
        match &self.stop {
            Some(run) => run.frame(),
            None => None,
        }
    }

    /// Ends the stop set on its way.
    fn finish_stop(&mut self, safety: &mut SafetyController) -> (result: Result<(), Error>)
        requires
            old(self).stop matches Some(run) && run.wf() && run.outcomes().len() >= 5,
        ensures
            *final(self) == (Session { stop: None, ..*old(self) }),
            final(safety).wf(),
            final(safety).targets == ActuatorTargets::at_rest(),
            final(safety).drive_lease_deadline is None,
            if guard::no_failures(old(self).stop->0.outcomes()) {
                result is Ok
            } else {
                result matches Err(e) && e@ == ErrorView::Other(
                    guard::stop_failures(old(self).stop->0.outcomes()),
                )
            },
    {
        let mut taken: Option<StopRun> = None;
        std::mem::swap(&mut taken, &mut self.stop);
        match taken {
            Some(run) => {
                proof {
                    run.at_most_five();
                }
                run.finish(safety)
            },
            None => {
                safety.reset_targets();
                Ok(())
            },
        }
    }

    fn on_stop_next(&mut self, world: &mut World) -> (action: Action)
        requires
            old(self).wf(),
            old(world).wf(),
            old(self).phase == Phase::StopNext,
        ensures
            final(self).wf(),
            final(world).wf(),
            stop_next_step(*old(self), *old(world), *final(self), *final(world), action),
    {
        match self.stop_frame() {
            Some(frame) => {
                self.phase = Phase::StopWriting;
                Action::Write(frame)
            },
            None => match self.finish_stop(&mut world.safety) {
                Ok(()) => {
                    self.phase = Phase::Replied;
                    Action::Reply(Ok(Vec::new()))
                },
                Err(error) => {
                    self.phase = Phase::ReplyFailed;
                    Action::Reply(Err(error))
                },
            },
        }
    }

    fn on_stop_writing(&mut self, event: Event, next: Phase) -> (action: Action)
        requires
            old(self).wf(),
            writes_stop(old(self).phase),
            old(self).phase == Phase::StopWriting <==> next == Phase::StopNext,
            old(self).phase == Phase::FinalStopWriting <==> next == Phase::FinalStopNext,
            old(self).phase == Phase::RetryStopWriting <==> next == Phase::RetryStopNext,
        ensures
            final(self).wf(),
            forall|w: World| #[trigger]
                notes_stop_frame(*old(self), w, event, next, *final(self), w, action),
    {
        let mut taken: Option<StopRun> = None;
        std::mem::swap(&mut taken, &mut self.stop);
        match taken {
            Some(run) => {
                let mut run = run;
                match event {
                    Event::WriteFailed(error) => run.attempted(Some(error.message())),
                    _ => run.attempted(None),
                }
                self.stop = Some(run);
            },
            None => {},
        }
        self.go(next)
    }

    fn on_retry_next(&mut self) -> (action: Action)
        requires
            old(self).wf(),
            old(self).phase == Phase::RetryNext,
        ensures
            final(self).wf(),
            forall|w: World| #[trigger]
                retry_next_step(*old(self), w, *final(self), w, action),
    {
        if self.retry_at < self.retries.len() {
            let frame = &self.retries[self.retry_at].1;
            let copy = copy_range(frame.as_slice(), 0, frame.len());
            assert(copy@ =~= frame@);
            self.phase = Phase::RetryWriting;
            Action::Write(copy)
        } else {
            self.go(Phase::Lease)
        }
    }

    fn on_retry_writing(&mut self, event: Event) -> (action: Action)
        requires
            old(self).wf(),
            old(self).phase == Phase::RetryWriting,
        ensures
            final(self).wf(),
            forall|w: World| #[trigger]
                retry_writing_step(*old(self), w, event, *final(self), w, action),
    {
        if let Event::WriteFailed(error) = event {
            return self.fail(error);
        }
        assert(self.retry_at < self.retries.len());
        self.retry_at += 1;
        self.go(Phase::RetryNext)
    }

    fn on_lease(&mut self, world: &mut World) -> (action: Action)
        requires
            old(self).wf(),
            old(world).wf(),
            old(self).phase == Phase::Lease,
        ensures
            final(self).wf(),
            final(world).wf(),
            lease_step(*old(self), *old(world), *final(self), *final(world), action),
    {
        if world.safety.take_expired_drive_lease(self.now) {
            let frame = self.guard.forced_wheel_stop();
            self.phase = Phase::LeaseWriting;
            Action::Write(frame)
        } else {
            self.go(Phase::Freshness)
        }
    }

    fn on_freshness(&mut self) -> (action: Action)
        requires
            old(self).wf(),
            old(self).phase == Phase::Freshness,
        ensures
            final(self).wf(),
            forall|w: World| #[trigger] freshness_step(*old(self), w, *final(self), w, action),
    {
        let stale = match self.safety_report_deadline {
            Some(deadline) => self.now >= deadline,
            None => false,
        };
        if stale {
            self.fail(
                Error::Other("S5 Max safety reports stale for more than 500ms".to_string()),
            )
        } else {
            self.go(Phase::Heartbeat)
        }
    }

    fn on_heartbeat(&mut self) -> (action: Action)
        requires
            old(self).wf(),
            old(self).phase == Phase::Heartbeat,
        ensures
            final(self).wf(),
            forall|w: World| #[trigger] heartbeat_step(*old(self), w, *final(self), w, action),
    {
        if self.now >= self.next_heartbeat {
            let frame = self.heartbeat();
            self.phase = Phase::HeartbeatWriting;
            Action::Write(frame)
        } else {
            self.go(Phase::SyncRetry)
        }
    }

    fn on_sync_retry(&mut self) -> (action: Action)
        requires
            old(self).wf(),
            old(self).phase == Phase::SyncRetry,
        ensures
            final(self).wf(),
            forall|w: World| #[trigger] sync_retry_step(*old(self), w, *final(self), w, action),
    {
        if !self.sync_acknowledged && self.sync_retry.take_retry(self.now) {
            let copy = copy_range(self.sync_frame.as_slice(), 0, self.sync_frame.len());
            assert(copy@ =~= self.sync_frame@);
            self.phase = Phase::SyncWriting;
            Action::Write(copy)
        } else {
            self.go(Phase::Exhausted)
        }
    }

    fn on_exhausted(&mut self) -> (action: Action)
        requires
            old(self).wf(),
            old(self).phase == Phase::Exhausted,
        ensures
            final(self).wf(),
            forall|w: World| #[trigger] exhausted_step(*old(self), w, *final(self), w, action),
    {
        if self.startup_pending && !self.sync_acknowledged && self.sync_retry.exhausted(self.now) {
            let attempts = decimal_text(self.sync_retry.attempts as u64);
            let said = join3(
                "MCU did not acknowledge sensor sync after ",
                attempts.as_str(),
                " attempts",
            );
            self.startup_pending = false;
            self.failure =
            Some(Error::Other("MCU sensor-sync acknowledgement exhausted".to_string()));
            self.phase = Phase::Failing;
            Action::Notify(Err(Error::Other(said)))
        } else {
            self.go(Phase::Deadline)
        }
    }

    fn on_deadline(&mut self) -> (action: Action)
        requires
            old(self).wf(),
            old(self).phase == Phase::Deadline,
        ensures
            final(self).wf(),
            forall|w: World| #[trigger] deadline_step(*old(self), w, *final(self), w, action),
    {
        if self.startup_pending && self.now >= self.startup_deadline {
            let missing = if self.sync_acknowledged {
                "sensor snapshot"
            } else if self.snapshot_received {
                "sync acknowledgement"
            } else {
                "sync acknowledgement and sensor snapshot"
            };
            let said = join("MCU startup timed out waiting for ", missing);
            self.startup_pending = false;
            self.failure = Some(Error::Other(said.clone()));
            self.phase = Phase::Failing;
            Action::Notify(Err(Error::Other(said)))
        } else {
            self.phase = Phase::Polling;
            Action::Poll
        }
    }

    fn on_polling(&mut self, event: Event) -> (action: Action)
        requires
            old(self).wf(),
            old(self).phase == Phase::Polling,
            event is Polled,
        ensures
            final(self).wf(),
            forall|w: World| #[trigger]
                polling_step(*old(self), w, event, *final(self), w, action),
    {
        match event {
            Event::Polled(Err(error)) => self.fail(error),
            Event::Polled(Ok(true)) => {
                self.phase = Phase::Reading;
                Action::Read
            },
            _ => {
                self.phase = Phase::Top;
                Action::AskShutdown
            },
        }
    }

    fn on_reading(&mut self, event: Event) -> (action: Action)
        requires
            old(self).wf(),
            old(self).phase == Phase::Reading,
            event is Received,
        ensures
            final(self).wf(),
            forall|w: World| #[trigger]
                reading_step(*old(self), w, event, *final(self), w, action),
    {
        match event {
            Event::Received(Ok(bytes)) => {
                self.frames = self.decoder.push(bytes.as_slice());
                self.frame_at = 0;
                self.go(Phase::FrameNext)
            },
            Event::Received(Err(error)) => self.fail(error),
            _ => Action::Continue,
        }
    }

    fn on_frame_next(&mut self, world: &mut World, clock: u64) -> (action: Action)
        requires
            old(self).wf(),
            old(world).wf(),
            old(self).phase == Phase::FrameNext,
        ensures
            final(self).wf(),
            final(world).wf(),
            frame_next_step(*old(self), *old(world), clock, *final(self), *final(world), action),
    {
        if self.frame_at == self.frames.len() {
            self.phase = Phase::Top;
            return Action::AskShutdown;
        }
        let frame = &self.frames[self.frame_at];
        if frame.is_log || !frame.crc_valid || !frame.escape_overhead_valid() {
            self.frame_at += 1;
            return Action::Continue;
        }
        self.binary_frame_index =
        if self.binary_frame_index == 0xffff_ffff {
            0
        } else {
            self.binary_frame_index + 1
        };
        let footer = frame.report_footer();
        let mut seen = false;
        self.frame_ack = None;
        if report_requests_ack(footer) {
            if let Some(footer) = footer {
                self.frame_ack = Some(footer.sequence);
                seen =
                self.recent.is_duplicate(
                    self.binary_frame_index,
                    footer.sequence,
                    frame.payload.as_slice(),
                );
            }
        }
        if frame.message == ACK_REPORT && frame.command == ACK_LENGTH && frame.payload.len() >= 3 {
            let sequence = frame.payload[2];
            world.acks.acknowledge(sequence);
            if sequence == self.sync_sequence {
                self.sync_acknowledged = true;
            }
        }
        let mut action = Action::Continue;
        if !seen {
            if contains_sensor_snapshot(frame) {
                self.snapshot_received = true;
            }
            if let Some(snapshot) = world.sensors.process_mcu_frame(frame, clock) {
                action = Action::Stream(snapshot);
            }
            if frame.is_state_report() {
                world.lifecycle.mark_safety_report(self.now);
                self.safety_report_deadline = Some(self.now + SAFETY_REPORT_TIMEOUT);
            }
        }
        self.phase = Phase::FrameAck;
        action
    }

    fn on_frame_ack(&mut self) -> (action: Action)
        requires
            old(self).wf(),
            old(self).phase == Phase::FrameAck,
        ensures
            final(self).wf(),
            forall|w: World| #[trigger] frame_ack_step(*old(self), w, *final(self), w, action),
    {
        match self.frame_ack {
            Some(received) => {
                let sequence = self.guard.take_sequence();
                let frame: Vec<u8> = match acknowledgement_frame(sequence, received) {
                    Ok(frame) => frame,
                    Err(_) => Vec::new(),
                };
                self.phase = Phase::FrameAckWriting;
                Action::Write(frame)
            },
            None => self.go(Phase::FrameStartup),
        }
    }

    fn on_frame_startup(&mut self) -> (action: Action)
        requires
            old(self).wf(),
            old(self).phase == Phase::FrameStartup,
        ensures
            final(self).wf(),
            forall|w: World| #[trigger]
                frame_startup_step(*old(self), w, *final(self), w, action),
    {
        assert(self.frame_at < self.frames.len());
        self.frame_at += 1;
        self.phase = Phase::FrameNext;
        if self.startup_pending && self.sync_acknowledged && self.snapshot_received {
            self.startup_pending = false;
            self.safety_report_deadline = Some(self.now + SAFETY_REPORT_TIMEOUT);
            Action::Notify(Ok(()))
        } else {
            Action::Continue
        }
    }

    fn on_final_stop_next(&mut self, world: &mut World) -> (action: Action)
        requires
            old(self).wf(),
            old(world).wf(),
            old(self).phase == Phase::FinalStopNext,
        ensures
            final(self).wf(),
            final(world).wf(),
            final_stop_next_step(*old(self), *old(world), *final(self), *final(world), action),
    {
        match self.stop_frame() {
            Some(frame) => {
                self.phase = Phase::FinalStopWriting;
                Action::Write(frame)
            },
            None => match self.finish_stop(&mut world.safety) {
                Ok(()) => {
                    self.phase = Phase::Closed;
                    let mut failure: Option<Error> = None;
                    std::mem::swap(&mut failure, &mut self.failure);
                    match failure {
                        Some(error) => Action::Finish(Err(error)),
                        None => Action::Finish(Ok(())),
                    }
                },
                Err(stop) => {
                    let mut failure: Option<Error> = None;
                    std::mem::swap(&mut failure, &mut self.failure);
                    let both: Error = match failure {
                        Some(session) => Error::Other(
                            join3(
                                session.message(),
                                "; ordered safety stop also failed: ",
                                stop.message(),
                            ),
                        ),
                        None => stop,
                    };
                    self.failure = Some(both);
                    let run = StopRun::begin(&mut self.guard);
                    self.stop = Some(run);
                    self.go(Phase::RetryStopNext)
                },
            },
        }
    }

    fn on_retry_stop_next(&mut self, world: &mut World) -> (action: Action)
        requires
            old(self).wf(),
            old(world).wf(),
            old(self).phase == Phase::RetryStopNext,
        ensures
            final(self).wf(),
            final(world).wf(),
            retry_stop_next_step(*old(self), *old(world), *final(self), *final(world), action),
    {
        match self.stop_frame() {
            Some(frame) => {
                self.phase = Phase::RetryStopWriting;
                Action::Write(frame)
            },
            None => {
                let _again = self.finish_stop(&mut world.safety);
                self.phase = Phase::Closed;
                let mut failure: Option<Error> = None;
                std::mem::swap(&mut failure, &mut self.failure);
                match failure {
                    Some(error) => Action::Finish(Err(error)),
                    None => Action::Finish(Ok(())),
                }
            },
        }
    }

    /// One step: what happened, and at what time, in; what to do now, out.
    pub fn step(&mut self, world: &mut World, event: Event, clock: u64) -> (action: Action)
        requires
            old(self).wf(),
            old(world).wf(),
            clock <= CLOCK_MAX,
            answers(old(self).phase, event),
        ensures
            final(self).wf(),
            final(world).wf(),
            transition(*old(self), *old(world), event, clock, *final(self), *final(world), action),
    {
        match self.phase {
            Phase::Start => {
                let frame = self.heartbeat();
                self.phase = Phase::StartHeartbeat;
                Action::Write(frame)
            },
            Phase::StartHeartbeat => self.on_start_heartbeat(event, clock),
            Phase::StartSync => match event {
                Event::WriteFailed(error) => self.fail(error),
                _ => {
                    self.sync_retry = AckRetryWindow::after_initial_send(clock);
                    self.phase = Phase::Top;
                    Action::AskShutdown
                },
            },
            Phase::Top => self.on_top(event, clock),
            Phase::Ending => self.go(Phase::FinalStop),
            Phase::Commands => self.on_commands(world, event),
            Phase::RunNext => self.on_run_next(world, clock),
            Phase::RunWriting => self.on_run_writing(world, event),
            Phase::StopNext => self.on_stop_next(world),
            Phase::StopWriting => self.on_stop_writing(event, Phase::StopNext),
            Phase::Replied => {
                self.phase = Phase::Commands;
                Action::AskCommand
            },
            Phase::ReplyFailed => self.fail(
                Error::Other("S5 Max actuator command failed".to_string()),
            ),
            Phase::RetryNext => self.on_retry_next(),
            Phase::RetryWriting => self.on_retry_writing(event),
            Phase::Lease => self.on_lease(world),
            Phase::LeaseWriting => match event {
                Event::WriteFailed(error) => self.fail(error),
                _ => self.go(Phase::Freshness),
            },
            Phase::Freshness => self.on_freshness(),
            Phase::Heartbeat => self.on_heartbeat(),
            Phase::HeartbeatWriting => match event {
                Event::WriteFailed(error) => self.fail(error),
                _ => {
                    self.next_heartbeat = self.now + HEARTBEAT_INTERVAL;
                    self.go(Phase::SyncRetry)
                },
            },
            Phase::SyncRetry => self.on_sync_retry(),
            Phase::SyncWriting => match event {
                Event::WriteFailed(error) => self.fail(error),
                _ => self.go(Phase::Exhausted),
            },
            Phase::Exhausted => self.on_exhausted(),
            Phase::Deadline => self.on_deadline(),
            Phase::Failing => self.go(Phase::FinalStop),
            Phase::Polling => self.on_polling(event),
            Phase::Reading => self.on_reading(event),
            Phase::FrameNext => self.on_frame_next(world, clock),
            Phase::FrameAck => self.on_frame_ack(),
            Phase::FrameAckWriting => match event {
                Event::WriteFailed(error) => self.fail(error),
                _ => self.go(Phase::FrameStartup),
            },
            Phase::FrameStartup => self.on_frame_startup(),
            Phase::FinalStop => {
                let run = StopRun::begin(&mut self.guard);
                self.stop = Some(run);
                self.go(Phase::FinalStopNext)
            },
            Phase::FinalStopNext => self.on_final_stop_next(world),
            Phase::FinalStopWriting => self.on_stop_writing(event, Phase::FinalStopNext),
            Phase::RetryStopNext => self.on_retry_stop_next(world),
            Phase::RetryStopWriting => self.on_stop_writing(event, Phase::RetryStopNext),
            Phase::Closed => Action::Continue,
        }
    }
}

/// One step of a run.
pub struct StepTaken {
    pub session: Session,
    pub world: World,
    pub event: Event,
    pub clock: u64,
    pub next_session: Session,
    pub next_world: World,
    pub action: Action,
}

impl StepTaken {
    /// The step is one that the session takes.
    #[verifier::opaque]
    pub open spec fn taken(self) -> bool {
        &&& answers(self.session.phase, self.event)
        &&& transition(
            self.session,
            self.world,
            self.event,
            self.clock,
            self.next_session,
            self.next_world,
            self.action,
        )
    }
}

/// The steps follow each other. Between them others may change what is shared.
pub open spec fn is_run(steps: Seq<StepTaken>) -> bool {
    &&& forall|i: int| 0 <= i < steps.len() ==> (#[trigger] steps[i]).taken()
    &&& forall|i: int, j: int|
        0 <= i < j < steps.len() && j == i + 1 ==> (#[trigger] steps[j]).session == (
        #[trigger] steps[i]).next_session
}

/// How often a run tells how the startup went.
pub open spec fn notices(steps: Seq<StepTaken>) -> nat
    decreases steps.len(),
{
    if steps.len() == 0 {
        0
    } else {
        notices(steps.drop_last()) + (if steps.last().action is Notify {
            1nat
        } else {
            0nat
        })
    }
}

proof fn notice_uses_up_startup(step: StepTaken)
    requires
        step.taken(),
    ensures
        step.action is Notify ==> step.session.startup_pending
            && !step.next_session.startup_pending,
        step.next_session.startup_pending ==> step.session.startup_pending,
{
    reveal(StepTaken::taken);
}

/// However a session goes, its startup is told once at most.
pub proof fn startup_is_told_once(steps: Seq<StepTaken>)
    requires
        is_run(steps),
    ensures
        notices(steps) <= 1,
        steps.len() > 0 && notices(steps) == 1 ==> !steps.last().next_session.startup_pending,
        steps.len() > 0 && !steps[0].session.startup_pending ==> notices(steps) == 0,
    decreases steps.len(),
{
    if steps.len() > 0 {
        let front = steps.drop_last();
        assert forall|i: int| 0 <= i < front.len() implies (#[trigger] front[i]).taken() by {
            assert(steps[i].taken());
        }
        assert forall|i: int, j: int| 0 <= i < j < front.len() && j == i + 1 implies (
        #[trigger] front[j]).session == (#[trigger] front[i]).next_session by {
            assert(steps[j].session == steps[i].next_session);
        }
        startup_is_told_once(front);
        assert(steps[steps.len() - 1].taken());
        notice_uses_up_startup(steps.last());
        if front.len() > 0 {
            assert(steps[steps.len() - 1].session == steps[steps.len() - 2].next_session);
            assert(front.last() == steps[steps.len() - 2]);
            assert(front[0] == steps[0]);
            not_pending_stays(front);
        }
    }
}

proof fn not_pending_stays(steps: Seq<StepTaken>)
    requires
        is_run(steps),
        steps.len() > 0,
    ensures
        steps.last().next_session.startup_pending ==> steps[0].session.startup_pending,
    decreases steps.len(),
{
    assert(steps[steps.len() - 1].taken());
    notice_uses_up_startup(steps.last());
    if steps.len() > 1 {
        let front = steps.drop_last();
        assert forall|i: int| 0 <= i < front.len() implies (#[trigger] front[i]).taken() by {
            assert(steps[i].taken());
        }
        assert forall|i: int, j: int| 0 <= i < j < front.len() && j == i + 1 implies (
        #[trigger] front[j]).session == (#[trigger] front[i]).next_session by {
            assert(steps[j].session == steps[i].next_session);
        }
        not_pending_stays(front);
        assert(steps[steps.len() - 1].session == steps[steps.len() - 2].next_session);
        assert(front.last() == steps[steps.len() - 2]);
    }
}

/// A session never ends without the ordered stop set: the step that ends it comes
/// right after all five stop frames were attempted, and leaves every target at rest.
/// Once it is over it does not go back to work.
pub proof fn ends_at_rest(step: StepTaken)
    requires
        step.taken(),
        step.session.wf(),
    ensures
        step.action is Finish ==> step.session.stop is Some
            && step.session.stop->0.outcomes().len() == 5
            && step.next_world.safety.targets == ActuatorTargets::at_rest()
            && step.next_world.safety.drive_lease_deadline is None,
        over(step.session.phase) ==> over(step.next_session.phase),
{
    reveal(StepTaken::taken);
    if step.action is Finish {
        step.session.stop->0.at_most_five();
    }
}

/// Every sound frame that asks for it is acknowledged, a repeated one too. A repeated
/// one changes nothing that is published, and does not count as a fresh report.
pub proof fn every_request_is_acknowledged(first: StepTaken, second: StepTaken, f: FrameView)
    requires
        first.taken(),
        second.taken(),
        second.session == first.next_session,
        first.session.phase == Phase::FrameNext,
        first.session.frame_at < first.session.frames@.len(),
        f == first.session.frames@[first.session.frame_at as int]@,
        sound(f),
        wanted_ack(f) is Some,
    ensures
        second.action matches Action::Write(frame) && commands::command_encodes(
            first.session.guard.next_sequence,
            commands::ACK_REPORT,
            false,
            seq![wanted_ack(f)->0],
            Ok::<Vec<u8>, String>(frame),
        ),
        seen_before(first.session, f) ==> first.next_world.sensors == first.world.sensors
            && first.next_world.lifecycle == first.world.lifecycle
            && first.next_session.safety_report_deadline == first.session.safety_report_deadline
            && first.next_session.snapshot_received == first.session.snapshot_received,
{
    reveal(StepTaken::taken);
}

/// A lapsed drive lease is answered with a forced stop of the wheels, and late safety
/// reports end the session.
pub proof fn neglect_stops_the_robot(step: StepTaken)
    requires
        step.taken(),
    ensures
        step.session.phase == Phase::Lease && safety::lapsed(
            step.world.safety.drive_lease_deadline,
            step.session.now,
        ) ==> (step.action matches Action::Write(frame) && commands::wheel_command_encodes(
            step.session.guard.next_sequence,
            0,
            0,
            true,
            Ok::<Vec<u8>, String>(frame),
        ) && step.next_world.safety.targets.stands()),
        step.session.phase == Phase::Freshness && overdue(
            step.session.safety_report_deadline,
            step.session.now,
        ) ==> step.next_session.phase == Phase::FinalStop && step.next_session.failure is Some,
{
    reveal(StepTaken::taken);
}

/// A frame that cannot be written ends the session, unless it belongs to a stop set,
/// which goes on, or to a command, whose failure is told first and ends it then.
pub proof fn write_failures_end_the_session(step: StepTaken)
    requires
        step.taken(),
        step.event is WriteFailed,
    ensures
        writes_stop(step.session.phase) || step.next_session.phase == Phase::FinalStop || (
        step.session.phase == Phase::RunWriting && step.next_session.phase == Phase::ReplyFailed),
{
    reveal(StepTaken::taken);
}

/// A heartbeat goes out as soon as it is seen to be due, and the next one is due a
/// second after the start of the pass in which it was written.
pub proof fn heartbeats_keep_their_interval(step: StepTaken)
    requires
        step.taken(),
        step.session.wf(),
    ensures
        step.session.phase == Phase::Heartbeat && step.session.now >= step.session.next_heartbeat
            ==> (step.action matches Action::Write(frame) && commands::command_encodes(
            step.session.guard.next_sequence,
            commands::HEARTBEAT,
            false,
            seq![0u8, 0, 0, 0],
            Ok::<Vec<u8>, String>(frame),
        ) && step.next_session.phase == Phase::HeartbeatWriting),
        step.session.phase == Phase::HeartbeatWriting && step.event is Written
            ==> step.next_session.next_heartbeat == step.session.now + HEARTBEAT_INTERVAL,
        step.session.phase != Phase::HeartbeatWriting && step.session.phase
            != Phase::StartHeartbeat ==> step.next_session.next_heartbeat
            == step.session.next_heartbeat,
{
    reveal(StepTaken::taken);
}

/// An acknowledgement settles the command that it names. Whatever sound frame has a
/// payload that begins with `d1 01 q`: if the command with sequence `q` was waiting, it
/// is acknowledged after the step, with its frame and its attempts as they were; it is
/// never returned as a retry after that, and a wait for it ends well. No other command
/// is touched, and a frame that begins otherwise touches none.
pub proof fn acknowledgement_settles_its_command(step: StepTaken, f: FrameView, later: u64)
    requires
        step.taken(),
        step.session.phase == Phase::FrameNext,
        step.session.frame_at < step.session.frames@.len(),
        f == step.session.frames@[step.session.frame_at as int]@,
        !f.is_log,
        f.crc_valid,
        f.raw.len() == f.payload.len() + 3 + f.escape_overhead,
        f.payload.len() >= 3,
        f.message == f.payload[0],
        f.command == f.payload[1],
    ensures
        ({
            let q = f.payload[2];
            let before = step.world.acks@;
            let after = step.next_world.acks@;
            let names = f.payload[0] == 0xd1 && f.payload[1] == 0x01;
            &&& after.dom() == before.dom()
            &&& names && before.contains_key(q) ==> {
                &&& after.contains_key(q)
                &&& after[q].acknowledged
                &&& after[q].frame == before[q].frame
                &&& after[q].attempts == before[q].attempts
                &&& after[q].next_retry == before[q].next_retry
                &&& !acks::retries_have(acks::due_below(after, later, 256), q)
                &&& acks::unanswered(after, seq![q]).len() == 0
            }
            &&& forall|other: u8|
                before.contains_key(other) && !(names && other == q) ==> #[trigger] after[other]
                    == before[other]
        }),
{
    reveal(StepTaken::taken);
    let q = f.payload[2];
    let before = step.world.acks@;
    let after = step.next_world.acks@;
    assert(sound(f));
    assert(after.dom() =~= before.dom());
    if f.payload[0] == 0xd1 && f.payload[1] == 0x01 && before.contains_key(q) {
        acks::acknowledged_commands_rest(after, q, later);
    }
}

/// No other step acknowledges a command: only frames that the MCU sent do.
pub proof fn only_frames_acknowledge(step: StepTaken, sequence: u8)
    requires
        step.taken(),
        step.session.phase != Phase::FrameNext,
        step.next_world.acks@.contains_key(sequence),
        step.next_world.acks@[sequence].acknowledged,
    ensures
        step.world.acks@.contains_key(sequence),
        step.world.acks@[sequence].acknowledged,
{
    reveal(StepTaken::taken);
}

/// What a sound frame does to the startup, over its bytes and reports. The
/// synchronization is acknowledged by `d1 01` with its own sequence, and by nothing else.
/// The snapshot is there once a frame that is no repetition holds the dock state `20`,
/// the battery `08`, the dustbin `24` and the dock voltage `0f`.
pub proof fn frames_advance_the_startup(step: StepTaken, f: FrameView)
    requires
        step.taken(),
        step.session.phase == Phase::FrameNext,
        step.session.frame_at < step.session.frames@.len(),
        f == step.session.frames@[step.session.frame_at as int]@,
        sound(f),
        f.payload.len() >= 3,
        f.message == f.payload[0],
        f.command == f.payload[1],
    ensures
        step.next_session.sync_acknowledged <==> step.session.sync_acknowledged || (f.payload[0]
            == 0xd1 && f.payload[1] == 0x01 && f.payload[2] == step.session.sync_sequence),
        step.next_session.snapshot_received <==> step.session.snapshot_received || (!seen_before(
            step.session,
            f,
        ) && f.report_data(0x20, 2) is Some && f.report_data(0x08, 10) is Some && f.report_data(
            0x24,
            2,
        ) is Some && f.report_data(0x0f, 2) is Some),
        step.next_session.startup_pending == step.session.startup_pending,
        step.next_session.guard == step.session.guard,
{
    reveal(StepTaken::taken);
}

/// A periodic state report that is no repetition keeps the session alive for 500 ms from
/// the start of the pass, is noted as the last safety report, and is streamed with every
/// value under its own name. Nothing else does.
pub proof fn state_reports_keep_the_session_alive(
    step: StepTaken,
    f: FrameView,
    report: reports::StateReport,
)
    requires
        step.taken(),
        step.session.wf(),
        step.session.phase == Phase::FrameNext,
        step.session.frame_at < step.session.frames@.len(),
        f == step.session.frames@[step.session.frame_at as int]@,
        sound(f),
        report.reads(f.payload),
    ensures
        ({
            let state = f.message == 0x07 && f.command == 0x40;
            let fresh = state && !seen_before(step.session, f);
            &&& fresh ==> {
                &&& step.next_session.safety_report_deadline matches Some(until) && until
                    == step.session.now + 500_000_000
                &&& step.next_world.lifecycle.last_safety_report == Some(step.session.now)
                &&& step.next_world.lifecycle.state == step.world.lifecycle.state
            }
            &&& !fresh ==> step.next_session.safety_report_deadline
                == step.session.safety_report_deadline && step.next_world.lifecycle
                == step.world.lifecycle
            &&& fresh && f.payload.len() >= 66 ==> {
                &&& step.action matches Action::Stream(group) && sensors::shows_state(
                    group.values@,
                    report,
                )
                &&& sensors::shows_state(step.next_world.sensors.sensor_status.values@, report)
            }
            &&& !(fresh && f.payload.len() >= 66) ==> step.action is Continue
            &&& step.next_world.safety == step.world.safety
        }),
{
    reveal(StepTaken::taken);
    if f.message == 0x07 && f.command == 0x40 && !seen_before(step.session, f) && f.payload.len()
        >= 66 {
        sensors::state_report_is_published(
            step.world.sensors,
            step.next_world.sensors,
            f,
            step.clock,
            report,
        );
    }
}

/// A frame that is a log, whose checksum is wrong, or whose length does not fit, is
/// passed over: nothing is shared, published or acknowledged because of it.
pub proof fn unsound_frames_are_passed_over(step: StepTaken, f: FrameView)
    requires
        step.taken(),
        step.session.wf(),
        step.session.phase == Phase::FrameNext,
        step.session.frame_at < step.session.frames@.len(),
        f == step.session.frames@[step.session.frame_at as int]@,
        f.is_log || !f.crc_valid || f.raw.len() != f.payload.len() + 3 + f.escape_overhead,
    ensures
        step.next_world == step.world,
        step.action is Continue,
        step.next_session.phase == Phase::FrameNext,
        step.next_session.frame_at == step.session.frame_at + 1,
        step.next_session.sync_acknowledged == step.session.sync_acknowledged,
        step.next_session.snapshot_received == step.session.snapshot_received,
        step.next_session.safety_report_deadline == step.session.safety_report_deadline,
{
    reveal(StepTaken::taken);
    assert(step.session.frame_at < step.session.frames.len());
}

/// A sound frame whose `d0` report has a first byte other than zero is answered with a
/// `d1` report that carries the second byte of that report; any other frame is not
/// answered.
pub proof fn answers_carry_the_sequence(first: StepTaken, second: StepTaken, f: FrameView)
    requires
        first.taken(),
        second.taken(),
        second.session == first.next_session,
        first.session.phase == Phase::FrameNext,
        first.session.frame_at < first.session.frames@.len(),
        f == first.session.frames@[first.session.frame_at as int]@,
        sound(f),
    ensures
        match f.report_data(0xd0, 2) {
            Some(d) => if d[0] != 0 {
                second.action matches Action::Write(wire) && commands::delivered(
                    wire@,
                ) matches Some(sent) && sent.command == 0xd1 && !sent.wants_ack && sent.data.len()
                    == 1 && sent.data[0] == d[1] && sent.sequence
                    == first.session.guard.next_sequence
            } else {
                !(second.action is Write) && second.next_session.phase == Phase::FrameStartup
            },
            None => !(second.action is Write) && second.next_session.phase == Phase::FrameStartup,
        },
{
    reveal(StepTaken::taken);
    if second.action is Write {
        commands::encoding_is_delivered(
            first.session.guard.next_sequence,
            ACK_REPORT,
            false,
            seq![wanted_ack(f)->0],
            second.action->Write_0,
        );
    }
}

/// A session opens with a heartbeat and then asks for the sensor status, which the MCU
/// has to acknowledge; the two have sequences that follow each other. The request counts
/// as sent once when it was written, and is due again 23 ms later; the next heartbeat is
/// due a second after the first.
pub proof fn sessions_open_with_sync(step: StepTaken)
    requires
        step.taken(),
        step.session.wf(),
        step.clock <= CLOCK_MAX,
    ensures
        step.session.phase == Phase::Start ==> {
            &&& step.action matches Action::Write(wire) && commands::delivered(
                wire@,
            ) matches Some(sent) && sent.command == 0xd3 && !sent.wants_ack && sent.data == seq![
                0u8,
                0,
                0,
                0,
            ] && sent.sequence == step.session.guard.next_sequence
            &&& step.next_session.phase == Phase::StartHeartbeat
        },
        step.session.phase == Phase::StartHeartbeat && step.event is Written ==> {
            &&& step.action matches Action::Write(wire) && commands::delivered(
                wire@,
            ) matches Some(sent) && sent.command == 0x82 && sent.wants_ack && sent.data.len() == 0
                && sent.sequence == step.session.guard.next_sequence
                && step.next_session.sync_sequence == sent.sequence
                && step.next_session.sync_frame@ == wire@
            &&& step.next_session.next_heartbeat == step.clock + 1_000_000_000
            &&& step.next_session.phase == Phase::StartSync
        },
        step.session.phase == Phase::StartSync && step.event is Written ==> {
            &&& step.next_session.sync_retry.attempts == 1
            &&& step.next_session.sync_retry.next_retry == step.clock + 23_000_000
            &&& step.next_session.phase == Phase::Top && step.action is AskShutdown
        },
{
    reveal(StepTaken::taken);
    if step.session.phase == Phase::Start {
        commands::encoding_is_delivered(
            step.session.guard.next_sequence,
            commands::HEARTBEAT,
            false,
            seq![0u8, 0, 0, 0],
            step.action->Write_0,
        );
    }
    if step.session.phase == Phase::StartHeartbeat && step.event is Written {
        commands::encoding_is_delivered(
            step.session.guard.next_sequence,
            commands::SYNC_SENSOR_STATUS,
            true,
            Seq::empty(),
            step.action->Write_0,
        );
    }
}

/// While the request for the sensor status is not acknowledged it is sent again, byte for
/// byte, each time 23 ms have passed, three times in all. Nothing is sent again once it
/// is acknowledged. The request itself never changes.
pub proof fn sync_is_retried(step: StepTaken)
    requires
        step.taken(),
        step.session.wf(),
    ensures
        step.session.phase == Phase::SyncRetry ==> {
            if !step.session.sync_acknowledged && step.session.sync_retry.attempts < 3
                && step.session.now >= step.session.sync_retry.next_retry {
                &&& step.action matches Action::Write(wire) && wire@ == step.session.sync_frame@
                &&& step.next_session.sync_retry.attempts == step.session.sync_retry.attempts + 1
                &&& step.next_session.sync_retry.next_retry == step.session.now + 23_000_000
                &&& step.next_session.phase == Phase::SyncWriting
            } else {
                &&& step.action is Continue
                &&& step.next_session.sync_retry == step.session.sync_retry
                &&& step.next_session.phase == Phase::Exhausted
            }
        },
        step.session.phase != Phase::StartHeartbeat ==> step.next_session.sync_frame
            == step.session.sync_frame && step.next_session.sync_sequence
            == step.session.sync_sequence,
        step.session.phase != Phase::SyncRetry && step.session.phase != Phase::StartSync
            ==> step.next_session.sync_retry == step.session.sync_retry,
{
    reveal(StepTaken::taken);
}

/// How the startup ends. It is told as done at the frame after which the request is
/// acknowledged and the snapshot is there; the safety reports then have 500 ms. It is
/// told as failed when the third request went unanswered for 23 ms, when its time is up,
/// or when the driver shuts down; the session then ends with the stop set.
pub proof fn startup_ends(step: StepTaken)
    requires
        step.taken(),
        step.session.wf(),
    ensures
        step.action matches Action::Notify(told) ==> {
            &&& step.session.startup_pending && !step.next_session.startup_pending
            &&& told is Ok <==> step.session.phase == Phase::FrameStartup
            &&& told is Ok ==> step.session.sync_acknowledged && step.session.snapshot_received && (
            step.next_session.safety_report_deadline matches Some(until) && until
                == step.session.now + 500_000_000)
            &&& told is Err ==> {
                ||| step.session.phase == Phase::Top && step.event == Event::Shutdown(true)
                ||| step.session.phase == Phase::Exhausted && !step.session.sync_acknowledged
                    && step.session.sync_retry.attempts == 3 && step.session.now
                    >= step.session.sync_retry.next_retry
                ||| step.session.phase == Phase::Deadline && step.session.now
                    >= step.session.startup_deadline
            }
            &&& told is Err ==> step.next_session.phase == Phase::Ending || (
            step.next_session.phase == Phase::Failing && step.next_session.failure is Some)
        },
        step.session.startup_pending && step.session.phase == Phase::FrameStartup
            && step.session.sync_acknowledged && step.session.snapshot_received
            ==> step.action is Notify,
        step.session.startup_pending && step.session.phase == Phase::Exhausted
            && !step.session.sync_acknowledged && step.session.sync_retry.attempts == 3
            && step.session.now >= step.session.sync_retry.next_retry ==> step.action is Notify,
        step.session.startup_pending && step.session.phase == Phase::Deadline && step.session.now
            >= step.session.startup_deadline ==> step.action is Notify,
        step.session.startup_pending && step.session.phase == Phase::Top && step.event
            == Event::Shutdown(true) ==> step.action is Notify,
{
    reveal(StepTaken::taken);
}

/// What becomes of a command. It runs frame by frame; each frame takes the next sequence.
/// Once all were written it is answered with exactly the sequences of those that ask for
/// an acknowledgement, in order, and its targets hold from then on. A frame that was not
/// written is waited for no longer; its failure is the answer, and the session ends.
pub proof fn commands_run_frame_by_frame(step: StepTaken)
    requires
        step.taken(),
        step.session.wf(),
    ensures
        step.session.phase == Phase::Commands ==> (step.event matches Event::Command(Some(command))
            ==> if command is EmergencyStop {
            step.next_session.phase == Phase::StopNext && (step.next_session.stop matches Some(run)
                && run.first_sequence() == step.session.guard.next_sequence && run.outcomes().len()
                == 0) && step.next_world == step.world
        } else {
            step.next_session.phase == Phase::RunNext && step.next_session.run.command == command
                && step.next_session.run.sends@ == guard::plan(
                command,
                step.session.guard.wheel_subsystem_enabled,
            ) && step.next_session.run.at == 0 && step.next_session.run.acknowledgements@.len() == 0
                && step.next_world == step.world
        }),
        step.session.phase == Phase::RunNext && step.session.run.at < step.session.run.sends@.len()
            ==> {
            let send = step.session.run.sends@[step.session.run.at as int];
            &&& step.next_session.guard.next_sequence == commands::sequence_after(
                step.session.guard.next_sequence,
            )
            &&& step.action matches Action::Write(wire) ==> {
                &&& send.tells(step.session.guard.next_sequence, wire@)
                &&& step.next_session.phase == Phase::RunWriting
                &&& step.next_session.run.sequence == step.session.guard.next_sequence
                &&& send.wants_ack() ==> step.next_world.acks@.contains_key(
                    step.session.guard.next_sequence,
                ) && step.next_world.acks@[step.session.guard.next_sequence].frame == wire@
                    && !step.next_world.acks@[step.session.guard.next_sequence].acknowledged
                &&& !send.wants_ack() ==> step.next_world.acks@ == step.world.acks@
            }
            &&& step.action is Write <==> send.encodable()
            &&& !(step.action is Write) ==> step.next_session.phase == Phase::ReplyFailed && (
            step.action matches Action::Reply(answer) && answer is Err)
        },
        step.session.phase == Phase::RunNext && step.session.run.at == step.session.run.sends@.len()
            ==> {
            &&& step.action matches Action::Reply(Ok(sequences)) && sequences@
                == step.session.run.acknowledgements@
            &&& step.next_session.phase == Phase::Replied
            &&& step.next_world.safety.targets == guard::targets_after(
                step.session.run.command,
                step.world.safety.targets,
            )
            &&& step.next_world.safety.drive_lease_deadline == guard::lease_after(
                step.session.run.command,
                step.world.safety.drive_lease_deadline,
                step.clock,
            )
            &&& step.next_world.acks == step.world.acks
        },
        step.session.phase == Phase::RunWriting && step.event is Written ==> {
            let send = step.session.run.sends@[step.session.run.at as int];
            &&& step.next_session.run.at == step.session.run.at + 1
            &&& step.next_session.run.acknowledgements@ == step.session.run.acknowledgements@ + (
            if send.wants_ack() {
                seq![step.session.run.sequence]
            } else {
                Seq::empty()
            })
            &&& step.next_session.guard.wheel_subsystem_enabled <==> (
            step.session.guard.wheel_subsystem_enabled || send == guard::Outgoing::Subsystem(0x400))
            &&& step.next_session.phase == Phase::RunNext && step.next_world == step.world
        },
        step.session.phase == Phase::RunWriting ==> (step.event matches Event::WriteFailed(e) ==> {
            let send = step.session.run.sends@[step.session.run.at as int];
            &&& step.action matches Action::Reply(Err(said)) && said@ == e@
            &&& send.wants_ack() ==> !step.next_world.acks@.contains_key(step.session.run.sequence)
            &&& forall|other: u8|
                other != step.session.run.sequence && step.world.acks@.contains_key(other)
                    ==> step.next_world.acks@.contains_key(other)
                    && #[trigger] step.next_world.acks@[other] == step.world.acks@[other]
            &&& step.next_session.phase == Phase::ReplyFailed
        }),
        step.session.phase == Phase::ReplyFailed ==> step.next_session.phase == Phase::FinalStop
            && step.next_session.failure is Some,
        step.session.phase == Phase::Replied ==> step.next_session.phase == Phase::Commands
            && step.action is AskCommand,
{
    reveal(StepTaken::taken);
    let s = step.session;
    if s.phase == Phase::RunNext && s.run.at < s.run.sends@.len() && step.action is Write {
        s.run.sends@[s.run.at as int].frame_tells_it(s.guard.next_sequence, step.action->Write_0);
    }
    if s.phase == Phase::RunWriting && step.event is Written {
        let send = s.run.sends@[s.run.at as int];
        assert(step.next_session.run.acknowledgements@ =~= s.run.acknowledgements@ + (
        if send.wants_ack() {
            seq![s.run.sequence]
        } else {
            Seq::empty()
        }));
    }
}

/// When no command is left, exactly the commands that are due are sent again, one by one,
/// each with the bytes that it was first sent with.
pub proof fn due_commands_are_sent_again(step: StepTaken)
    requires
        step.taken(),
        step.session.wf(),
        acks::attempts_in_bounds(step.world.acks@),
    ensures
        step.session.phase == Phase::Commands && step.event == Event::Command(None) ==> {
            let waiting = step.world.acks@;
            let again = step.next_session.retries@;
            &&& step.next_session.phase == Phase::RetryNext && step.next_session.retry_at == 0
            &&& forall|i: int|
                #![trigger again[i]]
                0 <= i < again.len() ==> {
                    let q = again[i].0;
                    &&& waiting.contains_key(q) && !waiting[q].acknowledged && waiting[q].attempts < 3
                        && waiting[q].next_retry <= step.session.now
                    &&& again[i].1@ == waiting[q].frame
                    &&& again[i].2 == waiting[q].attempts + 1
                    &&& step.next_world.acks@[q].attempts == again[i].2
                    &&& step.next_world.acks@[q].next_retry == step.session.now + 23_000_000
                }
            &&& forall|q: u8| #[trigger]
                waiting.contains_key(q) && !waiting[q].acknowledged && waiting[q].attempts < 3
                    && waiting[q].next_retry <= step.session.now ==> exists|i: int|
                    0 <= i < again.len() && (#[trigger] again[i]).0 == q
        },
        step.session.phase == Phase::RetryNext && step.session.retry_at < step.session.retries@.len()
            ==> (step.action matches Action::Write(wire) && wire@
            == step.session.retries@[step.session.retry_at as int].1@ && step.next_session.phase
            == Phase::RetryWriting),
        step.session.phase == Phase::RetryNext && step.session.retry_at
            == step.session.retries@.len() ==> step.next_session.phase == Phase::Lease,
        step.session.phase == Phase::RetryWriting && step.event is Written
            ==> step.next_session.phase == Phase::RetryNext && step.next_session.retry_at
            == step.session.retry_at + 1,
        step.session.phase != Phase::Commands ==> step.next_session.retries == step.session.retries,
{
    reveal(StepTaken::taken);
    assert(step.session.retry_at <= step.session.retries.len());
    if step.session.phase == Phase::Commands && step.event == Event::Command(None) {
        let waiting = step.world.acks@;
        let again = step.next_session.retries@;
        let list = acks::due_below(waiting, step.session.now, 256);
        let view = |r: (u8, Vec<u8>, u8)|
            acks::RetryView { sequence: r.0, frame: r.1@, attempt: r.2 };
        acks::retries_are_bounded(waiting, step.session.now, 256);
        assert(again.map_values(view) == list);
        assert forall|i: int| #![trigger again[i]] 0 <= i < again.len() implies {
            let q = again[i].0;
            &&& waiting.contains_key(q) && !waiting[q].acknowledged && waiting[q].attempts < 3
                && waiting[q].next_retry <= step.session.now
            &&& again[i].1@ == waiting[q].frame
            &&& again[i].2 == waiting[q].attempts + 1
            &&& step.next_world.acks@[q].attempts == again[i].2
            &&& step.next_world.acks@[q].next_retry == step.session.now + 23_000_000
        } by {
            assert(list[i] == view(again[i]));
        }
        assert forall|q: u8| #[trigger]
            waiting.contains_key(q) && !waiting[q].acknowledged && waiting[q].attempts < 3
                && waiting[q].next_retry <= step.session.now implies exists|i: int|
            0 <= i < again.len() && (#[trigger] again[i]).0 == q by {
            assert(waiting[q].due(step.session.now));
            let i = choose|i: int| 0 <= i < list.len() && (#[trigger] list[i]).sequence == q;
            assert(list[i] == view(again[i]));
        }
    }
}

/// Every frame of a stop set stops what its place says, with sequences that follow each
/// other, and the next one follows whether it was written or not. A lapsed lease is
/// answered with a wheel command of zero that overrides, and ends.
pub proof fn stop_frames_stop(step: StepTaken)
    requires
        step.taken(),
        step.session.wf(),
    ensures
        step.session.phase == Phase::StopNext || step.session.phase == Phase::FinalStopNext
            || step.session.phase == Phase::RetryStopNext ==> {
            let done = step.session.stop->0.outcomes().len();
            &&& done <= 5
            &&& done < 5 ==> (step.action matches Action::Write(wire) && guard::stops(
                done as int,
                commands::sequence_later(step.session.stop->0.first_sequence(), done),
                wire@,
            )) && writes_stop(step.next_session.phase) && step.next_session.stop
                == step.session.stop
            &&& done == 5 ==> !(step.action is Write) && step.next_world.safety.targets.linear == 0
                && step.next_world.safety.targets.angular == 0 && step.next_world.safety.targets.fan
                == 0 && step.next_world.safety.targets.main_brush == 0
                && step.next_world.safety.targets.side_brush == 0
                && step.next_world.safety.targets.water_pump == 0
                && step.next_world.safety.drive_lease_deadline is None
        },
        writes_stop(step.session.phase) ==> {
            &&& step.next_session.stop matches Some(run) && run.first_sequence()
                == step.session.stop->0.first_sequence() && run.outcomes().len()
                == step.session.stop->0.outcomes().len() + 1 && (run.outcomes().last() is Some
                <==> step.event is WriteFailed)
            &&& step.next_world == step.world
            &&& stopping(step.next_session.phase) && !writes_stop(step.next_session.phase)
        },
        step.session.phase == Phase::Lease ==> {
            let lapsed = step.world.safety.drive_lease_deadline matches Some(until) && step.session.now
                >= until;
            &&& lapsed ==> (step.action matches Action::Write(wire) && commands::steers(
                wire@,
                step.session.guard.next_sequence,
                0,
                0,
                true,
            )) && step.next_world.safety.targets.linear == 0
                && step.next_world.safety.targets.angular == 0
                && step.next_world.safety.drive_lease_deadline is None
                && step.next_world.safety.targets.fan == step.world.safety.targets.fan
                && step.next_world.safety.targets.main_brush
                == step.world.safety.targets.main_brush && step.next_world.safety.targets.side_brush
                == step.world.safety.targets.side_brush && step.next_world.safety.targets.water_pump
                == step.world.safety.targets.water_pump
            &&& !lapsed ==> step.action is Continue && step.next_world == step.world
                && step.next_session.phase == Phase::Freshness
        },
{
    reveal(StepTaken::taken);
    let s = step.session;
    if s.phase == Phase::StopNext || s.phase == Phase::FinalStopNext || s.phase
        == Phase::RetryStopNext {
        s.stop->0.at_most_five();
        if s.stop->0.outcomes().len() < 5 {
            guard::stop_set_stops_everything(
                s.stop->0.outcomes().len() as int,
                commands::sequence_later(
                    s.stop->0.first_sequence(),
                    s.stop->0.outcomes().len(),
                ),
                step.action->Write_0,
            );
        }
    }
    if s.phase == Phase::Lease && step.action is Write {
        commands::wheel_targets_keep_their_places(
            s.guard.next_sequence,
            0,
            0,
            true,
            step.action->Write_0,
        );
    }
}

/// How a session ends: after all five stop frames were attempted. If all were written, it
/// ends with the failure that it had, or well. If one was not, the stop set is sent once
/// more, and it ends with a failure in any case.
pub proof fn sessions_end_with_their_failure(step: StepTaken)
    requires
        step.taken(),
        step.session.wf(),
    ensures
        step.action matches Action::Finish(result) ==> {
            &&& step.session.phase == Phase::FinalStopNext || step.session.phase
                == Phase::RetryStopNext
            &&& step.next_session.phase == Phase::Closed
            &&& match step.session.failure {
                Some(e) => result == Err::<(), Error>(e),
                None => result is Ok,
            }
        },
        step.session.phase == Phase::FinalStopNext && step.session.stop->0.outcomes().len() == 5 ==> {
            let outcomes = step.session.stop->0.outcomes();
            let clean = forall|i: int| 0 <= i < 5 ==> (#[trigger] outcomes[i]) is None;
            &&& clean ==> step.action is Finish
            &&& !clean ==> step.next_session.phase == Phase::RetryStopNext
                && step.next_session.failure is Some && (step.next_session.stop matches Some(run)
                && run.outcomes().len() == 0 && run.first_sequence()
                == step.session.guard.next_sequence)
        },
        step.session.phase == Phase::RetryStopNext && step.session.stop->0.outcomes().len() == 5
            ==> step.action is Finish,
        step.session.phase == Phase::FinalStop ==> step.next_session.phase == Phase::FinalStopNext
            && (step.next_session.stop matches Some(run) && run.outcomes().len() == 0
            && run.first_sequence() == step.session.guard.next_sequence)
            && step.next_session.failure == step.session.failure,
        step.session.phase == Phase::Top && step.event == Event::Shutdown(true)
            && !step.session.startup_pending ==> step.next_session.phase == Phase::FinalStop
            && step.next_session.failure == step.session.failure,
{
    reveal(StepTaken::taken);
}

/// The order of a pass: commands, retries, the lease, the freshness of the safety
/// reports, the heartbeat, the synchronization, the end of the startup, and then the
/// bytes that came. Reports that are overdue end the session instead; heartbeats are told
/// by their decoded bytes, and the next is due a second after the start of the pass.
pub proof fn passes_keep_their_order(step: StepTaken)
    requires
        step.taken(),
        step.session.wf(),
    ensures
        step.session.phase == Phase::Top && step.event == Event::Shutdown(false)
            ==> step.next_session.phase == Phase::Commands && step.next_session.now == step.clock
            && step.action is AskCommand,
        step.session.phase != Phase::Top ==> step.next_session.now == step.session.now,
        step.session.phase == Phase::LeaseWriting && step.event is Written
            ==> step.next_session.phase == Phase::Freshness,
        step.session.phase == Phase::Freshness ==> {
            let late = step.session.safety_report_deadline matches Some(until) && step.session.now
                >= until;
            &&& late ==> step.next_session.phase == Phase::FinalStop && (
            step.next_session.failure matches Some(e) && e@ == ErrorView::Other(
                "S5 Max safety reports stale for more than 500ms"@,
            ))
            &&& !late ==> step.next_session.phase == Phase::Heartbeat
            &&& step.action is Continue && step.next_world == step.world
        },
        step.session.phase == Phase::Heartbeat ==> {
            let due = step.session.now >= step.session.next_heartbeat;
            &&& due ==> step.next_session.phase == Phase::HeartbeatWriting && (
            step.action matches Action::Write(wire) && commands::delivered(wire@) matches Some(sent)
                && sent.command == 0xd3 && !sent.wants_ack && sent.data == seq![0u8, 0, 0, 0]
                && sent.sequence == step.session.guard.next_sequence)
            &&& !due ==> step.next_session.phase == Phase::SyncRetry && step.action is Continue
        },
        step.session.phase == Phase::HeartbeatWriting && step.event is Written
            ==> step.next_session.phase == Phase::SyncRetry && step.next_session.next_heartbeat
            == step.session.now + 1_000_000_000,
        step.session.phase == Phase::SyncWriting && step.event is Written
            ==> step.next_session.phase == Phase::Exhausted,
        step.session.phase == Phase::Exhausted && !(step.action is Notify)
            ==> step.next_session.phase == Phase::Deadline,
        step.session.phase == Phase::Deadline && !(step.action is Notify)
            ==> step.next_session.phase == Phase::Polling && step.action is Poll,
        step.session.phase == Phase::Polling && (step.event matches Event::Polled(Ok(true)))
            ==> step.next_session.phase == Phase::Reading && step.action is Read,
        step.session.phase == Phase::Polling && (step.event matches Event::Polled(Ok(false)))
            ==> step.next_session.phase == Phase::Top && step.action is AskShutdown,
        step.session.phase == Phase::FrameNext && step.session.frame_at
            == step.session.frames@.len() ==> step.next_session.phase == Phase::Top
            && step.action is AskShutdown,
        step.session.phase == Phase::FrameStartup ==> step.next_session.phase == Phase::FrameNext
            && step.next_session.frame_at == step.session.frame_at + 1,
        step.session.phase == Phase::FrameAckWriting && step.event is Written
            ==> step.next_session.phase == Phase::FrameStartup,
{
    reveal(StepTaken::taken);
    assert(step.session.frame_at <= step.session.frames.len());
    if step.session.phase == Phase::Heartbeat && step.action is Write {
        commands::encoding_is_delivered(
            step.session.guard.next_sequence,
            commands::HEARTBEAT,
            false,
            seq![0u8, 0, 0, 0],
            step.action->Write_0,
        );
    }
}

/// The frames of a read are those of the bytes that waited followed by the bytes that
/// came, and what is left of them waits. Each frame's message and command are the first
/// bytes of its payload.
pub proof fn reads_become_frames(step: StepTaken, bytes: Vec<u8>, i: int)
    requires
        step.taken(),
        step.session.phase == Phase::Reading,
        step.event == Event::Received(Ok(bytes)),
    ensures
        ({
            let all = decoder::decoded(step.session.decoder.pending() + bytes@);
            &&& packet::frame_views(step.next_session.frames@) == all.0
            &&& step.next_session.decoder.pending() == all.1
            &&& step.next_session.phase == Phase::FrameNext && step.next_session.frame_at == 0
            &&& 0 <= i < step.next_session.frames@.len() ==> {
                let f = step.next_session.frames@[i]@;
                f.payload.len() >= 3 && f.message == f.payload[0] && f.command == f.payload[1]
            }
        }),
{
    reveal(StepTaken::taken);
    if 0 <= i < step.next_session.frames@.len() {
        let views = packet::frame_views(step.next_session.frames@);
        assert(views[i] == step.next_session.frames@[i]@);
        decoder::frames_tell_their_bytes(step.session.decoder.pending() + bytes@, i);
    }
}

/// A sound frame that asks for an acknowledgement, and repeats none, is remembered with
/// its sequence and its payload at the number of its frame; the frames are counted one by
/// one. A frame that asks for none is not remembered.
pub proof fn requests_are_remembered(step: StepTaken, f: FrameView)
    requires
        step.taken(),
        step.session.phase == Phase::FrameNext,
        step.session.frame_at < step.session.frames@.len(),
        f == step.session.frames@[step.session.frame_at as int]@,
        sound(f),
    ensures
        step.session.binary_frame_index < u32::MAX ==> step.next_session.binary_frame_index
            == step.session.binary_frame_index + 1,
        ({
            let asks = f.report_data(0xd0, 2) matches Some(d) && d[0] != 0;
            &&& asks && !seen_before(step.session, f) ==> step.next_session.recent@.len() > 0 && {
                let known = step.next_session.recent@.last();
                &&& known.sequence == f.report_data(0xd0, 2)->0[1]
                &&& known.payload == f.payload
                &&& known.frame_index == step.next_session.binary_frame_index
            }
            &&& !asks ==> step.next_session.recent@ == step.session.recent@ && !seen_before(
                step.session,
                f,
            )
            &&& seen_before(step.session, f) <==> asks && exists|i: int|
                0 <= i < step.session.recent@.len() && {
                    let known = #[trigger] step.session.recent@[i];
                    &&& known.sequence == f.report_data(0xd0, 2)->0[1]
                    &&& known.payload == f.payload
                    &&& step.next_session.binary_frame_index < known.frame_index + 128
                }
        }),
{
    reveal(StepTaken::taken);
    let s = step.session;
    if wanted_ack(f) is Some {
        acks::duplicate_means_known(
            s.recent@,
            request_of(f, next_index(s.binary_frame_index)),
        );
    }
}

} // verus!
