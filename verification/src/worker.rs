//! Worker threads: how they start, how a command gets to one, and what follows when
//! one fails.

use crate::acks;
use crate::error;
use crate::error::Error;
use crate::error::ErrorView;
use crate::guard::ActuatorCommand;
use crate::lifecycle;
use crate::lifecycle::DriverState;
use crate::lifecycle::Lifecycle;
use crate::session::World;
use crate::text::join;
use crate::text::join3;
use vstd::prelude::*;

verus! {

/// How many commands may wait for the MCU worker.
pub const COMMAND_QUEUE_CAPACITY: usize = 8;

/// How long a command may wait for its place in the queue, then for its answer, and
/// then for its acknowledgements, in milliseconds.
pub const COMMAND_TIMEOUT_MILLIS: u64 = 200;

/// How long the MCU worker may take to say how its startup went, in milliseconds.
pub const STARTUP_WAIT_MILLIS: u64 = 2_000;

#[derive(Debug, Clone, Copy, PartialEq, Eq, Structural)]
pub enum Worker {
    Mcu,
    Lds,
    Watchdog,
}

impl Worker {
    pub open spec fn text(self) -> Seq<char> {
        match self {
            Worker::Mcu => "MCU"@,
            Worker::Lds => "LDS"@,
            Worker::Watchdog => "watchdog"@,
        }
    }

    pub fn name(self) -> (name: &'static str)
        ensures
            name@ == self.text(),
    {
        match self {
            Worker::Mcu => "MCU",
            Worker::Lds => "LDS",
            Worker::Watchdog => "watchdog",
        }
    }
}

/// What is said of a worker whose thread could not be made; `why` are the words of
/// the operating system.
pub open spec fn not_spawned(worker: Worker, why: Seq<char>) -> ErrorView {
    ErrorView::Other("spawn S5 Max "@ + worker.text() + " worker: "@ + why)
}

pub fn spawn_failure(worker: Worker, why: &str) -> (error: Error)
    ensures
        error@ == not_spawned(worker, why@),
{
    let start = join3("spawn S5 Max ", worker.name(), " worker: ");
    Error::Other(join(start.as_str(), why))
}

/// The end of an MCU or LDS worker. One that failed puts the driver into the fault
/// state, and all other workers have to end too; the result says whether that is so.
pub fn worker_ended(lifecycle: &mut Lifecycle, worker: Worker, result: &Result<(), Error>, now: u64) -> (
shut_down: bool)
    ensures
        match *result {
            Ok(()) => !shut_down && *final(lifecycle) == *old(lifecycle),
            Err(e) => shut_down && lifecycle::faulted_with(
                *old(lifecycle),
                *final(lifecycle),
                worker.text() + " worker: "@ + e@.text(),
                now,
            ),
        },
        shut_down <==> *result is Err,
        *result is Err ==> final(lifecycle).state == DriverState::Fault,
        *result is Ok ==> final(lifecycle).state == old(lifecycle).state,
{
    match result {
        Ok(()) => false,
        Err(error) => {
            let reason = join3(worker.name(), " worker: ", error.message());
            lifecycle.fault(reason.as_str(), now);
            true
        },
    }
}

/// Where the start of the MCU worker stands.
#[derive(Debug, Clone, Copy, PartialEq, Eq, Structural)]
pub enum McuStartPhase {
    Opening,
    Spawning,
    Waiting,
    /// The startup failed, and the worker is being ended.
    Ending,
    Closed,
}

/// What came of what was asked for.
#[derive(Debug)]
pub enum McuStartEvent {
    /// The UART was opened, or not.
    Opened(Result<(), Error>),
    /// The thread was made; if not, the words of the operating system.
    Spawned(Result<(), String>),
    /// The worker said how its startup went.
    Told(Result<(), Error>),
    /// The worker said nothing; the words of the channel.
    Silent(String),
    /// The worker has ended.
    Joined,
}

/// What the start of the MCU worker asks for.
#[derive(Debug)]
pub enum McuStartRequest {
    OpenUart,
    Spawn,
    /// Wait until the worker says how its startup went, or the time is over.
    AwaitStartup,
    /// Tell all workers to end, and wait for this one.
    EndWorker,
    Finish(Result<(), Error>),
}

/// Starting the MCU worker.
#[derive(Debug)]
pub struct McuStart {
    pub phase: McuStartPhase,
    pub failure: Option<Error>,
}

/// The event answers what was asked for in this phase.
pub open spec fn answers_start(phase: McuStartPhase, event: McuStartEvent) -> bool {
    match phase {
        McuStartPhase::Opening => event is Opened,
        McuStartPhase::Spawning => event is Spawned,
        McuStartPhase::Waiting => event is Told || event is Silent,
        McuStartPhase::Ending => event is Joined,
        McuStartPhase::Closed => false,
    }
}

/// The start is over, with this failure.
pub open spec fn start_refused(s2: McuStart, request: McuStartRequest, e: ErrorView) -> bool {
    &&& s2 == (McuStart { phase: McuStartPhase::Closed, failure: None })
    &&& request matches McuStartRequest::Finish(result) && error::fails(result, e)
}

/// The worker has to end because of this failure.
pub open spec fn start_undone(s2: McuStart, request: McuStartRequest, e: ErrorView) -> bool {
    &&& s2.phase == McuStartPhase::Ending
    &&& s2.failure matches Some(f) && f@ == e
    &&& request is EndWorker
}

/// What one step of the start does.
pub open spec fn start_step(
    s: McuStart,
    event: McuStartEvent,
    s2: McuStart,
    request: McuStartRequest,
) -> bool {
    match event {
        McuStartEvent::Opened(Ok(())) => {
            &&& s2 == (McuStart { phase: McuStartPhase::Spawning, failure: None })
            &&& request is Spawn
        },
        McuStartEvent::Opened(Err(e)) => start_refused(s2, request, e@),
        McuStartEvent::Spawned(Ok(())) => {
            &&& s2 == (McuStart { phase: McuStartPhase::Waiting, failure: None })
            &&& request is AwaitStartup
        },
        McuStartEvent::Spawned(Err(why)) => start_refused(
            s2,
            request,
            not_spawned(Worker::Mcu, why@),
        ),
        McuStartEvent::Told(Ok(())) => {
            &&& s2 == (McuStart { phase: McuStartPhase::Closed, failure: None })
            &&& request == McuStartRequest::Finish(Ok(()))
        },
        McuStartEvent::Told(Err(e)) => start_undone(s2, request, e@),
        McuStartEvent::Silent(why) => start_undone(
            s2,
            request,
            ErrorView::Other("S5 Max MCU startup did not complete within 2000ms: "@ + why@),
        ),
        McuStartEvent::Joined => start_refused(s2, request, s.failure->0@),
    }
}

/// The start succeeds only if the worker said so, and a worker that was made but did
/// not start up is ended before the failure is reported.
pub proof fn no_worker_is_left_behind(
    s: McuStart,
    event: McuStartEvent,
    s2: McuStart,
    request: McuStartRequest,
)
    requires
        answers_start(s.phase, event),
        start_step(s, event, s2, request),
    ensures
        (request matches McuStartRequest::Finish(result) && result is Ok) <==> (
        event matches McuStartEvent::Told(told) && told is Ok),
        s.phase == McuStartPhase::Waiting && request !is EndWorker ==> (
        request matches McuStartRequest::Finish(result) && result is Ok),
        request is EndWorker ==> s2.phase == McuStartPhase::Ending,
{
}

impl McuStart {
    pub open spec fn wf(&self) -> bool {
        self.phase == McuStartPhase::Ending ==> self.failure is Some
    }

    pub fn begin() -> (started: (Self, McuStartRequest))
        ensures
            started.0 == (McuStart { phase: McuStartPhase::Opening, failure: None }),
            started.0.wf(),
            started.1 is OpenUart,
    {
        (McuStart { phase: McuStartPhase::Opening, failure: None }, McuStartRequest::OpenUart)
    }

    fn close(&mut self, result: Result<(), Error>) -> (request: McuStartRequest)
        ensures
            *final(self) == (McuStart { phase: McuStartPhase::Closed, failure: None }),
            request == McuStartRequest::Finish(result),
    {
        self.phase = McuStartPhase::Closed;
        self.failure = None;
        McuStartRequest::Finish(result)
    }

    fn undo(&mut self, error: Error) -> (request: McuStartRequest)
        ensures
            start_undone(*final(self), request, error@),
    {
        self.phase = McuStartPhase::Ending;
        self.failure = Some(error);
        McuStartRequest::EndWorker
    }

    /// Goes on after what came of the last request.
    pub fn step(&mut self, event: McuStartEvent) -> (request: McuStartRequest)
        requires
            old(self).wf(),
            answers_start(old(self).phase, event),
        ensures
            final(self).wf(),
            start_step(*old(self), event, *final(self), request),
    {
        match event {
            McuStartEvent::Opened(Ok(())) => {
                self.phase = McuStartPhase::Spawning;
                self.failure = None;
                McuStartRequest::Spawn
            },
            McuStartEvent::Opened(Err(error)) => self.close(Err(error)),
            McuStartEvent::Spawned(Ok(())) => {
                self.phase = McuStartPhase::Waiting;
                self.failure = None;
                McuStartRequest::AwaitStartup
            },
            McuStartEvent::Spawned(Err(why)) => self.close(
                Err(spawn_failure(Worker::Mcu, why.as_str())),
            ),
            McuStartEvent::Told(Ok(())) => self.close(Ok(())),
            McuStartEvent::Told(Err(error)) => self.undo(error),
            McuStartEvent::Silent(why) => self.undo(
                Error::Other(
                    join("S5 Max MCU startup did not complete within 2000ms: ", why.as_str()),
                ),
            ),
            McuStartEvent::Joined => {
                let mut failure: Option<Error> = None;
                std::mem::swap(&mut failure, &mut self.failure);
                match failure {
                    Some(error) => self.close(Err(error)),
                    None => self.close(Ok(())),
                }
            },
        }
    }
}

/// What came of handing a command to the MCU worker.
#[derive(Debug)]
pub enum ExecuteEvent {
    /// The command is in the queue; if not, the words of the channel.
    Queued(Result<(), String>),
    /// The worker answered; if not, the words of the channel.
    Answered(Result<Result<Vec<u8>, Error>, String>),
    /// All acknowledgements are there, or the time is over.
    Waited,
}

/// What a command to the MCU worker asks for.
#[derive(Debug)]
pub enum ExecuteRequest {
    /// Put this command into the queue.
    Queue(ActuatorCommand),
    /// Wait for the answer of the worker.
    AwaitAnswer,
    /// Wait until nothing more is expected for the sequences of this run.
    AwaitAcks,
    Finish(Result<(), Error>),
}

#[derive(Debug, Clone, Copy, PartialEq, Eq, Structural)]
pub enum ExecutePhase {
    Queueing,
    Answering,
    Acknowledging,
    Closed,
}

/// A command on its way to the MCU worker.
#[derive(Debug)]
pub struct ExecuteRun {
    pub phase: ExecutePhase,
    /// The sequences that the MCU has to acknowledge.
    pub sequences: Vec<u8>,
}

/// The event answers what was asked for in this phase.
pub open spec fn answers_execute(phase: ExecutePhase, event: ExecuteEvent) -> bool {
    match phase {
        ExecutePhase::Queueing => event is Queued,
        ExecutePhase::Answering => event is Answered,
        ExecutePhase::Acknowledging => event is Waited,
        ExecutePhase::Closed => false,
    }
}

/// The command is over, with this failure.
pub open spec fn execute_refused(r2: ExecuteRun, request: ExecuteRequest, e: ErrorView) -> bool {
    &&& r2.phase == ExecutePhase::Closed
    &&& request matches ExecuteRequest::Finish(result) && error::fails(result, e)
}

/// What one step of a command does.
pub open spec fn execute_step(
    r: ExecuteRun,
    w: World,
    event: ExecuteEvent,
    now: u64,
    r2: ExecuteRun,
    w2: World,
    request: ExecuteRequest,
) -> bool {
    match event {
        ExecuteEvent::Queued(Ok(())) => {
            &&& r2 == (ExecuteRun { phase: ExecutePhase::Answering, ..r })
            &&& w2 == w
            &&& request is AwaitAnswer
        },
        ExecuteEvent::Queued(Err(why)) => w2 == w && execute_refused(
            r2,
            request,
            ErrorView::Other("S5 Max MCU command queue: "@ + why@),
        ),
        ExecuteEvent::Answered(Ok(Ok(sequences))) => {
            &&& r2 == (ExecuteRun { phase: ExecutePhase::Acknowledging, sequences })
            &&& w2 == w
            &&& request is AwaitAcks
        },
        ExecuteEvent::Answered(Ok(Err(e))) => w2 == w && execute_refused(r2, request, e@),
        ExecuteEvent::Answered(Err(why)) => w2 == w && execute_refused(
            r2,
            request,
            ErrorView::Other("S5 Max MCU command timeout: "@ + why@),
        ),
        ExecuteEvent::Waited => {
            let missing = acks::unanswered(w.acks@, r.sequences@);
            &&& w2 == (World { acks: w2.acks, lifecycle: w2.lifecycle, ..w })
            &&& w2.acks@ == w.acks@.remove_keys(r.sequences@.to_set())
            &&& if missing.len() == 0 {
                &&& w2.lifecycle == w.lifecycle
                &&& r2.phase == ExecutePhase::Closed
                &&& request matches ExecuteRequest::Finish(result) && result is Ok
            } else {
                let said = acks::missing_error(missing);
                &&& lifecycle::faulted_with(w.lifecycle, w2.lifecycle, "MCU command: "@ + said, now)
                &&& execute_refused(r2, request, ErrorView::Other(said))
            }
        },
    }
}

/// A command that ends well was acknowledged in every frame that wants it; one that
/// ends for want of an acknowledgement leaves the driver in the fault state.
pub proof fn missing_acknowledgements_fault(
    r: ExecuteRun,
    w: World,
    now: u64,
    r2: ExecuteRun,
    w2: World,
    request: ExecuteRequest,
)
    requires
        execute_step(r, w, ExecuteEvent::Waited, now, r2, w2, request),
    ensures
        request is Finish,
        (request matches ExecuteRequest::Finish(result) && result is Ok) ==> forall|i: int|
            0 <= i < r.sequences@.len() ==> acks::answered(w.acks@, #[trigger] r.sequences@[i]),
        (request matches ExecuteRequest::Finish(result) && result is Err) ==> w2.lifecycle.state
            == DriverState::Fault,
{
    let p = |s: u8| !acks::answered(w.acks@, s);
    assert forall|i: int|
        0 <= i < r.sequences@.len() && acks::unanswered(w.acks@, r.sequences@).len()
            == 0 implies acks::answered(w.acks@, #[trigger] r.sequences@[i]) by {
        if p(r.sequences@[i]) {
            r.sequences@.lemma_filter_contains(p, i);
        }
    }
}

impl ExecuteRun {
    pub fn begin(command: ActuatorCommand) -> (started: (Self, ExecuteRequest))
        ensures
            started.0.phase == ExecutePhase::Queueing,
            started.0.sequences@ == Seq::<u8>::empty(),
            started.1 == ExecuteRequest::Queue(command),
    {
        let run = ExecuteRun { phase: ExecutePhase::Queueing, sequences: Vec::new() };
        (run, ExecuteRequest::Queue(command))
    }

    /// Goes on after what came of the last request. The command succeeds only once
    /// all sequences that the worker named were acknowledged. One that was not, in
    /// spite of all retries, puts the driver into the fault state.
    pub fn step(&mut self, world: &mut World, event: ExecuteEvent, now: u64) -> (request:
        ExecuteRequest)
        requires
            old(world).wf(),
            answers_execute(old(self).phase, event),
        ensures
            final(world).wf(),
            execute_step(
                *old(self),
                *old(world),
                event,
                now,
                *final(self),
                *final(world),
                request,
            ),
    {
        match event {
            ExecuteEvent::Queued(Ok(())) => {
                self.phase = ExecutePhase::Answering;
                ExecuteRequest::AwaitAnswer
            },
            ExecuteEvent::Queued(Err(why)) => {
                self.phase = ExecutePhase::Closed;
                ExecuteRequest::Finish(
                    Err(Error::Other(join("S5 Max MCU command queue: ", why.as_str()))),
                )
            },
            ExecuteEvent::Answered(Ok(Ok(sequences))) => {
                self.phase = ExecutePhase::Acknowledging;
                self.sequences = sequences;
                ExecuteRequest::AwaitAcks
            },
            ExecuteEvent::Answered(Ok(Err(error))) => {
                self.phase = ExecutePhase::Closed;
                ExecuteRequest::Finish(Err(error))
            },
            ExecuteEvent::Answered(Err(why)) => {
                self.phase = ExecutePhase::Closed;
                ExecuteRequest::Finish(
                    Err(Error::Other(join("S5 Max MCU command timeout: ", why.as_str()))),
                )
            },
            ExecuteEvent::Waited => {
                self.phase = ExecutePhase::Closed;
                let result = world.acks.wait_for_all(self.sequences.as_slice());
                if let Err(error) = &result {
                    let reason = join("MCU command: ", error.message());
                    world.lifecycle.fault(reason.as_str(), now);
                }
                ExecuteRequest::Finish(result)
            },
        }
    }
}

/// A start goes from the UART to the thread to the notice of the worker, and ends with the
/// failure that it met first: before there is a thread at once, after that when the worker
/// has ended.
pub proof fn starts_go_step_by_step(
    s: McuStart,
    event: McuStartEvent,
    s2: McuStart,
    request: McuStartRequest,
)
    requires
        s.wf(),
        answers_start(s.phase, event),
        start_step(s, event, s2, request),
    ensures
        event matches McuStartEvent::Opened(Ok(_)) ==> request is Spawn && s2.phase
            == McuStartPhase::Spawning,
        event matches McuStartEvent::Spawned(Ok(_)) ==> request is AwaitStartup && s2.phase
            == McuStartPhase::Waiting,
        event matches McuStartEvent::Opened(Err(e)) ==> (request matches McuStartRequest::Finish(Err(
            said,
        )) && said@ == e@) && s2.phase == McuStartPhase::Closed,
        event matches McuStartEvent::Spawned(Err(_)) ==> (request matches McuStartRequest::Finish(
            result,
        ) && result is Err) && s2.phase == McuStartPhase::Closed,
        event matches McuStartEvent::Told(Err(e)) ==> request is EndWorker && (
        s2.failure matches Some(kept) && kept@ == e@),
        event is Silent ==> request is EndWorker && s2.failure is Some,
        event is Joined ==> (request matches McuStartRequest::Finish(Err(said)) && said@
            == s.failure->0@) && s2.phase == McuStartPhase::Closed,
{
}

/// A command goes into the queue, is answered, and is then waited for by the sequences of
/// the answer. It ends well exactly where every one of these was acknowledged, and none of
/// them is waited for after that; nothing else that waits is touched.
pub proof fn commands_end_by_their_acknowledgements(
    r: ExecuteRun,
    w: World,
    event: ExecuteEvent,
    now: u64,
    r2: ExecuteRun,
    w2: World,
    request: ExecuteRequest,
)
    requires
        answers_execute(r.phase, event),
        execute_step(r, w, event, now, r2, w2, request),
    ensures
        event matches ExecuteEvent::Queued(Ok(_)) ==> request is AwaitAnswer && r2.phase
            == ExecutePhase::Answering && w2 == w,
        event matches ExecuteEvent::Answered(Ok(Ok(sequences))) ==> request is AwaitAcks
            && r2.sequences == sequences && r2.phase == ExecutePhase::Acknowledging && w2 == w,
        event matches ExecuteEvent::Answered(Ok(Err(e))) ==> (
        request matches ExecuteRequest::Finish(Err(said)) && said@ == e@) && w2 == w,
        event matches ExecuteEvent::Queued(Err(_)) ==> (request matches ExecuteRequest::Finish(
            result,
        ) && result is Err) && w2 == w,
        event matches ExecuteEvent::Answered(Err(_)) ==> (request matches ExecuteRequest::Finish(
            result,
        ) && result is Err) && w2 == w,
        event is Waited ==> {
            let all = forall|i: int|
                0 <= i < r.sequences@.len() ==> w.acks@.contains_key(#[trigger] r.sequences@[i])
                    && w.acks@[r.sequences@[i]].acknowledged;
            &&& request matches ExecuteRequest::Finish(result) && (result is Ok <==> all)
            &&& all ==> w2.lifecycle == w.lifecycle
            &&& !all ==> w2.lifecycle.state == DriverState::Fault
            &&& forall|i: int|
                0 <= i < r.sequences@.len() ==> !w2.acks@.contains_key(#[trigger] r.sequences@[i])
            &&& forall|other: u8|
                !r.sequences@.contains(other) && w.acks@.contains_key(other)
                    ==> w2.acks@.contains_key(other) && #[trigger] w2.acks@[other] == w.acks@[other]
            &&& w2.safety == w.safety && w2.sensors == w.sensors
        },
{
    if event is Waited {
        acks::nothing_missing_means_all_answered(w.acks@, r.sequences@);
        assert forall|i: int| 0 <= i < r.sequences@.len() implies !w2.acks@.contains_key(
            #[trigger] r.sequences@[i],
        ) by {
            assert(r.sequences@.to_set().contains(r.sequences@[i]));
        }
    }
}

} // verus!
