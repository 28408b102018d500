//! Acknowledgements in both directions: which reports were seen before, and which
//! commands still wait for an answer.
//!
//! Times are nanoseconds of a monotonic clock.

use crate::bytes::copy_range;
use crate::bytes::same_bytes;
use crate::error;
use crate::error::Error;
use crate::text;
use crate::text::hexadecimal_text;
use crate::text::join3;
use vstd::prelude::*;

verus! {

/// How long an answer may take before the command is sent again.
pub const ACK_TIMEOUT: u64 = 23_000_000;

/// How often a command is sent at most.
pub const MAX_SYNC_ATTEMPTS: u8 = 3;

/// For how many frames a report is remembered.
pub const ACK_DEDUP_WINDOW_FRAMES: u32 = 128;

/// A report that asked for an acknowledgement.
#[derive(Debug)]
pub struct RecentAckRequest {
    pub frame_index: u32,
    pub sequence: u8,
    pub payload: Vec<u8>,
}

/// What a [`RecentAckRequest`] holds.
pub struct AckRequestView {
    pub frame_index: u32,
    pub sequence: u8,
    pub payload: Seq<u8>,
}

impl View for RecentAckRequest {
    type V = AckRequestView;

    open spec fn view(&self) -> AckRequestView {
        AckRequestView {
            frame_index: self.frame_index,
            sequence: self.sequence,
            payload: self.payload@,
        }
    }
}

/// The request is still remembered when frame `frame_index` comes.
pub open spec fn remembered(frame_index: u32, request: AckRequestView) -> bool {
    frame_index - request.frame_index < ACK_DEDUP_WINDOW_FRAMES
}

/// A request is remembered for the 127 frames that follow it, and forgotten at the
/// 128th.
pub proof fn window_is_128_frames(frame_index: u32, request: AckRequestView)
    ensures
        remembered(frame_index, request) <==> frame_index < request.frame_index + 128,
{
}

/// The requests that are still remembered when frame `frame_index` comes.
pub open spec fn still_remembered(requests: Seq<AckRequestView>, frame_index: u32) -> Seq<
    AckRequestView,
> {
    requests.filter(|r: AckRequestView| remembered(frame_index, r))
}

/// One of the requests has this sequence and exactly this payload.
pub open spec fn repeats(requests: Seq<AckRequestView>, sequence: u8, payload: Seq<u8>) -> bool {
    exists|i: int|
        0 <= i < requests.len() && (#[trigger] requests[i]).sequence == sequence
            && requests[i].payload == payload
}

/// The request repeats one that is still remembered.
pub open spec fn duplicate(requests: Seq<AckRequestView>, request: AckRequestView) -> bool {
    repeats(
        still_remembered(requests, request.frame_index),
        request.sequence,
        request.payload,
    )
}

/// A request is a repetition exactly where one with the same sequence and payload is
/// known whose frame came fewer than 128 frames before.
pub proof fn duplicate_means_known(requests: Seq<AckRequestView>, request: AckRequestView)
    ensures
        duplicate(requests, request) <==> exists|i: int|
            0 <= i < requests.len() && {
                let known = #[trigger] requests[i];
                &&& known.sequence == request.sequence
                &&& known.payload == request.payload
                &&& request.frame_index < known.frame_index + 128
            },
{
    let kept = still_remembered(requests, request.frame_index);
    filtered_is_contained(requests, request.frame_index);
    if duplicate(requests, request) {
        let i = choose|i: int|
            0 <= i < kept.len() && (#[trigger] kept[i]).sequence == request.sequence
                && kept[i].payload == request.payload;
        assert(requests.contains(kept[i]));
        let k = choose|k: int| 0 <= k < requests.len() && requests[k] == kept[i];
        assert(requests[k].sequence == request.sequence);
    }
    if exists|i: int|
        0 <= i < requests.len() && {
            let known = #[trigger] requests[i];
            &&& known.sequence == request.sequence
            &&& known.payload == request.payload
            &&& request.frame_index < known.frame_index + 128
        } {
        let i = choose|i: int|
            0 <= i < requests.len() && {
                let known = #[trigger] requests[i];
                &&& known.sequence == request.sequence
                &&& known.payload == request.payload
                &&& request.frame_index < known.frame_index + 128
            };
        filter_keeps(requests, request.frame_index, requests[i]);
        let k = choose|k: int| 0 <= k < kept.len() && kept[k] == requests[i];
        assert(kept[k].sequence == request.sequence);
    }
}

/// What is remembered after one more request.
pub open spec fn after_request(
    requests: Seq<AckRequestView>,
    request: AckRequestView,
) -> Seq<AckRequestView> {
    let kept = still_remembered(requests, request.frame_index);
    if duplicate(requests, request) {
        kept
    } else {
        kept.push(request)
    }
}

/// What is remembered after several requests.
pub open spec fn after_requests(calls: Seq<AckRequestView>) -> Seq<AckRequestView>
    decreases calls.len(),
{
    if calls.len() == 0 {
        Seq::empty()
    } else {
        after_request(after_requests(calls.drop_last()), calls.last())
    }
}

proof fn filtered_is_contained(requests: Seq<AckRequestView>, frame_index: u32)
    ensures
        forall|i: int|
            0 <= i < still_remembered(requests, frame_index).len() ==> requests.contains(
                #[trigger] still_remembered(requests, frame_index)[i],
            ) && remembered(frame_index, still_remembered(requests, frame_index)[i]),
{
    let p = |r: AckRequestView| remembered(frame_index, r);
    let kept = still_remembered(requests, frame_index);
    assert forall|i: int| 0 <= i < kept.len() implies requests.contains(#[trigger] kept[i])
        && remembered(frame_index, kept[i]) by {
        requests.lemma_filter_contains_rev(p, kept[i]);
        requests.lemma_filter_pred(p, i);
    }
}

proof fn remembered_is_from_call(calls: Seq<AckRequestView>)
    ensures
        forall|i: int|
            0 <= i < after_requests(calls).len() ==> calls.contains(
                #[trigger] after_requests(calls)[i],
            ),
    decreases calls.len(),
{
    if calls.len() > 0 {
        let front = calls.drop_last();
        let before = after_requests(front);
        remembered_is_from_call(front);
        filtered_is_contained(before, calls.last().frame_index);
        let kept = still_remembered(before, calls.last().frame_index);
        let now = after_requests(calls);
        assert forall|i: int| 0 <= i < now.len() implies calls.contains(#[trigger] now[i]) by {
            if i < kept.len() {
                assert(now[i] == kept[i]);
                assert(before.contains(kept[i]));
                let j = choose|j: int| 0 <= j < before.len() && before[j] == kept[i];
                assert(front.contains(before[j]));
                let k = choose|k: int| 0 <= k < front.len() && front[k] == before[j];
                assert(calls[k] == kept[i]);
            } else {
                assert(calls[calls.len() - 1] == now[i]);
            }
        }
    }
}

/// Only an exact repetition within the window counts as a duplicate: an earlier
/// request had the same sequence and the same payload, fewer than 128 frames ago.
pub proof fn duplicates_are_exact(calls: Seq<AckRequestView>, request: AckRequestView)
    requires
        duplicate(after_requests(calls), request),
    ensures
        exists|i: int|
            #![trigger calls[i]]
            0 <= i < calls.len() && calls[i].sequence == request.sequence && calls[i].payload
                == request.payload && remembered(request.frame_index, calls[i]),
{
    let before = after_requests(calls);
    let kept = still_remembered(before, request.frame_index);
    let i = choose|i: int|
        0 <= i < kept.len() && (#[trigger] kept[i]).sequence == request.sequence && kept[i].payload
            == request.payload;
    filtered_is_contained(before, request.frame_index);
    assert(before.contains(kept[i]));
    let j = choose|j: int| 0 <= j < before.len() && before[j] == kept[i];
    remembered_is_from_call(calls);
    assert(calls.contains(before[j]));
    let k = choose|k: int| 0 <= k < calls.len() && calls[k] == before[j];
    assert(calls[k] == kept[i]);
}

proof fn filter_keeps(requests: Seq<AckRequestView>, frame_index: u32, r: AckRequestView)
    requires
        requests.contains(r),
        remembered(frame_index, r),
    ensures
        still_remembered(requests, frame_index).contains(r),
{
    let p = |r: AckRequestView| remembered(frame_index, r);
    let i = choose|i: int| 0 <= i < requests.len() && requests[i] == r;
    requests.lemma_filter_contains(p, i);
}

/// A request that was new stays known for 128 frames, whatever comes in between:
/// as long as no frame in between lies 128 frames after it, its repetition is
/// recognized.
pub proof fn repetitions_are_recognized(
    before: Seq<AckRequestView>,
    first: AckRequestView,
    between: Seq<AckRequestView>,
    again: AckRequestView,
)
    requires
        !duplicate(after_requests(before), first),
        forall|i: int| 0 <= i < between.len() ==> remembered((#[trigger] between[i]).frame_index, first),
        remembered(again.frame_index, first),
        again.sequence == first.sequence,
        again.payload == first.payload,
    ensures
        duplicate(after_requests(before.push(first) + between), again),
{
    stays_remembered(before, first, between);
    let all = after_requests(before.push(first) + between);
    filter_keeps(all, again.frame_index, first);
    let kept = still_remembered(all, again.frame_index);
    let i = choose|i: int| 0 <= i < kept.len() && kept[i] == first;
    assert(kept[i].sequence == again.sequence);
}

proof fn stays_remembered(
    before: Seq<AckRequestView>,
    first: AckRequestView,
    between: Seq<AckRequestView>,
)
    requires
        !duplicate(after_requests(before), first),
        forall|i: int| 0 <= i < between.len() ==> remembered((#[trigger] between[i]).frame_index, first),
    ensures
        after_requests(before.push(first) + between).contains(first),
    decreases between.len(),
{
    let calls = before.push(first) + between;
    if between.len() == 0 {
        assert(calls =~= before.push(first));
        assert(calls.drop_last() =~= before);
        let kept = still_remembered(after_requests(before), first.frame_index);
        assert(after_requests(calls) == kept.push(first));
        assert(kept.push(first)[kept.len() as int] == first);
    } else {
        let front = between.drop_last();
        assert forall|i: int| 0 <= i < front.len() implies remembered(
            (#[trigger] front[i]).frame_index,
            first,
        ) by {
            assert(between[i] == front[i]);
        }
        stays_remembered(before, first, front);
        assert(calls.drop_last() =~= before.push(first) + front);
        assert(calls.last() == between[between.len() - 1]);
        let known = after_requests(before.push(first) + front);
        filter_keeps(known, calls.last().frame_index, first);
        let kept = still_remembered(known, calls.last().frame_index);
        let i = choose|i: int| 0 <= i < kept.len() && kept[i] == first;
        if !duplicate(known, calls.last()) {
            assert(kept.push(calls.last())[i] == first);
        }
    }
}

/// What each of several requests holds.
pub open spec fn request_views(requests: Seq<RecentAckRequest>) -> Seq<AckRequestView> {
    requests.map_values(|r: RecentAckRequest| r@)
}

/// Remembers recent reports that asked for an acknowledgement.
#[derive(Debug)]
pub struct RecentAckRequests {
    entries: Vec<RecentAckRequest>,
}

impl View for RecentAckRequests {
    type V = Seq<AckRequestView>;

    closed spec fn view(&self) -> Seq<AckRequestView> {
        request_views(self.entries@)
    }
}

impl Default for RecentAckRequests {
    fn default() -> (requests: Self)
        ensures
            requests@ == Seq::<AckRequestView>::empty(),
    {
        RecentAckRequests::new()
    }
}

impl RecentAckRequests {
    pub fn new() -> (requests: Self)
        ensures
            requests@ == Seq::<AckRequestView>::empty(),
    {
        let requests = RecentAckRequests { entries: Vec::new() };
        assert(requests@ =~= Seq::<AckRequestView>::empty());
        requests
    }

    /// Forgets the requests that are too old.
    fn forget_old(&mut self, frame_index: u32)
        ensures
            final(self)@ == still_remembered(old(self)@, frame_index),
    {
        let ghost all = self@;
        let ghost p = |r: AckRequestView| remembered(frame_index, r);
        let ghost mut done: int = 0;
        let mut i: usize = 0;
        assert(all.take(0).filter(p) =~= Seq::<AckRequestView>::empty()) by {
            all.take(0).lemma_filter_len(p);
        }
        assert(all.take(0).filter(p) + all.skip(0) =~= all);
        while i < self.entries.len()
            invariant
                0 <= done <= all.len(),
                p == (|r: AckRequestView| remembered(frame_index, r)),
                i <= self.entries@.len(),
                all.take(done).filter(p).len() == i,
                self@ == all.take(done).filter(p) + all.skip(done),
            decreases self.entries@.len() - i,
        {
            let ghost kept = all.take(done).filter(p);
            let ghost entries = self.entries@;
            let stale = frame_index > self.entries[i].frame_index && frame_index
                - self.entries[i].frame_index >= ACK_DEDUP_WINDOW_FRAMES;
            proof {
                assert(self@.len() == entries.len());
                assert(self@[i as int] == all.skip(done)[0]);
                let next = all[done];
                assert(self.entries@[i as int]@ == next);
                assert(all.take(done + 1) =~= all.take(done).push(next));
                assert(all.take(done + 1).drop_last() =~= all.take(done));
                reveal(Seq::filter);
                assert(all.take(done + 1).filter(p) == (if p(next) {
                    kept.push(next)
                } else {
                    kept
                }));
            }
            if stale {
                let _old = self.entries.remove(i);
                assert(self@ =~= kept + all.skip(done + 1)) by {
                    assert(self.entries@ =~= entries.remove(i as int));
                    assert(self@ =~= request_views(entries).remove(i as int));
                }
            } else {
                i += 1;
                assert(kept.push(all[done]) + all.skip(done + 1) =~= kept + all.skip(done));
            }
            proof {
                done = done + 1;
            }
        }
        assert(all.take(done) =~= all) by {
            assert(self@.len() == all.take(done).filter(p).len() + all.skip(done).len());
        }
        assert(self@ =~= still_remembered(all, frame_index));
    }

    /// Whether a report was seen before, within the window. If not, it is
    /// remembered from now on.
    pub fn is_duplicate(&mut self, frame_index: u32, sequence: u8, payload: &[u8]) -> (seen: bool)
        ensures
            seen == duplicate(old(self)@, AckRequestView { frame_index, sequence, payload: payload@ }),
            final(self)@ == after_request(
                old(self)@,
                AckRequestView { frame_index, sequence, payload: payload@ },
            ),
    {
        self.forget_old(frame_index);
        let ghost kept = self@;
        let mut i: usize = 0;
        while i < self.entries.len()
            invariant
                i <= self.entries@.len(),
                self@ == kept,
                kept == still_remembered(old(self)@, frame_index),
                forall|j: int|
                    0 <= j < i ==> !((#[trigger] kept[j]).sequence == sequence && kept[j].payload
                        == payload@),
            decreases self.entries@.len() - i,
        {
            assert(kept[i as int] == self.entries@[i as int]@);
            if self.entries[i].sequence == sequence && same_bytes(
                self.entries[i].payload.as_slice(),
                payload,
            ) {
                return true;
            }
            i += 1;
        }
        assert(kept.len() == self.entries@.len());
        let copy = copy_range(payload, 0, payload.len());
        assert(copy@ =~= payload@);
        self.entries.push(RecentAckRequest { frame_index, sequence, payload: copy });
        assert(self@ =~= kept.push(AckRequestView { frame_index, sequence, payload: payload@ }));
        false
    }
}

/// The attempts at one command that waits for an answer.
#[derive(Debug)]
pub struct AckRetryWindow {
    pub attempts: u8,
    pub next_retry: u64,
}

impl AckRetryWindow {
    /// It was sent once at least, and not too often.
    pub open spec fn wf(&self) -> bool {
        1 <= self.attempts <= MAX_SYNC_ATTEMPTS
    }

    /// Another attempt is due.
    pub open spec fn retry_due(&self, now: u64) -> bool {
        now >= self.next_retry && self.attempts < MAX_SYNC_ATTEMPTS
    }

    pub fn after_initial_send(now: u64) -> (window: Self)
        requires
            now + ACK_TIMEOUT <= u64::MAX,
        ensures
            window.wf(),
            window == (AckRetryWindow { attempts: 1, next_retry: (now + ACK_TIMEOUT) as u64 }),
    {
        AckRetryWindow { attempts: 1, next_retry: now + ACK_TIMEOUT }
    }

    /// Takes another attempt, where one is due.
    pub fn take_retry(&mut self, now: u64) -> (taken: bool)
        requires
            now + ACK_TIMEOUT <= u64::MAX,
        ensures
            old(self).wf() ==> final(self).wf(),
            taken == old(self).retry_due(now),
            *final(self) == (if taken {
                AckRetryWindow {
                    attempts: (old(self).attempts + 1) as u8,
                    next_retry: (now + ACK_TIMEOUT) as u64,
                }
            } else {
                *old(self)
            }),
    {
        if now < self.next_retry || self.attempts >= MAX_SYNC_ATTEMPTS {
            return false;
        }
        self.attempts += 1;
        self.next_retry = now + ACK_TIMEOUT;
        true
    }

    /// Whether the last attempt went unanswered too.
    pub fn exhausted(&self, now: u64) -> (yes: bool)
        ensures
            yes == (self.attempts == MAX_SYNC_ATTEMPTS && now >= self.next_retry),
    {
        self.attempts == MAX_SYNC_ATTEMPTS && now >= self.next_retry
    }
}

/// A command that waits for its acknowledgement.
#[derive(Debug)]
pub struct CommandAckState {
    pub acknowledged: bool,
    pub frame: Vec<u8>,
    pub attempts: u8,
    pub next_retry: u64,
}

/// What a [`CommandAckState`] holds.
pub struct CommandAckView {
    pub acknowledged: bool,
    pub frame: Seq<u8>,
    pub attempts: u8,
    pub next_retry: u64,
}

impl View for CommandAckState {
    type V = CommandAckView;

    open spec fn view(&self) -> CommandAckView {
        CommandAckView {
            acknowledged: self.acknowledged,
            frame: self.frame@,
            attempts: self.attempts,
            next_retry: self.next_retry,
        }
    }
}

impl CommandAckView {
    /// The command was just sent for the first time.
    pub open spec fn first_sent(frame: Seq<u8>, now: u64) -> Self {
        CommandAckView {
            acknowledged: false,
            frame,
            attempts: 1,
            next_retry: (now + ACK_TIMEOUT) as u64,
        }
    }

    /// The command is due to be sent again.
    pub open spec fn due(self, now: u64) -> bool {
        !self.acknowledged && self.attempts < MAX_SYNC_ATTEMPTS && now >= self.next_retry
    }

    /// The state at `now`, once what is due was sent again.
    pub open spec fn retried(self, now: u64) -> Self {
        if self.due(now) {
            CommandAckView {
                attempts: (self.attempts + 1) as u8,
                next_retry: (now + ACK_TIMEOUT) as u64,
                ..self
            }
        } else {
            self
        }
    }
}

/// A command is sent again exactly where no acknowledgement came, it was sent fewer than
/// three times, and its time is up; it then counts one attempt more, and its time is up
/// again 23 ms later. Its frame never changes.
pub proof fn retries_keep_their_times(state: CommandAckView, frame: Seq<u8>, now: u64)
    requires
        now + 23_000_000 <= u64::MAX,
    ensures
        state.due(now) <==> !state.acknowledged && state.attempts < 3 && state.next_retry <= now,
        state.due(now) ==> state.retried(now).attempts == state.attempts + 1 && state.retried(
            now,
        ).next_retry == now + 23_000_000,
        !state.due(now) ==> state.retried(now) == state,
        state.retried(now).frame == state.frame,
        state.retried(now).acknowledged == state.acknowledged,
        CommandAckView::first_sent(frame, now).next_retry == now + 23_000_000,
        CommandAckView::first_sent(frame, now).attempts == 1,
        CommandAckView::first_sent(frame, now).frame == frame,
        !CommandAckView::first_sent(frame, now).acknowledged,
{
}

/// One command sent again: its sequence, its frame, and which attempt this is.
pub struct RetryView {
    pub sequence: u8,
    pub frame: Seq<u8>,
    pub attempt: u8,
}

/// The commands below sequence `bound` that are due at `now`, by growing sequence.
pub open spec fn due_below(
    waiting: Map<u8, CommandAckView>,
    now: u64,
    bound: nat,
) -> Seq<RetryView>
    decreases bound,
{
    if bound == 0 {
        Seq::empty()
    } else {
        let before = due_below(waiting, now, (bound - 1) as nat);
        let sequence = (bound - 1) as u8;
        if waiting.contains_key(sequence) && waiting[sequence].due(now) {
            before.push(
                RetryView {
                    sequence,
                    frame: waiting[sequence].frame,
                    attempt: (waiting[sequence].attempts + 1) as u8,
                },
            )
        } else {
            before
        }
    }
}

/// What waits after all that is due at `now` was sent again.
pub open spec fn after_retries(waiting: Map<u8, CommandAckView>, now: u64) -> Map<
    u8,
    CommandAckView,
> {
    waiting.map_values(|state: CommandAckView| state.retried(now))
}

/// What holds of every command that waits: it was sent once at least, and three
/// times at most.
pub open spec fn attempts_in_bounds(waiting: Map<u8, CommandAckView>) -> bool {
    forall|sequence: u8| #[trigger]
        waiting.contains_key(sequence) ==> 1 <= waiting[sequence].attempts <= MAX_SYNC_ATTEMPTS
}

/// Whatever is done with the commands that wait, none is sent more than three times.
pub proof fn attempts_stay_in_bounds(
    waiting: Map<u8, CommandAckView>,
    sequence: u8,
    frame: Seq<u8>,
    sequences: Seq<u8>,
    now: u64,
)
    requires
        attempts_in_bounds(waiting),
    ensures
        attempts_in_bounds(waiting.insert(sequence, CommandAckView::first_sent(frame, now))),
        attempts_in_bounds(waiting.remove(sequence)),
        waiting.contains_key(sequence) ==> attempts_in_bounds(
            waiting.insert(
                sequence,
                CommandAckView { acknowledged: true, ..waiting[sequence] },
            ),
        ),
        attempts_in_bounds(after_retries(waiting, now)),
        attempts_in_bounds(waiting.remove_keys(sequences.to_set())),
{
}

/// Exactly the commands that are due are sent again, each once, with its own frame
/// and sequence, and as its second or third attempt.
pub proof fn retries_are_bounded(waiting: Map<u8, CommandAckView>, now: u64, bound: nat)
    requires
        attempts_in_bounds(waiting),
        bound <= 256,
    ensures
        ({
            let list = due_below(waiting, now, bound);
            &&& forall|i: int|
                0 <= i < list.len() ==> {
                    let r = #[trigger] list[i];
                    &&& r.sequence < bound
                    &&& waiting.contains_key(r.sequence)
                    &&& waiting[r.sequence].due(now)
                    &&& r.frame == waiting[r.sequence].frame
                    &&& r.attempt == waiting[r.sequence].attempts + 1
                    &&& 2 <= r.attempt <= MAX_SYNC_ATTEMPTS
                }
            &&& forall|i: int, j: int|
                0 <= i < j < list.len() ==> (#[trigger] list[i]).sequence < (
                #[trigger] list[j]).sequence
            &&& forall|sequence: u8|
                sequence < bound && #[trigger] waiting.contains_key(sequence)
                    && waiting[sequence].due(now) ==> exists|i: int|
                    0 <= i < list.len() && (#[trigger] list[i]).sequence == sequence
        }),
        attempts_in_bounds(after_retries(waiting, now)),
    decreases bound,
{
    if bound > 0 {
        retries_are_bounded(waiting, now, (bound - 1) as nat);
        let before = due_below(waiting, now, (bound - 1) as nat);
        let list = due_below(waiting, now, bound);
        let last = (bound - 1) as u8;
        assert forall|sequence: u8|
            sequence < bound && #[trigger] waiting.contains_key(sequence) && waiting[sequence].due(
                now,
            ) implies exists|i: int|
            0 <= i < list.len() && (#[trigger] list[i]).sequence == sequence by {
            if sequence == last {
                assert(list[list.len() - 1].sequence == sequence);
            } else {
                let i = choose|i: int|
                    0 <= i < before.len() && (#[trigger] before[i]).sequence == sequence;
                assert(list[i].sequence == sequence);
            }
        }
    }
}

/// The state after `rounds` rounds of retries at these times, without an answer.
pub open spec fn retried_at(state: CommandAckView, times: Seq<u64>) -> CommandAckView
    decreases times.len(),
{
    if times.len() == 0 {
        state
    } else {
        retried_at(state, times.drop_last()).retried(times.last())
    }
}

/// How often a command was sent again at these times.
pub open spec fn sent_again(state: CommandAckView, times: Seq<u64>) -> nat
    decreases times.len(),
{
    if times.len() == 0 {
        0
    } else {
        sent_again(state, times.drop_last()) + (if retried_at(state, times.drop_last()).due(
            times.last(),
        ) {
            1nat
        } else {
            0nat
        })
    }
}

/// However often the clock is looked at, a command is sent three times at most, and
/// always with the same frame.
pub proof fn three_attempts_at_most(frame: Seq<u8>, start: u64, times: Seq<u64>)
    ensures
        ({
            let state = CommandAckView::first_sent(frame, start);
            &&& 1 + sent_again(state, times) == retried_at(state, times).attempts
            &&& retried_at(state, times).attempts <= MAX_SYNC_ATTEMPTS
            &&& retried_at(state, times).frame == frame
        }),
    decreases times.len(),
{
    if times.len() > 0 {
        three_attempts_at_most(frame, start, times.drop_last());
    }
}

/// A command that was acknowledged is not sent again, and stays acknowledged.
pub proof fn acknowledged_is_settled(state: CommandAckView, times: Seq<u64>)
    requires
        state.acknowledged,
    ensures
        sent_again(state, times) == 0,
        retried_at(state, times) == state,
    decreases times.len(),
{
    if times.len() > 0 {
        acknowledged_is_settled(state, times.drop_last());
    }
}

/// One use of the tracker.
pub enum TrackerCall {
    Expect { sequence: u8, frame: Seq<u8>, now: u64 },
    Cancel(u8),
    Acknowledge(u8),
    TakeDueRetries(u64),
    WaitForAll(Seq<u8>),
}

impl TrackerCall {
    /// The command with this sequence goes on waiting: it is neither expected anew nor
    /// given up.
    pub open spec fn keeps(self, sequence: u8) -> bool {
        match self {
            TrackerCall::Expect { sequence: other, .. } => other != sequence,
            TrackerCall::Cancel(other) => other != sequence,
            TrackerCall::Acknowledge(_) => true,
            TrackerCall::TakeDueRetries(now) => now + ACK_TIMEOUT <= u64::MAX,
            TrackerCall::WaitForAll(sequences) => !sequences.contains(sequence),
        }
    }
}

/// What waits after one use of the tracker.
pub open spec fn after_call(waiting: Map<u8, CommandAckView>, call: TrackerCall) -> Map<
    u8,
    CommandAckView,
> {
    match call {
        TrackerCall::Expect { sequence, frame, now } => waiting.insert(
            sequence,
            CommandAckView::first_sent(frame, now),
        ),
        TrackerCall::Cancel(sequence) => waiting.remove(sequence),
        TrackerCall::Acknowledge(sequence) => if waiting.contains_key(sequence) {
            waiting.insert(
                sequence,
                CommandAckView { acknowledged: true, ..waiting[sequence] },
            )
        } else {
            waiting
        },
        TrackerCall::TakeDueRetries(now) => after_retries(waiting, now),
        TrackerCall::WaitForAll(sequences) => waiting.remove_keys(sequences.to_set()),
    }
}

/// What waits after several uses of the tracker.
pub open spec fn after_calls(waiting: Map<u8, CommandAckView>, calls: Seq<TrackerCall>) -> Map<
    u8,
    CommandAckView,
>
    decreases calls.len(),
{
    if calls.len() == 0 {
        waiting
    } else {
        after_call(after_calls(waiting, calls.drop_last()), calls.last())
    }
}

/// The command with this sequence is among the retries.
pub open spec fn retries_have(retries: Seq<RetryView>, sequence: u8) -> bool {
    exists|i: int| 0 <= i < retries.len() && (#[trigger] retries[i]).sequence == sequence
}

/// How often the uses of the tracker returned the command as a retry, and when they
/// did so last; `start` is when it was first sent.
pub open spec fn returned(
    waiting: Map<u8, CommandAckView>,
    calls: Seq<TrackerCall>,
    sequence: u8,
    start: u64,
) -> (nat, u64)
    decreases calls.len(),
{
    if calls.len() == 0 {
        (0, start)
    } else {
        let before = returned(waiting, calls.drop_last(), sequence, start);
        match calls.last() {
            TrackerCall::TakeDueRetries(now) => if retries_have(
                due_below(after_calls(waiting, calls.drop_last()), now, 256),
                sequence,
            ) {
                (before.0 + 1, now)
            } else {
                before
            },
            _ => before,
        }
    }
}

/// One of the uses was the acknowledgement of this sequence.
pub open spec fn acknowledged_by(calls: Seq<TrackerCall>, sequence: u8) -> bool {
    exists|i: int| 0 <= i < calls.len() && #[trigger] calls[i] == TrackerCall::Acknowledge(sequence)
}

/// A command is among the retries exactly where it is due.
proof fn due_membership(waiting: Map<u8, CommandAckView>, now: u64, bound: nat, sequence: u8)
    requires
        bound <= 256,
    ensures
        ({
            let list = due_below(waiting, now, bound);
            &&& retries_have(list, sequence) <==> sequence < bound && waiting.contains_key(sequence)
                && waiting[sequence].due(now)
            &&& forall|i: int|
                0 <= i < list.len() && (#[trigger] list[i]).sequence == sequence ==> list[i].frame
                    == waiting[sequence].frame && list[i].attempt == waiting[sequence].attempts + 1
        }),
    decreases bound,
{
    if bound > 0 {
        due_membership(waiting, now, (bound - 1) as nat, sequence);
        let before = due_below(waiting, now, (bound - 1) as nat);
        let list = due_below(waiting, now, bound);
        if retries_have(before, sequence) {
            let i = choose|i: int|
                0 <= i < before.len() && (#[trigger] before[i]).sequence == sequence;
            assert(list[i].sequence == sequence);
        }
        if list.len() > before.len() {
            assert(list[before.len() as int].sequence == bound - 1);
        }
        if retries_have(list, sequence) {
            let i = choose|i: int|
                0 <= i < list.len() && (#[trigger] list[i]).sequence == sequence;
            if i < before.len() {
                assert(before[i].sequence == sequence);
            }
        }
        assert forall|i: int|
            0 <= i < list.len() && (#[trigger] list[i]).sequence == sequence implies list[i].frame
            == waiting[sequence].frame && list[i].attempt == waiting[sequence].attempts + 1 by {
            if i < before.len() {
                assert(before[i] == list[i]);
            }
        }
    }
}

/// The state of a command that goes on waiting, told by what happened since it was
/// first sent.
proof fn waiting_tells_history(
    waiting: Map<u8, CommandAckView>,
    sequence: u8,
    frame: Seq<u8>,
    start: u64,
    calls: Seq<TrackerCall>,
)
    requires
        start + ACK_TIMEOUT <= u64::MAX,
        forall|i: int| 0 <= i < calls.len() ==> (#[trigger] calls[i]).keeps(sequence),
    ensures
        ({
            let sent = waiting.insert(sequence, CommandAckView::first_sent(frame, start));
            let now_waiting = after_calls(sent, calls);
            let (times, last) = returned(sent, calls, sequence, start);
            &&& now_waiting.contains_key(sequence)
            &&& now_waiting[sequence].acknowledged == acknowledged_by(calls, sequence)
            &&& now_waiting[sequence].frame == frame
            &&& now_waiting[sequence].attempts == 1 + times
            &&& times <= 2
            &&& now_waiting[sequence].next_retry == last + ACK_TIMEOUT
            &&& last + ACK_TIMEOUT <= u64::MAX
        }),
    decreases calls.len(),
{
    if calls.len() > 0 {
        let sent = waiting.insert(sequence, CommandAckView::first_sent(frame, start));
        let front = calls.drop_last();
        let last = calls.last();
        assert forall|i: int| 0 <= i < front.len() implies (#[trigger] front[i]).keeps(
            sequence,
        ) by {
            assert(calls[i].keeps(sequence));
        }
        waiting_tells_history(waiting, sequence, frame, start, front);
        assert(calls[calls.len() - 1].keeps(sequence));
        assert(acknowledged_by(calls, sequence) == (acknowledged_by(front, sequence) || last
            == TrackerCall::Acknowledge(sequence))) by {
            if acknowledged_by(front, sequence) {
                let i = choose|i: int|
                    0 <= i < front.len() && #[trigger] front[i] == TrackerCall::Acknowledge(
                        sequence,
                    );
                assert(calls[i] == TrackerCall::Acknowledge(sequence));
            }
            if last == TrackerCall::Acknowledge(sequence) {
                assert(calls[calls.len() - 1] == TrackerCall::Acknowledge(sequence));
            }
            if acknowledged_by(calls, sequence) {
                let i = choose|i: int|
                    0 <= i < calls.len() && #[trigger] calls[i] == TrackerCall::Acknowledge(
                        sequence,
                    );
                if i < front.len() {
                    assert(front[i] == TrackerCall::Acknowledge(sequence));
                }
            }
        }
        match last {
            TrackerCall::TakeDueRetries(now) => {
                due_membership(after_calls(sent, front), now, 256, sequence);
            },
            _ => {},
        }
    }
}

/// A command that was sent at `start`, and that was neither expected anew nor given up
/// since, is among the retries at `now` exactly where it was not acknowledged, was sent
/// again less than twice, and was last sent 23 ms ago or longer. It then comes with its
/// own frame, as the second attempt the first time and as the third one after that.
/// What else the tracker was used for does not matter.
pub proof fn retries_follow_the_history(
    waiting: Map<u8, CommandAckView>,
    sequence: u8,
    frame: Seq<u8>,
    start: u64,
    calls: Seq<TrackerCall>,
    now: u64,
)
    requires
        start + ACK_TIMEOUT <= u64::MAX,
        forall|i: int| 0 <= i < calls.len() ==> (#[trigger] calls[i]).keeps(sequence),
    ensures
        ({
            let sent = after_call(waiting, TrackerCall::Expect { sequence, frame, now: start });
            let retries = due_below(after_calls(sent, calls), now, 256);
            let (times, last) = returned(sent, calls, sequence, start);
            &&& retries_have(retries, sequence) <==> !acknowledged_by(calls, sequence) && times < 2
                && now >= last + ACK_TIMEOUT
            &&& forall|i: int|
                0 <= i < retries.len() && (#[trigger] retries[i]).sequence == sequence
                    ==> retries[i] == (RetryView { sequence, frame, attempt: (2 + times) as u8 })
            &&& times <= 2
        }),
{
    let sent = waiting.insert(sequence, CommandAckView::first_sent(frame, start));
    waiting_tells_history(waiting, sequence, frame, start, calls);
    due_membership(after_calls(sent, calls), now, 256, sequence);
    let retries = due_below(after_calls(sent, calls), now, 256);
    let (times, last) = returned(sent, calls, sequence, start);
    assert forall|i: int|
        0 <= i < retries.len() && (#[trigger] retries[i]).sequence == sequence implies retries[i]
        == (RetryView { sequence, frame, attempt: (2 + times) as u8 }) by {
        assert(retries_have(retries, sequence));
        assert(retries[i].attempt == 2 + times);
    }
}

/// The command with this sequence was acknowledged.
pub open spec fn answered(waiting: Map<u8, CommandAckView>, sequence: u8) -> bool {
    waiting.contains_key(sequence) && waiting[sequence].acknowledged
}

/// The sequences that no acknowledgement came for, in order.
pub open spec fn unanswered(waiting: Map<u8, CommandAckView>, sequences: Seq<u8>) -> Seq<u8> {
    sequences.filter(|s: u8| !answered(waiting, s))
}

/// No sequence is missing exactly where every one of them was acknowledged; and what is
/// missing is some of what was asked for.
pub proof fn nothing_missing_means_all_answered(
    waiting: Map<u8, CommandAckView>,
    sequences: Seq<u8>,
)
    ensures
        unanswered(waiting, sequences).len() == 0 <==> forall|i: int|
            0 <= i < sequences.len() ==> waiting.contains_key(#[trigger] sequences[i])
                && waiting[sequences[i]].acknowledged,
        forall|i: int|
            0 <= i < unanswered(waiting, sequences).len() ==> {
                let s = #[trigger] unanswered(waiting, sequences)[i];
                sequences.contains(s) && !(waiting.contains_key(s) && waiting[s].acknowledged)
            },
{
    let p = |s: u8| !answered(waiting, s);
    let missing = unanswered(waiting, sequences);
    assert forall|i: int| 0 <= i < missing.len() implies {
        let s = #[trigger] missing[i];
        sequences.contains(s) && !(waiting.contains_key(s) && waiting[s].acknowledged)
    } by {
        sequences.lemma_filter_contains_rev(p, missing[i]);
        sequences.lemma_filter_pred(p, i);
    }
    if missing.len() == 0 {
        assert forall|i: int| 0 <= i < sequences.len() implies waiting.contains_key(
            #[trigger] sequences[i],
        ) && waiting[sequences[i]].acknowledged by {
            if p(sequences[i]) {
                sequences.lemma_filter_contains(p, i);
            }
        }
    } else {
        let s = missing[0];
        let i = choose|i: int| 0 <= i < sequences.len() && sequences[i] == s;
        assert(sequences[i] == s);
    }
}

/// A command that was acknowledged is never returned as a retry, at any time, and a wait
/// for acknowledged commands ends well.
pub proof fn acknowledged_commands_rest(
    waiting: Map<u8, CommandAckView>,
    sequence: u8,
    now: u64,
)
    requires
        waiting.contains_key(sequence),
        waiting[sequence].acknowledged,
    ensures
        !retries_have(due_below(waiting, now, 256), sequence),
        unanswered(waiting, seq![sequence]).len() == 0,
{
    due_membership(waiting, now, 256, sequence);
    nothing_missing_means_all_answered(waiting, seq![sequence]);
}

/// Two-digit hexadecimal numbers with commas between them.
pub open spec fn hex_list(sequences: Seq<u8>) -> Seq<char>
    decreases sequences.len(),
{
    if sequences.len() == 0 {
        Seq::empty()
    } else if sequences.len() == 1 {
        text::hexadecimal(sequences[0] as nat, 2)
    } else {
        hex_list(sequences.drop_last()) + ", "@ + text::hexadecimal(sequences.last() as nat, 2)
    }
}

/// What is said of sequences that no acknowledgement came for.
pub open spec fn missing_error(missing: Seq<u8>) -> Seq<char> {
    "MCU command ACK timeout; missing sequences ["@ + hex_list(missing) + "]"@
}

/// Writes two-digit hexadecimal numbers with commas between them.
fn hex_list_text(sequences: &Vec<u8>) -> (list: String)
    ensures
        list@ == hex_list(sequences@),
{
    let mut list = String::new();
    let mut i: usize = 0;
    while i < sequences.len()
        invariant
            i <= sequences@.len(),
            list@ == hex_list(sequences@.take(i as int)),
        decreases sequences@.len() - i,
    {
        let number = hexadecimal_text(sequences[i] as u64, 2);
        assert(sequences@.take(i + 1).drop_last() =~= sequences@.take(i as int));
        if i == 0 {
            list = number;
        } else {
            list = join3(list.as_str(), ", ", number.as_str());
        }
        i += 1;
    }
    assert(sequences@.take(i as int) =~= sequences@);
    list
}

/// Tracks which commands wait for an acknowledgement.
#[derive(Debug)]
pub struct CommandAckTracker {
    slots: Vec<Option<CommandAckState>>,
}

impl View for CommandAckTracker {
    type V = Map<u8, CommandAckView>;

    closed spec fn view(&self) -> Map<u8, CommandAckView> {
        Map::new(
            |sequence: u8| self.slots@[sequence as int] is Some,
            |sequence: u8| self.slots@[sequence as int]->0@,
        )
    }
}

impl Default for CommandAckTracker {
    fn default() -> (tracker: Self)
        ensures
            tracker.wf(),
            tracker@ == Map::<u8, CommandAckView>::empty(),
    {
        CommandAckTracker::new()
    }
}

impl CommandAckTracker {
    pub closed spec fn wf(&self) -> bool {
        self.slots@.len() == 256
    }

    pub fn new() -> (tracker: Self)
        ensures
            tracker.wf(),
            tracker@ == Map::<u8, CommandAckView>::empty(),
    {
        let mut slots: Vec<Option<CommandAckState>> = Vec::new();
        let mut i: usize = 0;
        while i < 256
            invariant
                i <= 256,
                slots@.len() == i,
                forall|j: int| 0 <= j < i ==> (#[trigger] slots@[j]) is None,
            decreases 256 - i,
        {
            slots.push(None);
            i += 1;
        }
        let tracker = CommandAckTracker { slots };
        assert(tracker@ =~= Map::<u8, CommandAckView>::empty());
        tracker
    }

    /// From now on the command with this sequence waits for an acknowledgement.
    pub fn expect(&mut self, sequence: u8, frame: &[u8], now: u64)
        requires
            old(self).wf(),
            now + ACK_TIMEOUT <= u64::MAX,
        ensures
            final(self).wf(),
            final(self)@ == old(self)@.insert(sequence, CommandAckView::first_sent(frame@, now)),
    {
        let copy = copy_range(frame, 0, frame.len());
        assert(copy@ =~= frame@);
        let state = CommandAckState {
            acknowledged: false,
            frame: copy,
            attempts: 1,
            next_retry: now + ACK_TIMEOUT,
        };
        self.slots[sequence as usize] = Some(state);
        assert(self@ =~= old(self)@.insert(sequence, CommandAckView::first_sent(frame@, now)));
    }

    /// Nothing is expected for this sequence any more.
    pub fn cancel(&mut self, sequence: u8)
        requires
            old(self).wf(),
        ensures
            final(self).wf(),
            final(self)@ == old(self)@.remove(sequence),
    {
        self.slots[sequence as usize] = None;
        assert(self@ =~= old(self)@.remove(sequence));
    }

    /// An acknowledgement came. One that nothing waits for changes nothing.
    pub fn acknowledge(&mut self, sequence: u8)
        requires
            old(self).wf(),
        ensures
            final(self).wf(),
            final(self)@ == (if old(self)@.contains_key(sequence) {
                old(self)@.insert(
                    sequence,
                    CommandAckView { acknowledged: true, ..old(self)@[sequence] },
                )
            } else {
                old(self)@
            }),
    {
        let mut slot: Option<CommandAckState> = None;
        std::mem::swap(&mut slot, &mut self.slots[sequence as usize]);
        match slot {
            Some(state) => {
                let mut state = state;
                state.acknowledged = true;
                self.slots[sequence as usize] = Some(state);
            },
            None => {},
        }
        assert(self@ =~= (if old(self)@.contains_key(sequence) {
            old(self)@.insert(
                sequence,
                CommandAckView { acknowledged: true, ..old(self)@[sequence] },
            )
        } else {
            old(self)@
        }));
    }

    /// The commands that are due to be sent again, by growing sequence.
    pub fn take_due_retries(&mut self, now: u64) -> (retries: Vec<(u8, Vec<u8>, u8)>)
        requires
            old(self).wf(),
            now + ACK_TIMEOUT <= u64::MAX,
        ensures
            final(self).wf(),
            final(self)@ == after_retries(old(self)@, now),
            retries@.map_values(
                |r: (u8, Vec<u8>, u8)| RetryView { sequence: r.0, frame: r.1@, attempt: r.2 },
            ) == due_below(old(self)@, now, 256),
    {
        let ghost waiting = self@;
        let ghost view = |r: (u8, Vec<u8>, u8)|
            RetryView { sequence: r.0, frame: r.1@, attempt: r.2 };
        let mut retries: Vec<(u8, Vec<u8>, u8)> = Vec::new();
        let mut i: usize = 0;
        assert(retries@.map_values(view) =~= Seq::<RetryView>::empty());
        while i < 256
            invariant
                i <= 256,
                self.wf(),
                now + ACK_TIMEOUT <= u64::MAX,
                waiting == old(self)@,
                view == (|r: (u8, Vec<u8>, u8)|
                    RetryView { sequence: r.0, frame: r.1@, attempt: r.2 }),
                forall|s: u8|
                    s >= i ==> self.slots@[s as int] == #[trigger] old(self).slots@[s as int],
                forall|s: u8|
                    s < i ==> self@.contains_key(s) == #[trigger] waiting.contains_key(s) && (
                    waiting.contains_key(s) ==> self@[s] == waiting[s].retried(now)),
                retries@.map_values(view) == due_below(waiting, now, i as nat),
            decreases 256 - i,
        {
            let ghost before = self@;
            let ghost sent = retries@;
            let ghost s = i as u8;
            assert(self.slots@[s as int] == old(self).slots@[s as int]);
            assert(before.contains_key(s) == waiting.contains_key(s));
            let mut slot: Option<CommandAckState> = None;
            std::mem::swap(&mut slot, &mut self.slots[i]);
            match slot {
                Some(state) => {
                    let mut state = state;
                    assert(waiting[s] == state@);
                    if !state.acknowledged && state.attempts < MAX_SYNC_ATTEMPTS && now
                        >= state.next_retry {
                        state.attempts += 1;
                        state.next_retry = now + ACK_TIMEOUT;
                        let frame = copy_range(state.frame.as_slice(), 0, state.frame.len());
                        assert(frame@ =~= state.frame@);
                        retries.push((i as u8, frame, state.attempts));
                        assert(retries@.map_values(view) =~= sent.map_values(view).push(
                            view(retries@.last()),
                        ));
                    }
                    self.slots[i] = Some(state);
                },
                None => {},
            }
            proof {
                assert forall|k: u8| k < i + 1 implies self@.contains_key(k)
                    == #[trigger] waiting.contains_key(k) && (waiting.contains_key(k) ==> self@[k]
                    == waiting[k].retried(now)) by {
                    if k < i {
                        assert(before.contains_key(k) == waiting.contains_key(k));
                        assert(self@.contains_key(k) == before.contains_key(k));
                        if waiting.contains_key(k) {
                            assert(self@[k] == before[k]);
                        }
                    }
                }
            }
            i += 1;
        }
        proof {
            assert(self@ =~= after_retries(waiting, now)) by {
                assert forall|s: u8| self@.contains_key(s) == #[trigger] waiting.contains_key(
                    s,
                ) by {}
            }
        }
        retries
    }

    /// Whether any of the sequences still lacks its acknowledgement.
    pub fn still_waiting(&self, sequences: &[u8]) -> (waiting: bool)
        requires
            self.wf(),
        ensures
            waiting == (exists|i: int|
                0 <= i < sequences@.len() && !answered(self@, #[trigger] sequences@[i])),
    {
        let mut i: usize = 0;
        while i < sequences.len()
            invariant
                self.wf(),
                i <= sequences@.len(),
                forall|j: int| 0 <= j < i ==> answered(self@, #[trigger] sequences@[j]),
            decreases sequences@.len() - i,
        {
            if !self.is_answered(sequences[i]) {
                assert(!answered(self@, sequences@[i as int]));
                return true;
            }
            i += 1;
        }
        false
    }

    fn is_answered(&self, sequence: u8) -> (yes: bool)
        requires
            self.wf(),
        ensures
            yes == answered(self@, sequence),
    {
        match &self.slots[sequence as usize] {
            Some(state) => state.acknowledged,
            None => false,
        }
    }

    /// The end of a wait for these sequences: it fails, naming them, if some of them
    /// were not acknowledged. Nothing is expected for any of them afterwards.
    pub fn wait_for_all(&mut self, sequences: &[u8]) -> (result: Result<(), Error>)
        requires
            old(self).wf(),
        ensures
            final(self).wf(),
            final(self)@ == old(self)@.remove_keys(sequences@.to_set()),
            if unanswered(old(self)@, sequences@).len() == 0 {
                result is Ok
            } else {
                error::fails_saying(result, missing_error(unanswered(old(self)@, sequences@)))
            },
    {
        let ghost waiting = self@;
        let ghost p = |s: u8| !answered(waiting, s);
        let mut missing: Vec<u8> = Vec::new();
        let mut i: usize = 0;
        assert(sequences@.take(0).filter(p) =~= Seq::<u8>::empty()) by {
            sequences@.take(0).lemma_filter_len(p);
        }
        while i < sequences.len()
            invariant
                self.wf(),
                self@ == waiting,
                p == (|s: u8| !answered(waiting, s)),
                i <= sequences@.len(),
                missing@ == sequences@.take(i as int).filter(p),
            decreases sequences@.len() - i,
        {
            proof {
                assert(sequences@.take(i + 1).drop_last() =~= sequences@.take(i as int));
                reveal(Seq::filter);
            }
            if !self.is_answered(sequences[i]) {
                missing.push(sequences[i]);
            }
            i += 1;
        }
        assert(sequences@.take(i as int) =~= sequences@);
        let mut k: usize = 0;
        assert(self@ =~= waiting.remove_keys(sequences@.take(0).to_set()));
        while k < sequences.len()
            invariant
                self.wf(),
                k <= sequences@.len(),
                self@ == waiting.remove_keys(sequences@.take(k as int).to_set()),
            decreases sequences@.len() - k,
        {
            let ghost done = sequences@.take(k as int);
            self.cancel(sequences[k]);
            proof {
                let more = sequences@.take(k + 1);
                assert(more =~= done.push(sequences@[k as int]));
                assert(self@ =~= waiting.remove_keys(more.to_set())) by {
                    assert forall|s: u8| #[trigger]
                        more.to_set().contains(s) == (done.to_set().contains(s) || s
                            == sequences@[k as int]) by {
                        if done.contains(s) {
                            let j = choose|j: int| 0 <= j < done.len() && done[j] == s;
                            assert(more[j] == s);
                        }
                        if s == sequences@[k as int] {
                            assert(more[k as int] == s);
                        }
                        if more.contains(s) && s != sequences@[k as int] {
                            let j = choose|j: int| 0 <= j < more.len() && more[j] == s;
                            assert(done[j] == s);
                        }
                    }
                }
            }
            k += 1;
        }
        assert(sequences@.take(k as int) =~= sequences@);
        if missing.len() == 0 {
            Ok(())
        } else {
            let list = hex_list_text(&missing);
            Err(
                Error::Other(
                    join3("MCU command ACK timeout; missing sequences [", list.as_str(), "]"),
                ),
            )
        }
    }
}

} // verus!
