//! Who owns the devices, and how a frame gets through a UART.
//!
//! Times are nanoseconds of a monotonic clock.

use crate::error;
use crate::error::Error;
use crate::error::ErrorView;
use crate::text;
use crate::text::decimal_text;
use crate::text::join;
use crate::text::join3;
use crate::text::parse_i32;
use crate::text::same_text;
use crate::text::short_hexadecimal_text;
use crate::text::signed_text;
use crate::text::trim;
use vstd::prelude::*;
use vstd::string::*;

verus! {

/// How long the UART may refuse to take more of a frame.
pub const WRITE_TIMEOUT: u64 = 100_000_000;

/// A process that holds a device open.
#[derive(Debug, PartialEq, Eq)]
pub struct DeviceOwner {
    pub pid: i32,
    pub fd: i32,
    pub process: String,
    pub device: String,
}

/// What a [`DeviceOwner`] says.
pub struct OwnerView {
    pub pid: i32,
    pub fd: i32,
    pub process: Seq<char>,
    pub device: Seq<char>,
}

impl View for DeviceOwner {
    type V = OwnerView;

    open spec fn view(&self) -> OwnerView {
        OwnerView {
            pid: self.pid,
            fd: self.fd,
            process: self.process@,
            device: self.device@,
        }
    }
}

/// What each of several owners says.
pub open spec fn owner_views(owners: Seq<DeviceOwner>) -> Seq<OwnerView> {
    owners.map_values(|o: DeviceOwner| o@)
}

/// `a` comes before `b`, or stands at the same place: by process, then by descriptor.
pub open spec fn not_after(a: OwnerView, b: OwnerView) -> bool {
    a.pid < b.pid || (a.pid == b.pid && a.fd <= b.fd)
}

/// The number that the name of a directory entry writes: a process, or a descriptor.
pub fn entry_number(name: &str) -> (number: Option<i32>)
    ensures
        match text::bounded_number(name.spec_bytes(), i32::MIN as int, i32::MAX as int) {
            Some(n) => number matches Some(x) && x == n,
            None => number is None,
        },
{
    parse_i32(name.as_bytes())
}

/// The name of a process, given what its name file holds.
pub fn process_name(file: Option<&str>) -> (name: String)
    ensures
        name@ == (match file {
            Some(content) => text::trimmed_end(text::trimmed_start(content@)),
            None => "unknown"@,
        }),
{
    match file {
        Some(content) => trim(content),
        None => "unknown".to_string(),
    }
}

/// The device is one of those selected.
pub open spec fn selected(device: Seq<char>, devices: Seq<Seq<char>>) -> bool {
    exists|i: int| 0 <= i < devices.len() && #[trigger] devices[i] == device
}

/// Whether a device is one of those selected.
pub fn is_selected(device: &str, devices: &Vec<String>) -> (yes: bool)
    ensures
        yes == selected(device@, text::texts(devices@)),
{
    let mut i: usize = 0;
    while i < devices.len()
        invariant
            i <= devices@.len(),
            forall|j: int| 0 <= j < i ==> #[trigger] text::texts(devices@)[j] != device@,
        decreases devices@.len() - i,
    {
        assert(text::texts(devices@)[i as int] == devices@[i as int]@);
        if same_text(devices[i].as_str(), device) {
            return true;
        }
        i += 1;
    }
    false
}

/// How many of the owners do not come after `owner`, counted from the start.
pub open spec fn place(owners: Seq<OwnerView>, owner: OwnerView) -> nat
    decreases owners.len(),
{
    if owners.len() == 0 {
        0
    } else if not_after(owners.last(), owner) {
        owners.len()
    } else {
        place(owners.drop_last(), owner)
    }
}

/// `owners` with one more in its place, behind those that stand at the same place.
pub open spec fn placed(owners: Seq<OwnerView>, owner: OwnerView) -> Seq<OwnerView> {
    owners.insert(place(owners, owner) as int, owner)
}

/// The owners of selected devices, by process and descriptor; where these are equal,
/// as they came.
pub open spec fn ordered(found: Seq<OwnerView>, devices: Seq<Seq<char>>) -> Seq<OwnerView>
    decreases found.len(),
{
    if found.len() == 0 {
        Seq::empty()
    } else {
        let before = ordered(found.drop_last(), devices);
        if selected(found.last().device, devices) {
            placed(before, found.last())
        } else {
            before
        }
    }
}

/// Each one does not come after the next.
pub open spec fn in_order(owners: Seq<OwnerView>) -> bool {
    forall|i: int, j: int|
        0 <= i < j < owners.len() ==> not_after(#[trigger] owners[i], #[trigger] owners[j])
}

proof fn place_bounds(owners: Seq<OwnerView>, owner: OwnerView)
    requires
        in_order(owners),
    ensures
        place(owners, owner) <= owners.len(),
        forall|i: int|
            0 <= i < place(owners, owner) ==> not_after(#[trigger] owners[i], owner),
        forall|i: int|
            place(owners, owner) <= i < owners.len() ==> !not_after(#[trigger] owners[i], owner),
    decreases owners.len(),
{
    if owners.len() > 0 {
        let front = owners.drop_last();
        assert(in_order(front)) by {
            assert forall|i: int, j: int| 0 <= i < j < front.len() implies not_after(
                #[trigger] front[i],
                #[trigger] front[j],
            ) by {
                assert(not_after(owners[i], owners[j]));
            }
        }
        place_bounds(front, owner);
        let last = owners[owners.len() - 1];
        if not_after(last, owner) {
            assert forall|i: int| 0 <= i < owners.len() implies not_after(
                #[trigger] owners[i],
                owner,
            ) by {
                if i < owners.len() - 1 {
                    assert(not_after(owners[i], last));
                }
            }
        } else {
            assert forall|i: int| 0 <= i < place(owners, owner) implies not_after(
                #[trigger] owners[i],
                owner,
            ) by {
                assert(front[i] == owners[i]);
            }
            assert forall|i: int| place(owners, owner) <= i < owners.len() implies !not_after(
                #[trigger] owners[i],
                owner,
            ) by {
                if i < owners.len() - 1 {
                    assert(front[i] == owners[i]);
                }
            }
        }
    }
}

/// Owners come by process and descriptor, and every owner of a selected device, and no
/// other, is among them.
pub proof fn owners_are_ordered(found: Seq<OwnerView>, devices: Seq<Seq<char>>)
    ensures
        in_order(ordered(found, devices)),
        ordered(found, devices).to_multiset() == found.filter(
            |o: OwnerView| selected(o.device, devices),
        ).to_multiset(),
    decreases found.len(),
{
    let p = |o: OwnerView| selected(o.device, devices);
    reveal(Seq::filter);
    if found.len() > 0 {
        let front = found.drop_last();
        let last = found.last();
        owners_are_ordered(front, devices);
        let before = ordered(front, devices);
        if selected(last.device, devices) {
            place_bounds(before, last);
            let at = place(before, last) as int;
            let after = before.insert(at, last);
            assert(in_order(after)) by {
                assert forall|i: int, j: int| 0 <= i < j < after.len() implies not_after(
                    #[trigger] after[i],
                    #[trigger] after[j],
                ) by {
                    let i0 = if i < at {
                        i
                    } else {
                        i - 1
                    };
                    let j0 = if j < at {
                        j
                    } else {
                        j - 1
                    };
                    if i == at {
                        assert(!not_after(before[j0], last));
                    } else if j == at {
                        assert(not_after(before[i0], last));
                    } else {
                        assert(not_after(before[i0], before[j0]));
                    }
                }
            }
            vstd::seq_lib::to_multiset_insert(before, at, last);
            let kept = front.filter(p);
            assert(found.filter(p) == kept.push(last));
            kept.to_multiset_ensures();
        } else {
            assert(found.filter(p) == front.filter(p));
        }
    } else {
        assert(found.filter(p) =~= Seq::<OwnerView>::empty());
    }
}

/// The owner has this process and descriptor.
pub open spec fn at_place(owner: OwnerView, pid: i32, fd: i32) -> bool {
    owner.pid == pid && owner.fd == fd
}

/// Owners with the same process and descriptor stay in the order in which they came.
pub proof fn owners_keep_their_order(
    found: Seq<OwnerView>,
    devices: Seq<Seq<char>>,
    pid: i32,
    fd: i32,
)
    ensures
        ordered(found, devices).filter(|o: OwnerView| at_place(o, pid, fd)) == found.filter(
            |o: OwnerView| selected(o.device, devices) && at_place(o, pid, fd),
        ),
    decreases found.len(),
{
    let p = |o: OwnerView| at_place(o, pid, fd);
    let q = |o: OwnerView| selected(o.device, devices) && at_place(o, pid, fd);
    reveal(Seq::filter);
    if found.len() > 0 {
        let front = found.drop_last();
        let last = found.last();
        owners_keep_their_order(front, devices, pid, fd);
        owners_are_ordered(front, devices);
        let before = ordered(front, devices);
        if selected(last.device, devices) {
            place_bounds(before, last);
            let at = place(before, last) as int;
            let left = before.take(at);
            let right = before.skip(at);
            let one = seq![last];
            assert(before =~= left + right);
            assert(placed(before, last) =~= left + one + right);
            Seq::filter_distributes_over_add(left, right, p);
            Seq::filter_distributes_over_add(left + one, right, p);
            Seq::filter_distributes_over_add(left, one, p);
            assert(one.drop_last() =~= Seq::<OwnerView>::empty());
            reveal_with_fuel(Seq::filter, 2);
            assert(one.filter(p) =~= (if p(last) {
                one
            } else {
                Seq::empty()
            }));
            if p(last) {
                assert(right.filter(p).len() == 0) by {
                    if right.filter(p).len() > 0 {
                        let x = right.filter(p)[0];
                        right.lemma_filter_pred(p, 0);
                        right.lemma_filter_contains_rev(p, x);
                        assert(right.contains(x));
                        let i = choose|i: int| 0 <= i < right.len() && right[i] == x;
                        assert(before[at + i] == x);
                        assert(!not_after(before[at + i], last));
                    }
                }
                assert(placed(before, last).filter(p) =~= before.filter(p).push(last));
            } else {
                assert(placed(before, last).filter(p) =~= before.filter(p));
            }
        }
    }
}

/// The owners of selected devices, in order.
pub fn select_owners(found: Vec<DeviceOwner>, devices: &Vec<String>) -> (owners: Vec<DeviceOwner>)
    ensures
        owner_views(owners@) == ordered(owner_views(found@), text::texts(devices@)),
{
    let ghost all = owner_views(found@);
    let ghost names = text::texts(devices@);
    let mut rest = found;
    let mut owners: Vec<DeviceOwner> = Vec::new();
    let ghost mut done: int = 0;
    assert(owner_views(owners@) =~= Seq::<OwnerView>::empty());
    assert(all.skip(0) =~= all);
    while rest.len() > 0
        invariant
            0 <= done <= all.len(),
            names == text::texts(devices@),
            owner_views(rest@) == all.skip(done),
            owner_views(owners@) == ordered(all.take(done), names),
        decreases rest@.len(),
    {
        let ghost left = rest@;
        let owner = rest.remove(0);
        proof {
            assert(owner@ == owner_views(left)[0]);
            assert(owner_views(left).len() == all.len() - done);
            assert(owner@ == all[done]);
            assert(owner_views(rest@) =~= all.skip(done + 1)) by {
                assert(rest@ =~= left.remove(0));
                assert(owner_views(left.remove(0)) =~= owner_views(left).skip(1));
                assert(all.skip(done).skip(1) =~= all.skip(done + 1));
            }
            assert(all.take(done + 1).drop_last() =~= all.take(done));
            assert(all.take(done + 1).last() == owner@);
        }
        if is_selected(owner.device.as_str(), devices) {
            let ghost before = owners@;
            let mut at: usize = owners.len();
            assert(owner_views(owners@).take(at as int) =~= owner_views(owners@));
            while at > 0 && !(owners[at - 1].pid < owner.pid || (owners[at - 1].pid == owner.pid
                && owners[at - 1].fd <= owner.fd))
                invariant
                    at <= owners@.len(),
                    owners@ == before,
                    place(owner_views(before), owner@) == place(
                        owner_views(before).take(at as int),
                        owner@,
                    ),
                decreases at,
            {
                assert(owner_views(before).take(at as int).drop_last() =~= owner_views(
                    before,
                ).take(at - 1));
                assert(owner_views(before).take(at as int).last() == before[at - 1]@);
                at -= 1;
            }
            proof {
                if at > 0 {
                    assert(owner_views(before).take(at as int).last() == before[at - 1]@);
                }
                assert(place(owner_views(before), owner@) == at);
            }
            let ghost view = owner@;
            owners.insert(at, owner);
            assert(owner_views(owners@) =~= owner_views(before).insert(at as int, view));
        }
        proof {
            done = done + 1;
        }
    }
    assert(all.take(done) =~= all);
    owners
}

/// One owner, in words.
pub open spec fn owner_text(owner: OwnerView) -> Seq<char> {
    "pid="@ + text::signed_decimal(owner.pid as int) + " process="@ + owner.process + " fd="@
        + text::signed_decimal(owner.fd as int) + " device="@ + owner.device
}

/// All owners, in words.
pub open spec fn owners_text(owners: Seq<OwnerView>) -> Seq<char>
    decreases owners.len(),
{
    if owners.len() == 0 {
        Seq::empty()
    } else if owners.len() == 1 {
        owner_text(owners[0])
    } else {
        owners_text(owners.drop_last()) + "; "@ + owner_text(owners.last())
    }
}

fn describe_owner(owner: &DeviceOwner) -> (text: String)
    ensures
        text@ == owner_text(owner@),
{
    let pid = signed_text(owner.pid as i64);
    let fd = signed_text(owner.fd as i64);
    let start = join3("pid=", pid.as_str(), " process=");
    let middle = join3(start.as_str(), owner.process.as_str(), " fd=");
    let end = join3(middle.as_str(), fd.as_str(), " device=");
    join(end.as_str(), owner.device.as_str())
}

/// Fails, naming the owners, if there are any.
pub fn ensure_devices_unowned(owners: &Vec<DeviceOwner>) -> (result: Result<(), Error>)
    ensures
        if owners@.len() == 0 {
            result is Ok
        } else {
            error::fails_saying(
                result,
                "S5 Max hardware is already owned: "@ + owners_text(owner_views(owners@)),
            )
        },
{
    if owners.len() == 0 {
        return Ok(());
    }
    let ghost all = owner_views(owners@);
    let mut list = String::new();
    let mut i: usize = 0;
    while i < owners.len()
        invariant
            i <= owners@.len(),
            all == owner_views(owners@),
            list@ == owners_text(all.take(i as int)),
        decreases owners@.len() - i,
    {
        let this = describe_owner(&owners[i]);
        assert(all.take(i + 1).drop_last() =~= all.take(i as int));
        assert(all.take(i + 1).last() == owners@[i as int]@);
        if i == 0 {
            list = this;
        } else {
            list = join3(list.as_str(), "; ", this.as_str());
        }
        i += 1;
    }
    assert(all.take(i as int) =~= all);
    Err(Error::Other(join("S5 Max hardware is already owned: ", list.as_str())))
}

/// Whether there are bytes to be read, after a poll that did not fail: `events` is
/// what it returned, `terminal` that the line is broken, `readable` that bytes are
/// there.
pub fn poll_outcome(path: &str, any: bool, events: u16, terminal: bool, readable: bool) -> (result:
    Result<bool, Error>)
    ensures
        if terminal {
            error::fails_saying(
                result,
                "poll "@ + path@ + " terminal revents=0x"@ + text::short_hexadecimal(events as nat),
            )
        } else {
            result == Ok::<bool, Error>(any && readable)
        },
{
    if terminal {
        let code = short_hexadecimal_text(events as u64);
        let start = join3("poll ", path, " terminal revents=0x");
        return Err(Error::Other(join(start.as_str(), code.as_str())));
    }
    Ok(any && readable)
}

/// What came of an attempt to write.
#[derive(Debug)]
pub enum WriteEvent {
    /// This many bytes were taken.
    Taken(usize),
    /// A signal came in between.
    Interrupted,
    /// The UART takes nothing now.
    WouldBlock,
    /// After waiting, the UART may take more.
    Polled,
    /// After waiting, the line is broken; this is what the poll returned.
    PolledTerminal(u16),
    /// The attempt, or the wait, failed.
    Failed(Error),
}

/// What to do next with a frame.
#[derive(Debug)]
pub enum WriteRequest {
    /// Write from this byte on.
    Write(usize),
    /// Wait until the UART may take more, 20 ms at most.
    Poll,
    /// All bytes were taken: wait until they are out.
    Drain,
    /// It cannot be written.
    Fail(Error),
}

/// A frame on its way through the UART.
#[derive(Debug)]
pub struct WriteRun {
    pub length: usize,
    /// How many bytes were taken.
    pub written: usize,
    pub deadline: u64,
}

/// Goes on with the bytes that are left.
pub open spec fn goes_on(run: WriteRun) -> WriteRequest {
    if run.written < run.length {
        WriteRequest::Write(run.written)
    } else {
        WriteRequest::Drain
    }
}

/// The failure in words.
pub open spec fn write_fails(request: WriteRequest, said: Seq<char>) -> bool {
    request matches WriteRequest::Fail(e) && e@ == ErrorView::Other(said)
}

impl WriteRun {
    pub open spec fn wf(&self) -> bool {
        self.written <= self.length
    }

    /// What came of an attempt is possible: no more was taken than there was.
    pub open spec fn admits(self, event: WriteEvent) -> bool {
        event matches WriteEvent::Taken(count) ==> count <= self.length - self.written
    }

    /// The state after an attempt.
    pub open spec fn after(self, event: WriteEvent) -> Self {
        WriteRun {
            written: match event {
                WriteEvent::Taken(count) => (self.written + count) as usize,
                _ => self.written,
            },
            ..self
        }
    }

    /// The state after several attempts.
    pub open spec fn after_all(self, events: Seq<WriteEvent>) -> Self
        decreases events.len(),
    {
        if events.len() == 0 {
            self
        } else {
            self.after_all(events.drop_last()).after(events.last())
        }
    }

    /// The attempts are possible, one after another.
    pub open spec fn admits_all(self, events: Seq<WriteEvent>) -> bool {
        forall|k: int|
            #![trigger events[k]]
            0 <= k < events.len() ==> self.after_all(events.take(k)).admits(events[k])
    }

    pub fn begin(length: usize, now: u64) -> (started: (Self, WriteRequest))
        requires
            now + WRITE_TIMEOUT <= u64::MAX,
        ensures
            started.0 == (WriteRun {
                length,
                written: 0,
                deadline: (now + WRITE_TIMEOUT) as u64,
            }),
            started.0.wf(),
            started.1 == goes_on(started.0),
            started.0.deadline == now + 100_000_000,
            length > 0 ==> started.1 == WriteRequest::Write(0),
            length == 0 ==> started.1 is Drain,
    {
        let run = WriteRun { length, written: 0, deadline: now + WRITE_TIMEOUT };
        let request = run.next();
        (run, request)
    }

    fn next(&self) -> (request: WriteRequest)
        ensures
            request == goes_on(*self),
    {
        if self.written < self.length {
            WriteRequest::Write(self.written)
        } else {
            WriteRequest::Drain
        }
    }

    /// Goes on after what came of the last attempt.
    pub fn step(&mut self, path: &str, event: WriteEvent, now: u64) -> (request: WriteRequest)
        requires
            old(self).wf(),
            old(self).admits(event),
        ensures
            final(self).wf(),
            *final(self) == old(self).after(event),
            match event {
                WriteEvent::Taken(count) => if count > 0 {
                    request == goes_on(*final(self))
                } else {
                    write_fails(
                        request,
                        "write "@ + path@ + " returned zero after "@ + text::decimal(
                            old(self).written as nat,
                        ) + " bytes"@,
                    )
                },
                WriteEvent::Interrupted => request == goes_on(*old(self)),
                WriteEvent::WouldBlock => if now >= old(self).deadline {
                    write_fails(
                        request,
                        "write "@ + path@ + " timed out after 100ms ("@ + text::decimal(
                            old(self).written as nat,
                        ) + "/"@ + text::decimal(old(self).length as nat) + " bytes)"@,
                    )
                } else {
                    request is Poll
                },
                WriteEvent::Polled => request == goes_on(*old(self)),
                WriteEvent::PolledTerminal(events) => write_fails(
                    request,
                    "poll "@ + path@ + " while writing returned terminal revents=0x"@
                        + text::short_hexadecimal(events as nat),
                ),
                WriteEvent::Failed(e) => request == WriteRequest::Fail(e),
            },
            final(self).length == old(self).length && final(self).deadline == old(self).deadline,
            final(self).written == old(self).written + (if let WriteEvent::Taken(count) = event {
                count as int
            } else {
                0int
            }),
            request matches WriteRequest::Write(from) ==> from == final(self).written && from
                < final(self).length,
            request is Drain ==> final(self).written == final(self).length,
            request is Poll <==> event is WouldBlock && now < old(self).deadline,
    {
        match event {
            WriteEvent::Taken(count) => {
                if count > 0 {
                    self.written += count;
                    self.next()
                } else {
                    let number = decimal_text(self.written as u64);
                    let start = join3("write ", path, " returned zero after ");
                    WriteRequest::Fail(
                        Error::Other(join3(start.as_str(), number.as_str(), " bytes")),
                    )
                }
            },
            WriteEvent::Interrupted => self.next(),
            WriteEvent::WouldBlock => {
                if now >= self.deadline {
                    let written = decimal_text(self.written as u64);
                    let length = decimal_text(self.length as u64);
                    let start = join3("write ", path, " timed out after 100ms (");
                    let middle = join3(start.as_str(), written.as_str(), "/");
                    WriteRequest::Fail(
                        Error::Other(join3(middle.as_str(), length.as_str(), " bytes)")),
                    )
                } else {
                    WriteRequest::Poll
                }
            },
            WriteEvent::Polled => self.next(),
            WriteEvent::PolledTerminal(events) => {
                let code = short_hexadecimal_text(events as u64);
                let start = join3("poll ", path, " while writing returned terminal revents=0x");
                WriteRequest::Fail(Error::Other(join(start.as_str(), code.as_str())))
            },
            WriteEvent::Failed(error) => WriteRequest::Fail(error),
        }
    }
}

/// How many bytes were taken in all.
pub open spec fn bytes_taken(events: Seq<WriteEvent>) -> nat
    decreases events.len(),
{
    if events.len() == 0 {
        0
    } else {
        bytes_taken(events.drop_last()) + (match events.last() {
            WriteEvent::Taken(count) => count as nat,
            _ => 0nat,
        })
    }
}

/// However the attempts go, no byte of a frame is left out or written twice: the next
/// one starts behind the bytes that were taken, and the frame counts as written only
/// once all of them were.
pub proof fn written_means_all(run: WriteRun, events: Seq<WriteEvent>)
    requires
        run.written == 0,
        run.admits_all(events),
    ensures
        run.after_all(events).wf(),
        run.after_all(events).length == run.length,
        run.after_all(events).written == bytes_taken(events),
        goes_on(run.after_all(events)) is Drain <==> bytes_taken(events) == run.length,
        goes_on(run.after_all(events)) matches WriteRequest::Write(from) ==> from == bytes_taken(
            events,
        ),
    decreases events.len(),
{
    if events.len() > 0 {
        let front = events.drop_last();
        assert forall|k: int|
            #![trigger front[k]]
            0 <= k < front.len() implies run.after_all(front.take(k)).admits(front[k]) by {
            assert(front.take(k) =~= events.take(k));
            assert(run.after_all(events.take(k)).admits(events[k]));
        }
        written_means_all(run, front);
        let last = events.len() - 1;
        assert(events.take(last) =~= front);
        assert(run.after_all(events.take(last)).admits(events[last]));
    }
}

} // verus!
