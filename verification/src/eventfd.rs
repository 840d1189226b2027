//! Event descriptors, emulated with manual-reset event objects of the system.

use crate::os::{IoError, IoErrorKind, OsError};
use vstd::prelude::*;

verus! {

pub const EFD_NONBLOCK: i32 = 1;

pub const EFD_SEMAPHORE: i32 = 2;

/// What a wait comes back with when its object was signalled.
pub const WAIT_OBJECT_0: u32 = 0;

/// What a wait comes back with when it failed.
pub const WAIT_FAILED: u32 = 0xffff_ffff;

/// The timeout of a wait that does not end by itself.
pub const INFINITE: u32 = 0xffff_ffff;

/// A call that is to be made on an event object.
#[derive(Clone, Copy, Debug, PartialEq, Eq, Structural)]
pub enum EventCall {
    /// Create an event without a name. One that is not reset by hand is reset by a wait that
    /// reports it.
    Create { manual_reset: bool, initially_signalled: bool },
    /// Put the event into the signalled state.
    Signal { handle: usize },
    /// Wait until the event is signalled, for so many milliseconds at most.
    Wait { handle: usize, timeout: u32 },
    /// Take the event out of the signalled state.
    Reset { handle: usize },
    /// Make a second handle of the event, with the same access rights.
    Duplicate { handle: usize },
}

/// An event descriptor: the handle of an event object, and whether reading waits.
#[derive(Debug)]
pub struct EventFd {
    handle: usize,
    nonblock: bool,
}

impl EventFd {
    /// The handle of the event object.
    pub closed spec fn handle(self) -> usize {
        self.handle
    }

    /// Reading does not wait.
    pub closed spec fn nonblock(self) -> bool {
        self.nonblock
    }

    /// What a read goes on with after the wait has come back with `result`.
    pub open spec fn after_wait(self, result: u32) -> Result<EventCall, IoError> {
        if result == WAIT_OBJECT_0 {
            Ok(EventCall::Reset { handle: self.handle() })
        } else if self.nonblock() {
            Err(IoError::WouldBlock)
        } else {
            Err(IoError::WaitFailed)
        }
    }

    /// What a read comes back with after the event was to be reset.
    pub open spec fn after_reset(reset: Result<(), OsError>) -> Result<u64, IoError> {
        match reset {
            Ok(()) => Ok(1),
            Err(e) => Err(IoError::Os(e)),
        }
    }

    /// What a read comes back with, given what its wait and, if there is one, its reset came back
    /// with.
    pub open spec fn read_outcome(self, result: u32, reset: Result<(), OsError>) -> Result<
        u64,
        IoError,
    > {
        match self.after_wait(result) {
            Ok(_) => Self::after_reset(reset),
            Err(e) => Err(e),
        }
    }

    /// The call that creates the event object of a descriptor: it is reset by hand and starts out
    /// unsignalled. The outcome of the call goes to `new`.
    pub fn create_call() -> (call: EventCall)
        ensures
            call == (EventCall::Create { manual_reset: true, initially_signalled: false }),
    {
        EventCall::Create { manual_reset: true, initially_signalled: false }
    }

    /// Makes an event descriptor of `created`, the outcome of `create_call`.
    pub fn new(flag: i32, created: Result<usize, OsError>) -> (r: Result<EventFd, IoError>)
        ensures
            match created {
                Ok(handle) => r matches Ok(fd) && fd.handle() == handle && fd.nonblock() == (flag
                    & EFD_NONBLOCK != 0),
                Err(e) => r == Err::<EventFd, IoError>(IoError::Os(e)),
            },
    {
        match created {
            Ok(handle) => Ok(EventFd { handle, nonblock: flag & EFD_NONBLOCK != 0 }),
            Err(e) => Err(IoError::Os(e)),
        }
    }

    /// Signals the event, whatever the value. The outcome of the call goes to `write_done`.
    pub fn write(&self, _v: u64) -> (call: EventCall)
        ensures
            call == (EventCall::Signal { handle: self.handle() }),
    {
        EventCall::Signal { handle: self.handle }
    }

    /// What a write comes back with.
    pub fn write_done(set: Result<(), OsError>) -> (r: Result<(), IoError>)
        ensures
            match set {
                Ok(()) => r is Ok,
                Err(e) => r == Err::<(), IoError>(IoError::Os(e)),
            },
    {
        match set {
            Ok(()) => Ok(()),
            Err(e) => Err(IoError::Os(e)),
        }
    }

    /// Waits for the event: not at all if reading does not wait, else until it is signalled. The
    /// outcome of the call goes to `read_waited`.
    pub fn read(&self) -> (call: EventCall)
        ensures
            call == (EventCall::Wait {
                handle: self.handle(),
                timeout: if self.nonblock() { 0 } else { INFINITE },
            }),
    {
        let timeout: u32 = if self.nonblock { 0 } else { INFINITE };
        EventCall::Wait { handle: self.handle, timeout }
    }

    /// Goes on with a read after the wait: a signalled event is reset, and the outcome of that
    /// call goes to `read_reset`.
    pub fn read_waited(&self, result: u32) -> (r: Result<EventCall, IoError>)
        ensures
            r == self.after_wait(result),
            result == 0 ==> r == Ok::<EventCall, IoError>(
                EventCall::Reset { handle: self.handle() },
            ),
            result != 0 && self.nonblock() ==> r == Err::<EventCall, IoError>(IoError::WouldBlock),
            result != 0 && !self.nonblock() ==> r == Err::<EventCall, IoError>(IoError::WaitFailed),
    {
        if result == WAIT_OBJECT_0 {
            Ok(EventCall::Reset { handle: self.handle })
        } else if self.nonblock {
            Err(IoError::WouldBlock)
        } else {
            Err(IoError::WaitFailed)
        }
    }

    /// What a read comes back with once the event has been reset: always one.
    pub fn read_reset(reset: Result<(), OsError>) -> (r: Result<u64, IoError>)
        ensures
            r == Self::after_reset(reset),
            reset is Ok ==> r == Ok::<u64, IoError>(1),
            reset matches Err(e) ==> r == Err::<u64, IoError>(IoError::Os(e)),
    {
        match reset {
            Ok(()) => Ok(1),
            Err(e) => Err(IoError::Os(e)),
        }
    }

    /// Makes a second handle of the event. The outcome of the call goes to `try_clone_done`.
    pub fn try_clone(&self) -> (call: EventCall)
        ensures
            call == (EventCall::Duplicate { handle: self.handle() }),
    {
        EventCall::Duplicate { handle: self.handle }
    }

    /// A second event descriptor, which reads as this one does.
    pub fn try_clone_done(&self, duplicated: Result<usize, OsError>) -> (r: Result<
        EventFd,
        IoError,
    >)
        ensures
            match duplicated {
                Ok(handle) => r matches Ok(fd) && fd.handle() == handle && fd.nonblock()
                    == self.nonblock(),
                Err(e) => r == Err::<EventFd, IoError>(IoError::Os(e)),
            },
    {
        match duplicated {
            Ok(handle) => Ok(EventFd { handle, nonblock: self.nonblock }),
            Err(e) => Err(IoError::Os(e)),
        }
    }

    pub fn get_write_fd(&self) -> (handle: usize)
        ensures
            handle == self.handle(),
    {
        self.handle
    }

    pub fn as_raw_handle(&self) -> (handle: usize)
        ensures
            handle == self.handle(),
    {
        self.handle
    }
}

/// The event objects of the system: the event that each open handle stands for, the events that are
/// signalled, those that are reset by hand, and the number of the next event.
pub struct Events {
    pub event_of: Map<usize, int>,
    pub signalled: Set<int>,
    pub manual: Set<int>,
    pub next: int,
}

impl Events {
    /// The event that a handle stands for is signalled.
    pub open spec fn is_signalled(self, handle: usize) -> bool {
        self.signalled.contains(self.event_of[handle])
    }

    /// There is such an event, and it is reset by hand.
    pub open spec fn has_manual(self, event: int) -> bool {
        event < self.next && self.manual.contains(event)
    }

    /// The objects after a handle has been closed.
    pub open spec fn closed(self, handle: usize) -> Events {
        Events { event_of: self.event_of.remove(handle), ..self }
    }

    /// The objects after a call has succeeded, where `new_handle` is the handle that a creation or
    /// a duplication gave; else it does not matter. A wait succeeds when it reports the event, and
    /// then resets it, unless that is done by hand.
    pub open spec fn after(self, call: EventCall, new_handle: usize) -> Events {
        match call {
            EventCall::Create { manual_reset, initially_signalled } => Events {
                event_of: self.event_of.insert(new_handle, self.next),
                signalled: if initially_signalled {
                    self.signalled.insert(self.next)
                } else {
                    self.signalled.remove(self.next)
                },
                manual: if manual_reset {
                    self.manual.insert(self.next)
                } else {
                    self.manual.remove(self.next)
                },
                next: self.next + 1,
            },
            EventCall::Signal { handle } => Events {
                signalled: self.signalled.insert(self.event_of[handle]),
                ..self
            },
            EventCall::Wait { handle, .. } => if self.manual.contains(self.event_of[handle]) {
                self
            } else {
                Events { signalled: self.signalled.remove(self.event_of[handle]), ..self }
            },
            EventCall::Reset { handle } => Events {
                signalled: self.signalled.remove(self.event_of[handle]),
                ..self
            },
            EventCall::Duplicate { handle } => Events {
                event_of: self.event_of.insert(new_handle, self.event_of[handle]),
                ..self
            },
        }
    }

    /// The objects after a number of calls have succeeded, each with the handle that it gave.
    pub open spec fn after_all(self, calls: Seq<(EventCall, usize)>) -> Events
        decreases calls.len(),
    {
        if calls.len() == 0 {
            self
        } else {
            self.after_all(calls.drop_last()).after(calls.last().0, calls.last().1)
        }
    }

    /// A wait can come back with `result` when it ends: unless it failed, it reports the event
    /// exactly if it is signalled.
    pub open spec fn reports(self, handle: usize, result: u32) -> bool {
        result != WAIT_FAILED ==> (result == WAIT_OBJECT_0 <==> self.is_signalled(handle))
    }

    /// Call number `i` signals `event`.
    pub open spec fn signals(self, calls: Seq<(EventCall, usize)>, i: int, event: int) -> bool {
        calls[i].0 matches EventCall::Signal { handle } && self.after_all(
            calls.take(i),
        ).event_of[handle] == event
    }

    /// Call number `i` resets `event`.
    pub open spec fn resets(self, calls: Seq<(EventCall, usize)>, i: int, event: int) -> bool {
        calls[i].0 matches EventCall::Reset { handle } && self.after_all(
            calls.take(i),
        ).event_of[handle] == event
    }

    /// One of the calls signals `event`, and no later one resets it.
    pub open spec fn signalled_by(self, calls: Seq<(EventCall, usize)>, event: int) -> bool {
        exists|i: int|
            0 <= i < calls.len() && #[trigger] self.signals(calls, i, event) && forall|j: int|
                i < j < calls.len() ==> !#[trigger] self.resets(calls, j, event)
    }
}

/// The event of a new descriptor is an event of its own, which is unsignalled and reset by hand.
pub proof fn lemma_new_event_is_unsignalled(fd: EventFd, system: Events)
    requires
        forall|event: int| #[trigger] system.event_of.contains_value(event) ==> event < system.next,
    ensures
        ({
            let created = system.after(
                EventCall::Create { manual_reset: true, initially_signalled: false },
                fd.handle(),
            );
            &&& created.event_of[fd.handle()] == system.next
            &&& created.has_manual(system.next)
            &&& !created.is_signalled(fd.handle())
            &&& forall|other: usize|
                other != fd.handle() && #[trigger] system.event_of.contains_key(other)
                    ==> created.event_of[other] != created.event_of[fd.handle()]
                    && created.is_signalled(other) == system.is_signalled(other)
        }),
{
    assert forall|other: usize|
        other != fd.handle() && #[trigger] system.event_of.contains_key(
            other,
        ) implies system.event_of[other] < system.next by {
        assert(system.event_of.contains_value(system.event_of[other]));
    }
}

/// A write signals the event of the descriptor, whatever state it was in, and no other event.
pub proof fn lemma_write_signals(fd: EventFd, events: Events, other: usize)
    ensures
        ({
            let written = events.after(EventCall::Signal { handle: fd.handle() }, 0);
            &&& written.is_signalled(fd.handle())
            &&& events.event_of[other] != events.event_of[fd.handle()] ==> written.is_signalled(
                other,
            ) == events.is_signalled(other)
        }),
{
}

/// A read that succeeds gives one. It found the event signalled and leaves it unsignalled, and
/// leaves every other event alone. A read that does not wait would block exactly if its wait does
/// not report the event; a read that waits never would, and fails if its wait does.
pub proof fn lemma_read_takes_the_signal(
    fd: EventFd,
    events: Events,
    result: u32,
    reset: Result<(), OsError>,
    other: usize,
)
    requires
        events.reports(fd.handle(), result),
    ensures
        fd.read_outcome(result, reset) matches Ok(v) ==> {
            let read = events.after(EventCall::Reset { handle: fd.handle() }, 0);
            &&& v == 1
            &&& events.is_signalled(fd.handle())
            &&& fd.after_wait(result) == Ok::<EventCall, IoError>(
                EventCall::Reset { handle: fd.handle() },
            )
            &&& !read.is_signalled(fd.handle())
            &&& events.event_of[other] != events.event_of[fd.handle()] ==> read.is_signalled(other)
                == events.is_signalled(other)
        },
        if fd.nonblock() {
            fd.read_outcome(result, reset) == Err::<u64, IoError>(IoError::WouldBlock) <==> result
                != WAIT_OBJECT_0
        } else {
            &&& fd.read_outcome(result, reset) != Err::<u64, IoError>(IoError::WouldBlock)
            &&& result != WAIT_OBJECT_0 ==> (fd.read_outcome(result, reset) matches Err(e)
                && e.spec_kind() == IoErrorKind::Other)
        },
{
}

/// A read gives one exactly if the event is signalled, where neither its wait nor its reset fails.
pub proof fn lemma_read_of_a_signalled_event(
    fd: EventFd,
    events: Events,
    result: u32,
    reset: Result<(), OsError>,
)
    requires
        events.reports(fd.handle(), result),
        result != WAIT_FAILED,
        reset is Ok,
    ensures
        fd.read_outcome(result, reset) == Ok::<u64, IoError>(1) <==> events.is_signalled(
            fd.handle(),
        ),
{
}

/// A read right after a write gives one, where neither its wait nor its reset fails.
pub proof fn lemma_read_after_write_gives_one(
    fd: EventFd,
    events: Events,
    result: u32,
    reset: Result<(), OsError>,
)
    requires
        events.after(EventCall::Signal { handle: fd.handle() }, 0).reports(fd.handle(), result),
        result != WAIT_FAILED,
        reset is Ok,
    ensures
        fd.read_outcome(result, reset) == Ok::<u64, IoError>(1),
{
}

/// A read succeeds exactly after a write, where neither its wait nor its reset fails: the descriptor
/// was made with an event of its own, which its handle still stands for, and the calls were made
/// since; the read gives one exactly if one of them signalled the event and none has reset it after
/// that. Whatever fails, a read that succeeds follows such a write.
pub proof fn lemma_read_follows_a_write(
    fd: EventFd,
    system: Events,
    calls: Seq<(EventCall, usize)>,
    result: u32,
    reset: Result<(), OsError>,
)
    requires
        system.after(
            EventCall::Create { manual_reset: true, initially_signalled: false },
            fd.handle(),
        ).after_all(calls).event_of[fd.handle()] == system.next,
        system.after(
            EventCall::Create { manual_reset: true, initially_signalled: false },
            fd.handle(),
        ).after_all(calls).reports(fd.handle(), result),
    ensures
        ({
            let created = system.after(
                EventCall::Create { manual_reset: true, initially_signalled: false },
                fd.handle(),
            );
            &&& fd.read_outcome(result, reset) is Ok ==> created.signalled_by(calls, system.next)
            &&& result != WAIT_FAILED && reset is Ok ==> (fd.read_outcome(result, reset) == Ok::<
                u64,
                IoError,
            >(1) <==> created.signalled_by(calls, system.next))
        }),
{
    let created = system.after(
        EventCall::Create { manual_reset: true, initially_signalled: false },
        fd.handle(),
    );
    lemma_signalled_by_a_call(created, calls, system.next);
}

/// An event that is reset by hand stays one, whatever calls are made.
proof fn lemma_stays_manual(events: Events, calls: Seq<(EventCall, usize)>, event: int)
    requires
        events.has_manual(event),
    ensures
        events.after_all(calls).has_manual(event),
    decreases calls.len(),
{
    if calls.len() > 0 {
        lemma_stays_manual(events, calls.drop_last(), event);
    }
}

/// An event that is reset by hand and was unsignalled is signalled after a number of calls exactly
/// if one of them signals it and no later one resets it.
pub proof fn lemma_signalled_by_a_call(
    events: Events,
    calls: Seq<(EventCall, usize)>,
    event: int,
)
    requires
        events.has_manual(event),
        !events.signalled.contains(event),
    ensures
        events.after_all(calls).signalled.contains(event) <==> events.signalled_by(calls, event),
    decreases calls.len(),
{
    if calls.len() > 0 {
        let before = calls.drop_last();
        let last = calls.len() - 1;
        lemma_signalled_by_a_call(events, before, event);
        lemma_stays_manual(events, before, event);
        assert(calls.take(last) =~= before);
        assert forall|i: int| 0 <= i < last implies #[trigger] events.signals(calls, i, event)
            == events.signals(before, i, event) && events.resets(calls, i, event) == events.resets(
            before,
            i,
            event,
        ) by {
            assert(calls.take(i) =~= before.take(i));
        }
        if events.signals(calls, last, event) {
            assert(events.signalled_by(calls, event));
        } else if events.signalled_by(before, event) && !events.resets(calls, last, event) {
            let i = choose|i: int|
                0 <= i < before.len() && #[trigger] events.signals(before, i, event) && forall|j: int|
                    i < j < before.len() ==> !#[trigger] events.resets(before, j, event);
            assert(events.signals(calls, i, event));
            assert forall|j: int| i < j < calls.len() implies !#[trigger] events.resets(
                calls,
                j,
                event,
            ) by {
                if j < last {
                    assert(events.signals(calls, j, event) == events.signals(before, j, event));
                }
            }
        } else if events.signalled_by(calls, event) {
            let i = choose|i: int|
                0 <= i < calls.len() && #[trigger] events.signals(calls, i, event) && forall|j: int|
                    i < j < calls.len() ==> !#[trigger] events.resets(calls, j, event);
            assert(events.signals(before, i, event));
            assert forall|j: int| i < j < before.len() implies !#[trigger] events.resets(
                before,
                j,
                event,
            ) by {
                assert(events.signals(calls, j, event) == events.signals(before, j, event));
            }
        }
    }
}

/// A second descriptor shows the same event: making it changes no state, a write through either
/// is found by a read through either, a read through one clears it for both, and closing one
/// leaves the other as it was.
pub proof fn lemma_clone_shares_the_event(fd: EventFd, clone: EventFd, events: Events)
    requires
        events.event_of.contains_key(fd.handle()),
        !events.event_of.contains_key(clone.handle()),
    ensures
        ({
            let cloned = events.after(
                EventCall::Duplicate { handle: fd.handle() },
                clone.handle(),
            );
            &&& cloned.signalled == events.signalled
            &&& cloned.is_signalled(fd.handle()) == events.is_signalled(fd.handle())
            &&& forall|writer: EventFd, reader: EventFd|
                (writer == fd || writer == clone) && (reader == fd || reader == clone) ==> {
                    &&& (#[trigger] cloned.after(
                        EventCall::Signal { handle: writer.handle() },
                        0,
                    )).is_signalled(#[trigger] reader.handle())
                    &&& !cloned.after(
                        EventCall::Reset { handle: writer.handle() },
                        0,
                    ).is_signalled(reader.handle())
                }
            &&& cloned.closed(fd.handle()).event_of.contains_key(clone.handle())
            &&& cloned.closed(fd.handle()).is_signalled(clone.handle()) == cloned.is_signalled(
                clone.handle(),
            )
            &&& cloned.closed(clone.handle()).event_of.contains_key(fd.handle())
            &&& cloned.closed(clone.handle()).is_signalled(fd.handle()) == cloned.is_signalled(
                fd.handle(),
            )
            &&& cloned.is_signalled(clone.handle()) == cloned.is_signalled(fd.handle())
        }),
{
}

} // verus!
